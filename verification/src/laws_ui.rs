//! What holds of the lists on the screen, of their layout and of their styles.

use vstd::prelude::*;
use vstd::string::*;

use crate::app::{App, Focus};
use crate::git::{added_lines, removed_lines, FileChange, Mode, Status};
use crate::input::Rect;
use crate::laws_text::law_filled_texts_have_their_width;
use crate::model::{urgent, PaneRef, RepoGroup};
use crate::text::{decimal, opt_view};
use crate::ui::{
    abreast, areas_of, block, counts_view, cut_left, file_view, files_view, from_char, head_view,
    highlight, inner, lay_out, pane_view, repo_item, repos_view, size_view, stacked, state_icon,
    state_style, truncate, truncate_left, width_of, Areas, BodyView, Border, Color, Limit, Style,
    StyledView,
};

verus! {

// ---------------------------------------------------------------------------------------
// Styles and texts

/// A stretch of text without a style.
pub open spec fn bare(text: Seq<char>) -> StyledView {
    StyledView { text, style: Style { fg: None, bg: None, bold: false, italic: false } }
}

/// A stretch of text in a color.
pub open spec fn ink(text: Seq<char>, c: Color) -> StyledView {
    StyledView { text, style: Style { fg: Some(c), bg: None, bold: false, italic: false } }
}

/// A stretch of bold text in a color.
pub open spec fn bold_ink(text: Seq<char>, c: Color) -> StyledView {
    StyledView { text, style: Style { fg: Some(c), bg: None, bold: true, italic: false } }
}

/// A stretch of bold text.
pub open spec fn strong(text: Seq<char>) -> StyledView {
    StyledView { text, style: Style { fg: None, bg: None, bold: true, italic: false } }
}

/// A text that does not fit is cut at its end, or at its start, and the cut is marked.
pub proof fn law_cuts_are_marked(s: &str, max: usize, end: String, start: String)
    requires
        call_ensures(truncate, (s, max), end),
        call_ensures(truncate_left, (s, max), start),
    ensures
        s@.len() <= max ==> end@ == s@ && start@ == s@,
        s@.len() > max && max > 0 ==> end@ == s@.take(max - 1) + seq!['…'] && start@ == seq!['…']
            + s@.skip(s@.len() - (max - 1)),
        s@.len() > max && max == 0 ==> end@ == seq!['…'] && start@ == seq!['…'],
{
    if s@.len() > max {
        let n = if max > 0 {
            max - 1
        } else {
            0
        };
        assert(s@.take(n).push('…') =~= s@.take(n) + seq!['…']);
        if max == 0 {
            assert(s@.take(0) + seq!['…'] =~= seq!['…']);
            assert(seq!['…'] + s@.skip(s@.len() as int) =~= seq!['…']);
        }
    }
}

/// A text shifted sideways loses its first characters.
pub proof fn law_shifted_texts_lose_their_start(s: Seq<char>, n: int)
    requires
        n >= 0,
    ensures
        n <= s.len() ==> from_char(s, n) == s.skip(n),
        n > s.len() ==> from_char(s, n).len() == 0,
{
    if n == s.len() {
        assert(s.skip(n) =~= Seq::<char>::empty());
    }
}

/// The panel with the focus has a thick border in cyan, the others have round gray ones, and its
/// selection is brighter than theirs.
pub proof fn law_focus_shows(focused: bool, b: (Border, Style), h: Style)
    requires
        call_ensures(block, (focused,), b),
        call_ensures(highlight, (focused,), h),
    ensures
        focused ==> b.0 == Border::Thick && b.1 == ink(Seq::empty(), Color::Cyan).style,
        !focused ==> b.0 == Border::Rounded && b.1 == ink(Seq::empty(), Color::DarkGray).style,
        h.fg is None && !h.bold && !h.italic,
        focused ==> h.bg == Some(Color::Rgb(40, 44, 60)),
        !focused ==> h.bg == Some(Color::Rgb(30, 30, 36)),
{
}

// ---------------------------------------------------------------------------------------
// Layout

/// The last row of the screen is the status. On a screen of at least 120 columns the lists stand
/// one above the other at the left of the diff, else side by side above it.
pub proof fn law_screen_is_laid_out(screen: Rect, a: Areas)
    requires
        call_ensures(lay_out, (screen,), a),
    ensures
        a == areas_of(screen),
        ({
            let parts = stacked(screen, Limit::Min(3), Limit::Length(1));
            let main = parts.0;
            &&& a.status == parts.1
            &&& main.width >= 120 ==> {
                let halves = abreast(main, Limit::Length(46), Limit::Min(20));
                let lists = stacked(halves.0, Limit::Percentage(45), Limit::Min(4));
                a.diff == halves.1 && a.repos == lists.0 && a.files == lists.1
            }
            &&& main.width < 120 ==> {
                let halves = stacked(main, Limit::Percentage(40), Limit::Min(5));
                let lists = abreast(halves.0, Limit::Percentage(45), Limit::Min(10));
                a.diff == halves.1 && a.repos == lists.0 && a.files == lists.1
            }
        }),
{
}

/// A border takes a cell at each end.
pub proof fn law_borders_take_two_cells(n: u16)
    ensures
        n >= 2 ==> inner(n) == n - 2,
        n < 2 ==> inner(n) == 0,
{
}

// ---------------------------------------------------------------------------------------
// Repos

/// The icon and the color of an agent's state.
pub proof fn law_states_have_icons(s: Seq<char>)
    ensures
        s == "working"@ ==> state_icon(s) == '●' && state_style(s) == ink(s, Color::Yellow).style,
        s == "blocked"@ ==> state_icon(s) == '▲' && state_style(s) == bold_ink(
            s,
            Color::Magenta,
        ).style,
        s == "done"@ ==> state_icon(s) == '✓' && state_style(s) == ink(s, Color::Green).style,
        s == "idle"@ ==> state_icon(s) == '○' && state_style(s) == ink(s, Color::Blue).style,
        s != "working"@ && s != "blocked"@ && s != "done"@ && s != "idle"@ ==> state_icon(s) == '·'
            && state_style(s) == ink(s, Color::DarkGray).style,
{
    reveal_strlit("working");
    reveal_strlit("blocked");
    reveal_strlit("done");
    reveal_strlit("idle");
    assert("working"@[0] == 'w');
    assert("blocked"@[0] == 'b');
    assert("done"@[0] == 'd');
    assert("idle"@[0] == 'i');
}

/// Counts are green for what was added and red for what was removed; a binary file has none.
pub proof fn law_counts_are_colored(added: Option<u32>, removed: Option<u32>)
    ensures
        added is Some && removed is Some ==> counts_view(added, removed) == seq![
            ink("+"@ + decimal(added->0 as nat), Color::Green),
            bare(" "@),
            ink("-"@ + decimal(removed->0 as nat), Color::Red),
        ],
        added is None || removed is None ==> counts_view(added, removed) == seq![
            ink("bin"@, Color::DarkGray),
        ],
{
}

/// The state that stands for a repo or a pane; the empty text where there is none.
pub open spec fn state_or_none(s: Option<Seq<char>>) -> Seq<char> {
    if s is Some {
        s->0
    } else {
        Seq::empty()
    }
}

/// The line of a repo: the icon of its most urgent pane, its name, its branch, and how many
/// files and lines differ. A repo without changes is clean.
pub proof fn law_row_of_a_repo(g: RepoGroup)
    ensures
        ({
            let s = state_or_none(urgent(g.panes@));
            let lead = seq![
                StyledView { text: seq![state_icon(s)] + " "@, style: state_style(s) },
                strong(g.name@),
            ];
            &&& g.stats is Err ==> head_view(g) == lead + seq![ink(" git error"@, Color::Red)]
            &&& g.stats matches Ok(t) ==> {
                let branch = ink(" "@ + t.branch@ + " "@, Color::Magenta);
                &&& t.files@.len() == 0 ==> head_view(g) == lead + seq![
                    branch,
                    ink("clean"@, Color::DarkGray),
                ]
                &&& t.files@.len() > 0 ==> head_view(g) == lead + seq![
                    branch,
                    ink(decimal(t.files@.len()) + "f "@, Color::DarkGray),
                    ink("+"@ + decimal(added_lines(t.files@) % 0x1_0000_0000), Color::Green),
                    bare(" "@),
                    ink("-"@ + decimal(removed_lines(t.files@) % 0x1_0000_0000), Color::Red),
                ]
            }
        }),
{
    let s = state_or_none(urgent(g.panes@));
    let lead = seq![
        StyledView { text: seq![state_icon(s)] + " "@, style: state_style(s) },
        strong(g.name@),
    ];
    if let Ok(t) = g.stats {
        let branch = ink(" "@ + t.branch@ + " "@, Color::Magenta);
        if t.files@.len() == 0 {
            assert(head_view(g) =~= lead + seq![branch, ink("clean"@, Color::DarkGray)]);
        } else {
            assert(head_view(g) =~= lead + seq![
                branch,
                ink(decimal(t.files@.len()) + "f "@, Color::DarkGray),
                ink("+"@ + decimal(added_lines(t.files@) % 0x1_0000_0000), Color::Green),
                bare(" "@),
                ink("-"@ + decimal(removed_lines(t.files@) % 0x1_0000_0000), Color::Red),
            ]);
        }
    }
}

/// A text cut at its end to a width.
pub open spec fn cut_to(s: Seq<char>, max: int) -> Seq<char> {
    if s.len() <= max {
        s
    } else if max <= 0 {
        seq!['…']
    } else {
        s.take(max - 1) + seq!['…']
    }
}

/// The line of a pane: the icon of its state, its agent, or that it is a shell, and where it is
/// and what its title says, cut to the room that is left.
pub proof fn law_row_of_a_pane(p: PaneRef, width: int)
    requires
        width >= 0,
    ensures
        ({
            let s = state_or_none(opt_view(p.status));
            let who = if p.agent is Some {
                p.agent->0@
            } else {
                "shell"@
            };
            let place = p.workspace@ + "/"@ + p.tab@;
            let detail = if p.title@.len() > 0 {
                place + " · "@ + p.title@
            } else {
                place
            };
            let room = if width >= 4 + who.len() {
                width - 4 - who.len()
            } else {
                0
            };
            pane_view(p, width) == seq![
                bare("  "@),
                StyledView { text: seq![state_icon(s)] + " "@, style: state_style(s) },
                StyledView {
                    text: who,
                    style: if p.agent is Some {
                        state_style(s)
                    } else {
                        ink(who, Color::DarkGray).style
                    },
                },
                bare(" "@),
                ink(cut_to(detail, room), Color::DarkGray),
            ]
        }),
{
    let who = if p.agent is Some {
        p.agent->0@
    } else {
        "shell"@
    };
    let detail = crate::ui::pane_detail(p);
    let room = if width >= 4 + who.len() {
        width - 4 - who.len()
    } else {
        0
    };
    assert(crate::ui::cut(detail, room) =~= cut_to(detail, room));
}

/// The panel of the repos: a list of repos, each with its panes below it, or what is to be said
/// where there are none.
pub proof fn law_panel_of_repos(app: App, width: u16)
    ensures
        ({
            let p = repos_view(app, width);
            let w = if width >= 4 {
                width - 4
            } else {
                0
            };
            &&& p.title == seq![bare(" Repos ("@ + decimal(app.groups@.len()) + ") "@)]
            &&& p.focused <==> app.focus == Focus::Repos
            &&& app.groups@.len() > 0 ==> p.body == (BodyView::List {
                items: Seq::new(
                    app.groups@.len(),
                    |i: int|
                        seq![head_view(app.groups@[i])] + Seq::new(
                            app.groups@[i].panes@.len(),
                            |k: int| pane_view(app.groups@[i].panes@[k], w),
                        ),
                ),
                selected: app.repo_idx,
            })
            &&& app.groups@.len() == 0 ==> p.body == (BodyView::Text {
                lines: seq![
                    seq![
                        ink(
                            if app.herdr_error is Some {
                                app.herdr_error->0@
                            } else if app.loading {
                                "loading…"@
                            } else {
                                "no herdr panes inside git repos"@
                            },
                            Color::DarkGray,
                        ),
                    ],
                ],
                wrap: true,
            })
        }),
{
    let w = if width >= 4 {
        width - 4
    } else {
        0
    };
    if app.groups@.len() > 0 {
        let items = app.groups@.map_values(|g: RepoGroup| repo_item(g, w));
        let all = Seq::new(
            app.groups@.len(),
            |i: int|
                seq![head_view(app.groups@[i])] + Seq::new(
                    app.groups@[i].panes@.len(),
                    |k: int| pane_view(app.groups@[i].panes@[k], w),
                ),
        );
        assert forall|i: int| 0 <= i < items.len() implies items[i] == all[i] by {
            assert(items[i] =~= all[i]);
        }
        assert(items =~= all);
        assert(crate::ui::less(width as int, 4) == w);
    }
}

// ---------------------------------------------------------------------------------------
// Files

/// The line of a file: the letter of its status in the status' color, its path, cut at its start
/// or filled up to the room there is, and its counts. A nested repo has none.
pub proof fn law_row_of_a_file(f: FileChange, width: int)
    requires
        width >= 0,
    ensures
        ({
            let v = file_view(f, width);
            let size = if f.path@.len() > 0 && f.path@.last() == '/' {
                seq![ink("repo"@, Color::DarkGray)]
            } else {
                counts_view(f.added, f.removed)
            };
            let (letter, color) = match f.status {
                Status::Added => ('A', Color::Green),
                Status::Untracked => ('?', Color::Green),
                Status::Deleted => ('D', Color::Red),
                Status::Modified => ('M', Color::Yellow),
                Status::TypeChanged => ('T', Color::Magenta),
                Status::Other(c) => (c, Color::Magenta),
            };
            let room = width - 3 - width_of(size);
            &&& size_view(f) == size
            &&& v.len() == 2 + size.len()
            &&& v[0] == bold_ink(seq![letter] + " "@, color)
            &&& v[1].style == bare(Seq::empty()).style
            &&& forall|i: int| 0 <= i < size.len() ==> v[2 + i] == #[trigger] size[i]
            &&& room >= f.path@.len() ==> v[1].text.len() == room + 1 && v[1].text.take(
                f.path@.len() as int,
            ) == f.path@ && forall|i: int|
                f.path@.len() <= i <= room ==> #[trigger] v[1].text[i] == ' '
            &&& 0 < room < f.path@.len() ==> v[1].text == seq!['…'] + f.path@.skip(
                f.path@.len() - (room - 1),
            ) + " "@
            &&& room <= 0 && f.path@.len() > 0 ==> v[1].text == seq!['…'] + " "@
        }),
{
    reveal_strlit(" ");
    let size = size_view(f);
    let v = file_view(f, width);
    let room = width - 3 - width_of(size);
    if room <= 0 && f.path@.len() > 0 {
        assert(crate::ui::less(width, width_of(size) as int + 3) == 0);
        assert(cut_left(f.path@, 0) =~= seq!['…']);
        law_filled_texts_have_their_width(seq!['…'], 0);
    }
    if room >= 0 {
        assert(crate::ui::less(width, width_of(size) as int + 3) == room);
        law_filled_texts_have_their_width(f.path@, room);
        law_filled_texts_have_their_width(cut_left(f.path@, room), room);
        if room >= f.path@.len() {
            assert(v[1].text == crate::text::padded(f.path@, room) + " "@);
            assert(v[1].text.take(f.path@.len() as int) =~= f.path@);
        }
    }
}

/// The width of a line is that of its stretches together.
pub proof fn law_widths_add_up(a: Seq<StyledView>, s: StyledView)
    ensures
        width_of(Seq::<StyledView>::empty()) == 0,
        width_of(a.push(s)) == width_of(a) + s.text.len(),
{
    assert(a.push(s).drop_last() =~= a);
}

/// The panel of the files: the files of the selected repo against its base, its error, or that
/// the mode shows no changes.
pub proof fn law_panel_of_files(app: App, width: u16)
    ensures
        ({
            let p = files_view(app, width);
            let w = if width >= 4 {
                width - 4
            } else {
                0
            };
            let mode = match app.mode {
                Mode::Uncommitted => "uncommitted"@,
                Mode::Unstaged => "unstaged"@,
                Mode::Staged => "staged"@,
                Mode::Branch => "branch"@,
            };
            &&& p.focused <==> app.focus == Focus::Files
            &&& app.repo_idx >= app.groups@.len() ==> p.title == seq![bare(" Files "@)] && p.body
                == (BodyView::Text { lines: Seq::empty(), wrap: false })
            &&& app.repo_idx < app.groups@.len() ==> match app.groups@[app.repo_idx as int].stats {
                Err(e) => p.title == seq![bare(" Files "@)] && p.body == (BodyView::Text {
                    lines: seq![seq![ink(e@, Color::Red)]],
                    wrap: true,
                }),
                Ok(s) => {
                    &&& p.title == seq![
                        bare(" Files ("@ + decimal(s.files@.len()) + ") vs "@ + s.base@ + " "@),
                    ]
                    &&& s.files@.len() == 0 ==> p.body == (BodyView::Text {
                        lines: seq![seq![ink("no "@ + mode + " changes"@, Color::DarkGray)]],
                        wrap: false,
                    })
                    &&& s.files@.len() > 0 ==> p.body == (BodyView::List {
                        items: Seq::new(
                            s.files@.len(),
                            |i: int| seq![file_view(s.files@[i], w)],
                        ),
                        selected: app.file_idx,
                    })
                },
            }
        }),
{
    let w = if width >= 4 {
        width - 4
    } else {
        0
    };
    assert(crate::ui::less(width as int, 4) == w);
    if app.repo_idx < app.groups@.len() {
        if let Ok(s) = app.groups@[app.repo_idx as int].stats {
            assert(s.files@.map_values(
                |f: FileChange| seq![file_view(f, crate::ui::less(width as int, 4))],
            ) =~= Seq::new(s.files@.len(), |i: int| seq![file_view(s.files@[i], w)]));
        }
    }
}

} // verus!
