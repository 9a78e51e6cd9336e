//! What holds of the diff on the screen, of the status bar, and of what opens on top.

use vstd::prelude::*;
use vstd::string::*;

use crate::app::{App, CommitBox, DiffView, Focus, Notice};
use crate::diff::{DiffLine, LineKind, Row};
use crate::git::Mode;
use crate::highlight::{Fg, HlSpan, SpanView};
use crate::input::Rect;
use crate::laws_keys::{message_text, side_by_side};
use crate::laws_ui::{bare, bold_ink, cut_to, ink, strong};
use crate::model::name_of;
use crate::scope::Scope;
use crate::screen::{framed, shows, Screen};
use crate::text::{aligned_right, decimal, join, lines, padded, spaces, views};
use crate::ui::{
    files_view, from_char, repos_view, width_of, Areas, BodyView, Color, Panel, PanelView, Style,
    Styled, StyledView,
};
use crate::ui_diff::{
    body_style, body_view, cell_view, clipped, columns, diff_panel, diff_view, fits_to, fitted,
    largest_no, number_text, number_width, over, row_view, sign_style, sign_text, span_width,
    text_columns, unified_view,
};
use crate::ui_status::{center, commit_panel, help_panel, notice_panel, status_line, status_view};

verus! {

// ---------------------------------------------------------------------------------------
// Line numbers

/// The number columns are as wide as the largest number of the diff, and at least three wide.
pub proof fn law_number_columns_hold_the_largest(l: Seq<DiffLine>, top: u32, at: int)
    requires
        forall|i: int|
            0 <= i < l.len() ==> ((#[trigger] l[i]).old_no is Some ==> l[i].old_no->0 <= top) && (
            l[i].new_no is Some ==> l[i].new_no->0 <= top),
        top == 0 || (0 <= at < l.len() && (l[at].old_no == Some(top) || l[at].new_no == Some(top))),
    ensures
        largest_no(l) == top,
        number_width(l) == (if decimal(top as nat).len() > 3 {
            decimal(top as nat).len()
        } else {
            3
        }),
{
    lemma_largest(l, top, at);
}

proof fn lemma_largest(l: Seq<DiffLine>, top: u32, at: int)
    requires
        forall|i: int|
            0 <= i < l.len() ==> ((#[trigger] l[i]).old_no is Some ==> l[i].old_no->0 <= top) && (
            l[i].new_no is Some ==> l[i].new_no->0 <= top),
    ensures
        largest_no(l) <= top,
        0 <= at < l.len() && (l[at].old_no == Some(top) || l[at].new_no == Some(top))
            ==> largest_no(l) == top,
    decreases l.len(),
{
    if l.len() > 0 {
        let head = l.drop_last();
        assert forall|i: int| 0 <= i < head.len() implies ((#[trigger] head[i]).old_no is Some
            ==> head[i].old_no->0 <= top) && (head[i].new_no is Some ==> head[i].new_no->0
            <= top) by {
            assert(head[i] == l[i]);
        }
        lemma_largest(head, top, at);
        assert(l[l.len() - 1] == l.last());
        if 0 <= at < head.len() {
            assert(head[at] == l[at]);
        }
    }
}

/// A number stands at the right of its column; a line without one leaves it blank.
pub proof fn law_numbers_stand_at_the_right(k: u32, w: int)
    ensures
        number_text(Some(k), w) == aligned_right(decimal(k as nat), w),
        w >= 0 ==> number_text(None, w).len() == w && forall|i: int|
            0 <= i < w ==> #[trigger] number_text(None, w)[i] == ' ',
{
}

// ---------------------------------------------------------------------------------------
// Lines

/// What was added has a plus sign and a green ground, what was removed a minus sign and a red
/// one; other lines have neither.
pub proof fn law_changes_are_colored(kind: LineKind)
    ensures
        kind == LineKind::Added ==> {
            let ground = Some(Color::Rgb(18, 46, 28));
            &&& sign_text(kind) == "+"@
            &&& sign_style(kind) == (Style {
                fg: Some(Color::Green),
                bg: ground,
                bold: true,
                italic: false,
            })
            &&& body_style(kind) == (Style {
                fg: Some(Color::Reset),
                bg: ground,
                bold: false,
                italic: false,
            })
        },
        kind == LineKind::Removed ==> {
            let ground = Some(Color::Rgb(58, 22, 26));
            &&& sign_text(kind) == "-"@
            &&& sign_style(kind) == (Style {
                fg: Some(Color::Red),
                bg: ground,
                bold: true,
                italic: false,
            })
            &&& body_style(kind) == (Style {
                fg: Some(Color::Reset),
                bg: ground,
                bold: false,
                italic: false,
            })
        },
        kind != LineKind::Added && kind != LineKind::Removed ==> {
            &&& sign_text(kind) == " "@
            &&& sign_style(kind) == (Style {
                fg: Some(Color::Reset),
                bg: Some(Color::Reset),
                bold: true,
                italic: false,
            })
            &&& body_style(kind) == (Style { fg: None, bg: None, bold: false, italic: false })
        },
{
}

/// A highlighted span keeps the ground of its line; its default color is that of the line.
pub proof fn law_spans_lie_on_their_line(s: SpanView, base: Style)
    ensures
        over(s, base).bg == base.bg,
        over(s, base).bold == s.bold,
        over(s, base).italic == s.italic,
        s.fg is Default ==> over(s, base).fg == base.fg,
        s.fg matches Fg::Rgb(r, g, b) ==> over(s, base).fg == Some(Color::Rgb(r, g, b)),
        s.fg matches Fg::Indexed(n) ==> over(s, base).fg == Some(Color::Indexed(n)),
{
}

proof fn lemma_clipped_shift(s: SpanView, rest: Seq<SpanView>, i: int, k: int, base: Style)
    requires
        0 <= i <= rest.len(),
    ensures
        clipped(seq![s] + rest, i + 1, k, base) == clipped(rest, i, k, base),
    decreases rest.len() - i,
{
    let all = seq![s] + rest;
    if i < rest.len() {
        assert(all[i + 1] == rest[i]);
        if k >= rest[i].text.len() {
            lemma_clipped_shift(s, rest, i + 1, k - rest[i].text.len(), base);
        } else {
            lemma_clipped_shift(s, rest, i + 1, 0, base);
        }
    }
}

/// Shifted sideways, a highlighted line loses its first characters: spans that end before the
/// first one that is shown are left out, and the one that it is in is cut.
pub proof fn law_spans_are_cut_at_the_shift(s: SpanView, rest: Seq<SpanView>, k: int, base: Style)
    requires
        k >= 0,
    ensures
        clipped(Seq::<SpanView>::empty(), 0, k, base).len() == 0,
        k >= s.text.len() ==> clipped(seq![s] + rest, 0, k, base) == clipped(
            rest,
            0,
            k - s.text.len(),
            base,
        ),
        k < s.text.len() ==> clipped(seq![s] + rest, 0, k, base) == seq![
            StyledView { text: s.text.skip(k), style: over(s, base) },
        ] + clipped(rest, 0, 0, base),
{
    let all = seq![s] + rest;
    assert(all[0] == s);
    if k >= s.text.len() {
        lemma_clipped_shift(s, rest, 0, k - s.text.len(), base);
    } else {
        lemma_clipped_shift(s, rest, 0, 0, base);
    }
}

/// The text of a line is its spans where it is highlighted, else the line itself.
pub proof fn law_bodies_are_spans_or_text(l: DiffLine, hl: Option<Seq<SpanView>>, k: int)
    ensures
        hl matches Some(s) ==> body_view(l, hl, k) == clipped(s, 0, k, body_style(l.kind)),
        hl is None ==> body_view(l, hl, k) == seq![
            StyledView { text: from_char(l.text@, k), style: body_style(l.kind) },
        ],
{
}

/// Over the full width a line has both its numbers, its sign and its text; the ground of a
/// change goes on to the edge. Headers and remarks stand by themselves.
pub proof fn law_lines_over_the_full_width(
    l: DiffLine,
    hl: Option<Seq<SpanView>>,
    n: int,
    k: int,
    w: int,
)
    requires
        n >= 0,
        w >= 0,
    ensures
        ({
            let v = unified_view(l, hl, n, k, w);
            let gutter = number_text(l.old_no, n) + " "@ + number_text(l.new_no, n) + " "@;
            let lead = seq![
                ink(gutter, Color::DarkGray),
                StyledView { text: sign_text(l.kind), style: sign_style(l.kind) },
            ];
            let body = body_view(l, hl, k);
            let room = if w > gutter.len() {
                w - gutter.len() - 1
            } else {
                0
            };
            let change = l.kind == LineKind::Added || l.kind == LineKind::Removed;
            &&& l.kind == LineKind::Hunk ==> v == seq![bold_ink(from_char(l.text@, k), Color::Cyan)]
            &&& l.kind == LineKind::Meta || l.kind == LineKind::NoNewline ==> v == seq![
                ink(from_char(l.text@, k), Color::DarkGray),
            ]
            &&& l.kind == LineKind::Context || (change && width_of(body) >= room) ==> v == lead
                + body
            &&& change && width_of(body) < room ==> v == lead + body + seq![
                StyledView { text: spaces(room - width_of(body)), style: body_style(l.kind) },
            ]
        }),
{
    let gutter = number_text(l.old_no, n) + " "@ + number_text(l.new_no, n) + " "@;
    let lead = seq![
        ink(gutter, Color::DarkGray),
        StyledView { text: sign_text(l.kind), style: sign_style(l.kind) },
    ];
    let body = body_view(l, hl, k);
    let room = if w > gutter.len() {
        w - gutter.len() - 1
    } else {
        0
    };
    let change = l.kind == LineKind::Added || l.kind == LineKind::Removed;
    if change && width_of(body) < room {
        let s = StyledView { text: spaces(room - width_of(body)), style: body_style(l.kind) };
        assert(unified_view(l, hl, n, k, w) =~= lead + body + seq![s]);
    }
}

/// Side by side a line has the number of its side, its sign and its text, cut or filled up to
/// the width of the side; where there is no line, the side is blank.
pub proof fn law_lines_side_by_side(
    l: DiffLine,
    hl: Option<Seq<SpanView>>,
    old: bool,
    n: int,
    k: int,
    w: int,
)
    ensures
        cell_view(None, hl, old, n, k, w) == seq![bare(spaces(w))],
        cell_view(Some(l), hl, old, n, k, w) == fitted(
            seq![
                ink(
                    number_text(
                        if old {
                            l.old_no
                        } else {
                            l.new_no
                        },
                        n,
                    ) + " "@,
                    Color::DarkGray,
                ),
                StyledView { text: sign_text(l.kind), style: sign_style(l.kind) },
            ] + body_view(l, hl, k),
            0,
            w,
            body_style(l.kind),
        ),
{
}

// ---------------------------------------------------------------------------------------
// Columns

/// A printable ASCII character takes one column; of others it is as the terminal has it.
pub proof fn law_plain_characters_take_one_column(s: Seq<char>, c: char)
    ensures
        ' ' <= c <= '~' ==> columns(c) == 1,
        !(' ' <= c <= '~') ==> columns(c) == span_width(seq![c]),
        text_columns(Seq::<char>::empty()) == 0,
        text_columns(s.push(c)) == text_columns(s) + columns(c),
{
    assert(s.push(c).drop_last() =~= s);
}

proof fn lemma_fits(s: Seq<char>, i: int, room: int)
    requires
        0 <= i <= s.len(),
        0 <= room,
    ensures
        ({
            let n = fits_to(s, i, room);
            &&& i <= n <= s.len()
            &&& text_columns(s.take(n)) <= text_columns(s.take(i)) + room
            &&& n < s.len() ==> text_columns(s.take(n + 1)) > text_columns(s.take(i)) + room
        }),
    decreases s.len() - i,
{
    if i < s.len() {
        assert(s.take(i + 1).drop_last() =~= s.take(i));
        assert(s.take(i + 1).last() == s[i]);
        if columns(s[i]) <= room {
            lemma_fits(s, i + 1, room - columns(s[i]));
        }
    }
}

/// Of a text that does not fit as many characters are shown as do.
pub proof fn law_as_much_is_shown_as_fits(s: Seq<char>, room: int)
    requires
        0 <= room,
    ensures
        ({
            let n = fits_to(s, 0, room);
            &&& 0 <= n <= s.len()
            &&& text_columns(s.take(n)) <= room
            &&& n < s.len() ==> text_columns(s.take(n + 1)) > room
        }),
{
    assert(s.take(0) =~= Seq::<char>::empty());
    lemma_fits(s, 0, room);
}

proof fn lemma_fits_whole(s: Seq<char>, i: int, room: int)
    requires
        0 <= i <= s.len(),
        text_columns(s) <= text_columns(s.take(i)) + room,
        0 <= room,
    ensures
        fits_to(s, i, room) == s.len(),
    decreases s.len() - i,
{
    if i < s.len() {
        assert(s.take(i + 1).drop_last() =~= s.take(i));
        lemma_columns_grow(s, i + 1);
        lemma_fits_whole(s, i + 1, room - columns(s[i]));
    }
}

proof fn lemma_columns_grow(s: Seq<char>, i: int)
    requires
        0 <= i <= s.len(),
    ensures
        text_columns(s.take(i)) <= text_columns(s),
    decreases s.len() - i,
{
    if i < s.len() {
        assert(s.take(i + 1).drop_last() =~= s.take(i));
        lemma_columns_grow(s, i + 1);
    } else {
        assert(s.take(i) =~= s);
    }
}

proof fn lemma_fitted_shift(
    s: StyledView,
    rest: Seq<StyledView>,
    i: int,
    room: int,
    style: Style,
)
    requires
        0 <= i <= rest.len(),
    ensures
        fitted(seq![s] + rest, i + 1, room, style) == fitted(rest, i, room, style),
    decreases rest.len() - i,
{
    let all = seq![s] + rest;
    if room > 0 && i < rest.len() {
        assert(all[i + 1] == rest[i]);
        let n = fits_to(rest[i].text, 0, room);
        lemma_fitted_shift(
            s,
            rest,
            i + 1,
            room - text_columns(rest[i].text.take(n)),
            style,
        );
    }
}

/// A line is shown stretch by stretch as far as there is room: a stretch that fits as it is, the
/// first one that does not cut, with blanks up to the edge, and nothing behind it. Behind a line
/// that fits whole there are blanks.
pub proof fn law_lines_are_cut_at_the_edge(
    s: StyledView,
    rest: Seq<StyledView>,
    room: int,
    style: Style,
)
    requires
        room >= 0,
    ensures
        ({
            let none = Seq::<StyledView>::empty();
            &&& room > 0 ==> fitted(none, 0, room, style) == seq![
                StyledView { text: spaces(room), style },
            ]
            &&& fitted(none, 0, 0, style) == none
            &&& fitted(seq![s] + rest, 0, 0, style) == none
            &&& room > 0 && text_columns(s.text) <= room ==> fitted(seq![s] + rest, 0, room, style)
                == seq![s] + fitted(rest, 0, room - text_columns(s.text), style)
            &&& room > 0 && text_columns(s.text) > room ==> {
                let n = fits_to(s.text, 0, room);
                let free = room - text_columns(s.text.take(n));
                fitted(seq![s] + rest, 0, room, style) == seq![
                    StyledView { text: s.text.take(n), style: s.style },
                ] + (if free > 0 {
                    seq![StyledView { text: spaces(free), style }]
                } else {
                    none
                })
            }
        }),
{
    let all = seq![s] + rest;
    assert(all[0] == s);
    assert(s.text.take(0) =~= Seq::<char>::empty());
    if room > 0 {
        if text_columns(s.text) <= room {
            lemma_fits_whole(s.text, 0, room);
            assert(s.text.take(s.text.len() as int) =~= s.text);
            lemma_fitted_shift(s, rest, 0, room - text_columns(s.text), style);
        } else {
            lemma_fits(s.text, 0, room);
            let n = fits_to(s.text, 0, room);
            if n == s.text.len() {
                assert(s.text.take(n) =~= s.text);
            }
        }
    }
}

// ---------------------------------------------------------------------------------------
// Rows and the panel

/// The spans of line `i`, where it is highlighted.
pub open spec fn spans_of_line(v: DiffView, i: usize) -> Option<Seq<SpanView>> {
    if i < v.highlights@.len() && v.highlights@[i as int] is Some {
        Some(v.highlights@[i as int]->0@.map_values(|s: HlSpan| s@))
    } else {
        None
    }
}

/// One side of a row.
pub open spec fn side(
    v: DiffView,
    l: Seq<DiffLine>,
    i: Option<usize>,
    old: bool,
    n: int,
    w: int,
) -> Seq<StyledView> {
    if i is Some && i->0 < l.len() {
        cell_view(
            Some(l[i->0 as int]),
            spans_of_line(v, i->0),
            old,
            n,
            v.hscroll as int,
            w,
        )
    } else {
        seq![bare(spaces(w))]
    }
}

/// A row of two lines shows the old one on the left and the new one on the right, with a rule
/// between them; of the columns beside the rule the left side has half, rounded down.
pub proof fn law_rows_show_their_lines(v: DiffView, l: Seq<DiffLine>, row: Row, n: int, w: int)
    requires
        w >= 0,
    ensures
        row matches Row::Full(i) ==> if i < l.len() {
            row_view(v, l, row, n, w) == unified_view(
                l[i as int],
                spans_of_line(v, i),
                n,
                v.hscroll as int,
                w,
            )
        } else {
            row_view(v, l, row, n, w).len() == 0
        },
        row matches Row::Pair { left, right } ==> {
            let rest = if w > 0 {
                w - 1
            } else {
                0
            };
            row_view(v, l, row, n, w) == side(v, l, left, true, n, rest / 2) + seq![
                ink("│"@, Color::DarkGray),
            ] + side(v, l, right, false, n, rest - rest / 2)
        },
{
}

/// The panel of the diff: as many rows of the layout in use as fit, from the one on top on, and
/// in the title the path and the place. Without a diff it says so, and of a failed one why.
pub proof fn law_panel_of_the_diff(app: App, r: Panel)
    requires
        call_ensures(diff_panel, (&app,), r),
    ensures
        r@ == diff_view(app),
        r@.focused <==> app.focus == Focus::Diff,
        app.diff is None ==> r@.title == seq![bare(" Diff "@)] && r@.body == (BodyView::Text {
            lines: seq![
                seq![
                    ink(
                        if app.selected_file() is Some {
                            "loading…"@
                        } else {
                            ""@
                        },
                        Color::DarkGray,
                    ),
                ],
            ],
            wrap: false,
        }),
        app.diff is Some && app.diff->0.lines is Err ==> r@.title == seq![bare(" Diff "@)] && r@.body
            == (BodyView::Text {
            lines: seq![seq![ink(app.diff->0.lines->Err_0@, Color::Red)]],
            wrap: true,
        }),
        app.diff is Some && app.diff->0.lines is Ok ==> {
            let v = app.diff->0;
            let l = v.lines->Ok_0@;
            let rows = if side_by_side(app) {
                v.split.rows@
            } else {
                v.unified.rows@
            };
            let line_row = if side_by_side(app) {
                v.split.line_row@
            } else {
                v.unified.line_row@
            };
            let top = if v.scroll < line_row.len() {
                line_row[v.scroll as int] as int
            } else {
                0
            };
            let count = if top >= rows.len() {
                0
            } else if rows.len() - top < app.diff_height {
                rows.len() - top
            } else {
                app.diff_height as int
            };
            &&& r@.body == (BodyView::Text {
                lines: Seq::new(
                    count as nat,
                    |i: int|
                        row_view(
                            v,
                            l,
                            rows[top + i],
                            number_width(l) as int,
                            app.diff_width as int,
                        ),
                ),
                wrap: false,
            })
            &&& v.scroll < usize::MAX ==> r@.title == seq![
                bare(" "@),
                strong(v.path@),
                ink(
                    " "@ + decimal(
                        if l.len() == 0 {
                            0
                        } else {
                            v.scroll as nat + 1
                        },
                    ) + "/"@ + decimal(l.len()) + " "@,
                    Color::DarkGray,
                ),
            ]
        },
{
    if app.diff is Some && app.diff->0.lines is Ok {
        let v = app.diff->0;
        let l = v.lines->Ok_0@;
        let rows = v.layout(app.is_split()).rows@;
        let top = v.top(app.is_split()) as int;
        let shown = crate::ui_diff::visible(rows, top, app.diff_height as int);
        let count = if top >= rows.len() {
            0
        } else if rows.len() - top < app.diff_height {
            rows.len() - top
        } else {
            app.diff_height as int
        };
        let all = Seq::new(
            count as nat,
            |i: int|
                row_view(v, l, rows[top + i], number_width(l) as int, app.diff_width as int),
        );
        assert(shown.map_values(
            |r: Row| row_view(v, l, r, number_width(l) as int, app.diff_width as int),
        ) =~= all);
    }
}

// ---------------------------------------------------------------------------------------
// The status bar

/// What a part of the status bar says, if anything.
pub open spec fn part(says: bool, text: Seq<char>, c: Color) -> Seq<StyledView> {
    if says {
        seq![ink(text, c)]
    } else {
        Seq::empty()
    }
}

/// The status bar: the mode, the workspace that is shown, what herdr failed with, how old the
/// data is, how many panes are outside, and for three seconds a message; at the right the keys.
pub proof fn law_status_bar(
    app: App,
    width: u16,
    data_age: Option<u64>,
    message_age: u64,
    r: Vec<Styled>,
)
    requires
        call_ensures(status_line, (&app, width, data_age, message_age), r),
    ensures
        ({
            let mode = match app.mode {
                Mode::Uncommitted => "uncommitted"@,
                Mode::Unstaged => "unstaged"@,
                Mode::Staged => "staged"@,
                Mode::Branch => "branch"@,
            };
            let scope = match app.scope {
                Scope::All => "all"@,
                Scope::Follow => "follow"@,
                Scope::Here => "here"@,
            };
            let labelled = app.target is Some && app.target->0.label is Some;
            let keys = " m mode  a agent  e edit  ? help  q quit "@;
            let head = seq![
                StyledView {
                    text: " "@ + mode + " "@,
                    style: Style {
                        fg: Some(Color::Black),
                        bg: Some(Color::Cyan),
                        bold: true,
                        italic: false,
                    },
                },
                bare(" "@),
            ] + part(labelled, scope + ": "@ + app.target->0.label->0@ + " "@, Color::Blue) + part(
                app.herdr_error is Some,
                "herdr: "@ + cut_to(app.herdr_error->0@, 60) + " "@,
                Color::Red,
            ) + (if app.loading {
                seq![ink("refreshing… "@, Color::Yellow)]
            } else {
                part(
                    data_age is Some,
                    "updated "@ + decimal(data_age->0 as nat) + "s ago "@,
                    Color::DarkGray,
                )
            }) + part(
                app.non_repo_panes > 0,
                "· "@ + decimal(app.non_repo_panes as nat) + " pane(s) outside git "@,
                Color::DarkGray,
            ) + part(
                message_text(app) is Some && message_age < 3,
                "· "@ + message_text(app)->0 + " "@,
                Color::Yellow,
            );
            let room = width - width_of(head) - keys.len();
            crate::ui::line(r@) == head + seq![
                bare(
                    spaces(
                        if room > 0 {
                            room
                        } else {
                            0
                        },
                    ),
                ),
                ink(keys, Color::DarkGray),
            ]
        }),
{
    if app.herdr_error is Some {
        let e = app.herdr_error->0@;
        assert(crate::ui::cut(e, 60) =~= cut_to(e, 60));
    }
}

// ---------------------------------------------------------------------------------------
// On top of the panels

/// A popup is in the middle of the screen, as large as it is asked to be where that fits.
pub proof fn law_popups_are_centered(screen: Rect, width: u16, height: u16, r: Rect)
    requires
        call_ensures(center, (screen, width, height), r),
    ensures
        r.width == (if width < screen.width {
            width
        } else {
            screen.width
        }),
        r.height == (if height < screen.height {
            height
        } else {
            screen.height
        }),
        r.x == (screen.width - r.width) / 2,
        r.y == (screen.height - r.height) / 2,
{
}

/// The lines of a text, each by itself.
pub open spec fn plain_lines(text: Seq<char>) -> Seq<Seq<StyledView>> {
    Seq::new(lines(text).len(), |i: int| seq![bare(lines(text)[i])])
}

/// A notice shows what failed in its title and why in its body.
pub proof fn law_notices_show_what_failed(n: Notice, r: Panel)
    requires
        call_ensures(notice_panel, (&n,), r),
    ensures
        r@ == (PanelView {
            title: seq![bare(" "@ + n.title@ + " (any key to close) "@)],
            focused: true,
            body: BodyView::Text { lines: plain_lines(n.body@), wrap: true },
        }),
{
    lemma_plain_lines(n.body@);
}

proof fn lemma_plain_lines(text: Seq<char>)
    ensures
        crate::ui_status::styled_lines(text, bare(text).style) == plain_lines(text),
{
    assert(crate::ui_status::styled_lines(text, bare(text).style) =~= plain_lines(text));
}

/// The commit box shows the message, which agents are at work in the repo, and the keys, or that
/// git is running.
pub proof fn law_commit_box_warns_of_agents(c: CommitBox, agents: Vec<String>, r: Panel)
    requires
        call_ensures(commit_panel, (&c, &agents), r),
    ensures
        ({
            let foot = if c.busy {
                "committing…"@
            } else {
                "ctrl-s commit  ctrl-u clear  esc cancel"@
            };
            let warning = if agents@.len() > 0 {
                seq![seq![ink("working here: "@ + join(views(agents@), ", "@), Color::Yellow)]]
            } else {
                Seq::empty()
            };
            r@ == (PanelView {
                title: seq![bare(" commit to "@ + name_of(c.root@) + " "@)],
                focused: true,
                body: BodyView::Text {
                    lines: plain_lines(c.message@) + warning + seq![
                        seq![ink(foot, Color::DarkGray)],
                    ],
                    wrap: true,
                },
            })
        }),
{
    lemma_plain_lines(c.message@);
    assert(views(agents@).len() == agents@.len());
    let foot = if c.busy {
        "committing…"@
    } else {
        "ctrl-s commit  ctrl-u clear  esc cancel"@
    };
    let warning = if agents@.len() > 0 {
        seq![seq![ink("working here: "@ + join(views(agents@), ", "@), Color::Yellow)]]
    } else {
        Seq::empty()
    };
    assert(plain_lines(c.message@) + (warning + seq![seq![ink(foot, Color::DarkGray)]])
        =~= plain_lines(c.message@) + warning + seq![seq![ink(foot, Color::DarkGray)]]);
}

/// The line of the help for some keys.
pub open spec fn help_line(keys: Seq<char>, what: Seq<char>) -> Seq<StyledView> {
    seq![ink(" "@ + padded(keys, 21), Color::Cyan), bare(what)]
}

/// The help lists every key with what it does.
pub proof fn law_help_lists_the_keys(screen: Rect, r: (Rect, Panel))
    requires
        call_ensures(help_panel, (screen,), r),
    ensures
        r.1@ == (PanelView {
            title: seq![bare(" herdiff keys (any key to close) "@)],
            focused: true,
            body: BodyView::Text {
                lines: seq![
                    help_line("tab / l / enter"@, "focus next panel"@),
                    help_line("shift-tab / h / esc"@, "focus previous panel"@),
                    help_line("j k / ↓ ↑"@, "move selection (scroll in diff)"@),
                    help_line("[ ]"@, "previous / next file"@),
                    help_line("J K"@, "scroll diff by line"@),
                    help_line("f b / pgdn pgup"@, "scroll diff by page"@),
                    help_line("ctrl-d ctrl-u"@, "scroll diff half page"@),
                    help_line("g G"@, "diff top / bottom"@),
                    help_line("n N"@, "next / previous hunk"@),
                    help_line("H L"@, "scroll diff horizontally"@),
                    help_line("s"@, "toggle side-by-side / unified"@),
                    help_line("space"@, "stage or unstage the file or the hunk at the top"@),
                    help_line("A R"@, "stage / unstage everything"@),
                    help_line("c C"@, "commit / commit in $EDITOR"@),
                    help_line("m"@, "cycle mode: uncommitted → unstaged → staged → branch"@),
                    help_line("w"@, "switch scope: follow, here, all"@),
                    help_line("r"@, "refresh now"@),
                    help_line("a"@, "focus repo's agent pane in herdr (repeat to cycle)"@),
                    help_line("e"@, "open file in $EDITOR at change"@),
                    help_line("q / ctrl-c"@, "quit"@),
                ],
                wrap: false,
            },
        }),
        r.0.width == (if screen.width > 80 {
            80
        } else {
            screen.width
        }),
        r.0.height == (if screen.height > 24 {
            24
        } else {
            screen.height
        }),
        r.0.x == (screen.width - r.0.width) / 2,
        r.0.y == (screen.height - r.0.height) / 2,
{
    assert(crate::ui_status::key_table().map_values(
        |k: (Seq<char>, Seq<char>)| crate::ui_status::key_view(k),
    ) =~= seq![
        help_line("tab / l / enter"@, "focus next panel"@),
        help_line("shift-tab / h / esc"@, "focus previous panel"@),
        help_line("j k / ↓ ↑"@, "move selection (scroll in diff)"@),
        help_line("[ ]"@, "previous / next file"@),
        help_line("J K"@, "scroll diff by line"@),
        help_line("f b / pgdn pgup"@, "scroll diff by page"@),
        help_line("ctrl-d ctrl-u"@, "scroll diff half page"@),
        help_line("g G"@, "diff top / bottom"@),
        help_line("n N"@, "next / previous hunk"@),
        help_line("H L"@, "scroll diff horizontally"@),
        help_line("s"@, "toggle side-by-side / unified"@),
        help_line("space"@, "stage or unstage the file or the hunk at the top"@),
        help_line("A R"@, "stage / unstage everything"@),
        help_line("c C"@, "commit / commit in $EDITOR"@),
        help_line("m"@, "cycle mode: uncommitted → unstaged → staged → branch"@),
        help_line("w"@, "switch scope: follow, here, all"@),
        help_line("r"@, "refresh now"@),
        help_line("a"@, "focus repo's agent pane in herdr (repeat to cycle)"@),
        help_line("e"@, "open file in $EDITOR at change"@),
        help_line("q / ctrl-c"@, "quit"@),
    ]);
}

/// What is on the screen: the three panels and the status bar in their areas, and on top the
/// help, the commit box and the notice, as far as they are open, in this order. Drawing tells the
/// viewer how large the diff is and where the panels are.
pub proof fn law_screen_shows_the_state(
    app: App,
    screen: Rect,
    areas: Areas,
    data_age: Option<u64>,
    message_age: u64,
    r: Screen,
)
    requires
        shows(app, screen, areas, data_age, message_age, r),
    ensures
        r.areas == areas,
        r.repos@ == repos_view(app, areas.repos.width),
        r.files@ == files_view(app, areas.files.width),
        r.diff@ == diff_view(app),
        crate::ui::line(r.status@) == status_view(
            app,
            areas.status.width,
            data_age,
            message_age,
        ),
        ({
            let help: int = if app.show_help {
                1
            } else {
                0
            };
            let commit: int = if app.commit is Some {
                1
            } else {
                0
            };
            let notice: int = if app.notice is Some {
                1
            } else {
                0
            };
            let p = r.popups@;
            &&& p.len() == help + commit + notice
            &&& app.show_help ==> {
                &&& p[0].padding == 1
                &&& p[0].panel@ == crate::ui_status::help_view()
                &&& p[0].area == crate::ui_status::centered(screen, 80, 24)
            }
            &&& app.commit matches Some(c) ==> {
                &&& p[help].padding == 0
                &&& p[help].area == crate::ui_status::centered(screen, 72, 12)
                &&& p[help].panel@ == crate::ui_status::commit_view(
                    c,
                    if app.repo_idx < app.groups@.len() {
                        crate::app::working(app.groups@[app.repo_idx as int].panes@)
                    } else {
                        Seq::empty()
                    },
                )
            }
            &&& app.notice matches Some(n) ==> {
                &&& p[help + commit].padding == 0
                &&& p[help + commit].area == crate::ui_status::centered(screen, 80, 16)
                &&& p[help + commit].panel@ == crate::ui_status::notice_view(n)
            }
        }),
{
    let pv = crate::screen::popup_views(r.popups@);
    assert(pv.len() == r.popups@.len());
    assert forall|i: int| 0 <= i < r.popups@.len() implies #[trigger] pv[i]
        == crate::screen::popup_view(r.popups@[i]) by {}
    let h = crate::screen::help_popup(app, screen);
    let c = crate::screen::commit_popup(app, screen);
    let n = crate::screen::notice_popup(app, screen);
    assert(pv == h + c + n);
    assert(crate::ui_status::key_table().len() == 20);
    if app.show_help {
        assert(pv[0] == h[0]);
    }
    if app.commit is Some {
        assert(pv[h.len() as int] == c[0]);
    }
    if app.notice is Some {
        assert(pv[(h.len() + c.len()) as int] == n[0]);
    }
}

/// Drawing tells the viewer the size of the diff inside its border and where the panels are, and
/// changes nothing else.
pub proof fn law_drawing_measures_the_diff(app: App, a: Areas)
    ensures
        ({
            let f = framed(app, a);
            &&& f.diff_height == (if a.diff.height > 2 {
                a.diff.height - 2
            } else {
                0
            })
            &&& f.diff_width == (if a.diff.width > 2 {
                a.diff.width - 2
            } else {
                0
            })
            &&& f.hit.repos == a.repos && f.hit.files == a.files && f.hit.diff == a.diff
            &&& f.hit.repos_offset == app.hit.repos_offset
            &&& f.hit.files_offset == app.hit.files_offset
            &&& f == (App {
                diff_height: f.diff_height,
                diff_width: f.diff_width,
                hit: f.hit,
                ..app
            })
        }),
{
}

} // verus!
