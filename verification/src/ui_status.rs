//! The status bar and what opens on top of the panels.

use vstd::prelude::*;
use vstd::string::*;

use crate::app::{App, CommitBox, Notice};
use crate::input::Rect;
use crate::model::{name_of, repo_name};
use crate::text::{
    blank, chars_of, decimal, decimal_of, join, joined, lines, lines_of, pad, padded, spaces, views,
};
use crate::ui::{
    bold, cut, fg, fg_style, less, line, line_width, one, plain, plain_style, put, st, text_lines,
    truncate, width_of, Body, BodyView, Color, Panel, PanelView, Style, Styled, StyledView,
};

verus! {

/// Seconds that a message is shown for.
pub const MESSAGE_SECS: u64 = 3;

/// The keys that the status bar names.
pub open spec fn hint() -> Seq<char> {
    " m mode  a agent  e edit  ? help  q quit "@
}

/// The mode.
pub open spec fn mode_view(app: App) -> Seq<StyledView> {
    seq![
        st(
            " "@ + app.mode.name() + " "@,
            Style {
                fg: Some(Color::Black),
                bg: Some(Color::Cyan),
                bold: true,
                italic: false,
            },
        ),
        st(" "@, plain_style()),
    ]
}

/// The workspace on screen.
pub open spec fn workspace_view(app: App) -> Seq<StyledView> {
    match app.target {
        Some(t) => match t.label {
            Some(label) => seq![
                st(app.scope.name() + ": "@ + label@ + " "@, fg_style(Color::Blue)),
            ],
            None => Seq::empty(),
        },
        None => Seq::empty(),
    }
}

/// What is wrong with herdr.
pub open spec fn error_view(app: App) -> Seq<StyledView> {
    match app.herdr_error {
        Some(e) => seq![st("herdr: "@ + cut(e@, 60) + " "@, fg_style(Color::Red))],
        None => Seq::empty(),
    }
}

/// How old the data is: `age` seconds, where there is any.
pub open spec fn age_view(app: App, age: Option<u64>) -> Seq<StyledView> {
    if app.loading {
        seq![st("refreshing… "@, fg_style(Color::Yellow))]
    } else {
        match age {
            Some(n) => seq![
                st("updated "@ + decimal(n as nat) + "s ago "@, fg_style(Color::DarkGray)),
            ],
            None => Seq::empty(),
        }
    }
}

/// How many panes are in no repo.
pub open spec fn outside_view(app: App) -> Seq<StyledView> {
    if app.non_repo_panes > 0 {
        seq![
            st(
                "· "@ + decimal(app.non_repo_panes as nat) + " pane(s) outside git "@,
                fg_style(Color::DarkGray),
            ),
        ]
    } else {
        Seq::empty()
    }
}

/// The message, `age` seconds old, while it is shown.
pub open spec fn flash_view(app: App, age: u64) -> Seq<StyledView> {
    match app.message {
        Some(m) if age < MESSAGE_SECS => seq![
            st("· "@ + m.0@ + " "@, fg_style(Color::Yellow)),
        ],
        _ => Seq::empty(),
    }
}

/// The status bar up to the hint.
pub open spec fn status_head(app: App, data_age: Option<u64>, message_age: u64) -> Seq<StyledView> {
    mode_view(app) + workspace_view(app) + error_view(app) + age_view(app, data_age) + outside_view(
        app,
    ) + flash_view(app, message_age)
}

/// The status bar, `width` wide: the state on the left, the hint on the right.
pub open spec fn status_view(app: App, width: u16, data_age: Option<u64>, message_age: u64) -> Seq<
    StyledView,
> {
    let head = status_head(app, data_age, message_age);
    head + seq![
        st(
            spaces(less(width as int, width_of(head) as int + hint().len() as int)),
            plain_style(),
        ),
        st(hint(), fg_style(Color::DarkGray)),
    ]
}

fn put_mode(out: &mut Vec<Styled>, app: &App)
    ensures
        line(final(out)@) == line(old(out)@) + mode_view(*app),
{
    let ghost start = line(out@);
    let mut chip = " ".to_owned();
    chip.append(app.mode.label());
    chip.append(" ");
    put(
        out,
        chip,
        Style { fg: Some(Color::Black), bg: Some(Color::Cyan), bold: true, italic: false },
    );
    put(out, " ".to_owned(), plain());
    assert(line(out@) =~= start + mode_view(*app));
}

fn put_workspace(out: &mut Vec<Styled>, app: &App)
    ensures
        line(final(out)@) == line(old(out)@) + workspace_view(*app),
{
    let ghost start = line(out@);
    if let Some(t) = &app.target {
        if let Some(label) = &t.label {
            let mut s = app.scope.label().to_owned();
            s.append(": ");
            s.append(label.as_str());
            s.append(" ");
            put(out, s, fg(Color::Blue));
        }
    }
    assert(line(out@) =~= start + workspace_view(*app));
}

fn put_error(out: &mut Vec<Styled>, app: &App)
    ensures
        line(final(out)@) == line(old(out)@) + error_view(*app),
{
    let ghost start = line(out@);
    if let Some(e) = &app.herdr_error {
        let mut s = "herdr: ".to_owned();
        s.append(truncate(e.as_str(), 60).as_str());
        s.append(" ");
        put(out, s, fg(Color::Red));
    }
    assert(line(out@) =~= start + error_view(*app));
}

fn put_age(out: &mut Vec<Styled>, app: &App, age: Option<u64>)
    ensures
        line(final(out)@) == line(old(out)@) + age_view(*app, age),
{
    let ghost start = line(out@);
    if app.loading {
        put(out, "refreshing… ".to_owned(), fg(Color::Yellow));
    } else if let Some(n) = age {
        let mut s = "updated ".to_owned();
        s.append(decimal_of(n).as_str());
        s.append("s ago ");
        put(out, s, fg(Color::DarkGray));
    }
    assert(line(out@) =~= start + age_view(*app, age));
}

fn put_outside(out: &mut Vec<Styled>, app: &App)
    ensures
        line(final(out)@) == line(old(out)@) + outside_view(*app),
{
    let ghost start = line(out@);
    if app.non_repo_panes > 0 {
        let mut s = "· ".to_owned();
        s.append(decimal_of(app.non_repo_panes as u64).as_str());
        s.append(" pane(s) outside git ");
        put(out, s, fg(Color::DarkGray));
    }
    assert(line(out@) =~= start + outside_view(*app));
}

fn put_flash(out: &mut Vec<Styled>, app: &App, age: u64)
    ensures
        line(final(out)@) == line(old(out)@) + flash_view(*app, age),
{
    let ghost start = line(out@);
    if let Some(m) = &app.message {
        if age < MESSAGE_SECS {
            let mut s = "· ".to_owned();
            s.append(m.0.as_str());
            s.append(" ");
            put(out, s, fg(Color::Yellow));
        }
    }
    assert(line(out@) =~= start + flash_view(*app, age));
}

/// The status bar, `width` wide. `data_age` is the age of the data and `message_age` that of
/// the message, in seconds.
pub fn status_line(app: &App, width: u16, data_age: Option<u64>, message_age: u64) -> (r: Vec<
    Styled,
>)
    ensures
        line(r@) == status_view(*app, width, data_age, message_age),
{
    let mut out: Vec<Styled> = Vec::new();
    let ghost none = line(out@);
    put_mode(&mut out, app);
    put_workspace(&mut out, app);
    put_error(&mut out, app);
    put_age(&mut out, app, data_age);
    put_outside(&mut out, app);
    put_flash(&mut out, app, message_age);
    let ghost head = line(out@);
    assert(none + mode_view(*app) =~= mode_view(*app));
    assert(head == status_head(*app, data_age, message_age));
    let used: usize = line_width(&out);
    let keys = " m mode  a agent  e edit  ? help  q quit ";
    let keys_len: usize = chars_of(keys).len();
    let w: usize = width as usize;
    let room: usize = if w >= used && w - used >= keys_len {
        w - used - keys_len
    } else {
        0
    };
    put(&mut out, blank(room), plain());
    put(&mut out, keys.to_owned(), fg(Color::DarkGray));
    assert(line(out@) =~= head + seq![
        st(spaces(room as int), plain_style()),
        st(hint(), fg_style(Color::DarkGray)),
    ]);
    out
}

// ---------------------------------------------------------------------------------------
// On top of the panels

/// A rectangle of that size in the middle of the screen, as far as it fits.
pub open spec fn centered(screen: Rect, width: int, height: int) -> Rect {
    let w = if width <= screen.width {
        width
    } else {
        screen.width as int
    };
    let h = if height <= screen.height {
        height
    } else {
        screen.height as int
    };
    Rect {
        x: ((screen.width - w) / 2) as u16,
        y: ((screen.height - h) / 2) as u16,
        width: w as u16,
        height: h as u16,
    }
}

/// A rectangle of that size in the middle of the screen, as far as it fits.
pub fn center(screen: Rect, width: u16, height: u16) -> (r: Rect)
    ensures
        r == centered(screen, width as int, height as int),
        r.width <= screen.width,
        r.height <= screen.height,
{
    let w: u16 = if width <= screen.width {
        width
    } else {
        screen.width
    };
    let h: u16 = if height <= screen.height {
        height
    } else {
        screen.height
    };
    Rect { x: (screen.width - w) / 2, y: (screen.height - h) / 2, width: w, height: h }
}

/// The keys and what they do.
pub open spec fn key_table() -> Seq<(Seq<char>, Seq<char>)> {
    seq![
        ("tab / l / enter"@, "focus next panel"@),
        ("shift-tab / h / esc"@, "focus previous panel"@),
        ("j k / ↓ ↑"@, "move selection (scroll in diff)"@),
        ("[ ]"@, "previous / next file"@),
        ("J K"@, "scroll diff by line"@),
        ("f b / pgdn pgup"@, "scroll diff by page"@),
        ("ctrl-d ctrl-u"@, "scroll diff half page"@),
        ("g G"@, "diff top / bottom"@),
        ("n N"@, "next / previous hunk"@),
        ("H L"@, "scroll diff horizontally"@),
        ("s"@, "toggle side-by-side / unified"@),
        ("space"@, "stage or unstage the file or the hunk at the top"@),
        ("A R"@, "stage / unstage everything"@),
        ("c C"@, "commit / commit in $EDITOR"@),
        ("m"@, "cycle mode: uncommitted → unstaged → staged → branch"@),
        ("w"@, "switch scope: follow, here, all"@),
        ("r"@, "refresh now"@),
        ("a"@, "focus repo's agent pane in herdr (repeat to cycle)"@),
        ("e"@, "open file in $EDITOR at change"@),
        ("q / ctrl-c"@, "quit"@),
    ]
}

/// The contents of a list of pairs.
pub open spec fn pair_views(v: Seq<(&str, &str)>) -> Seq<(Seq<char>, Seq<char>)> {
    v.map_values(|p: (&str, &str)| (p.0@, p.1@))
}

fn keys() -> (r: Vec<(&'static str, &'static str)>)
    ensures
        pair_views(r@) == key_table(),
{
    let v = vec![
        ("tab / l / enter", "focus next panel"),
        ("shift-tab / h / esc", "focus previous panel"),
        ("j k / ↓ ↑", "move selection (scroll in diff)"),
        ("[ ]", "previous / next file"),
        ("J K", "scroll diff by line"),
        ("f b / pgdn pgup", "scroll diff by page"),
        ("ctrl-d ctrl-u", "scroll diff half page"),
        ("g G", "diff top / bottom"),
        ("n N", "next / previous hunk"),
        ("H L", "scroll diff horizontally"),
        ("s", "toggle side-by-side / unified"),
        ("space", "stage or unstage the file or the hunk at the top"),
        ("A R", "stage / unstage everything"),
        ("c C", "commit / commit in $EDITOR"),
        ("m", "cycle mode: uncommitted → unstaged → staged → branch"),
        ("w", "switch scope: follow, here, all"),
        ("r", "refresh now"),
        ("a", "focus repo's agent pane in herdr (repeat to cycle)"),
        ("e", "open file in $EDITOR at change"),
        ("q / ctrl-c", "quit"),
    ];
    assert(pair_views(v@) =~= key_table());
    v
}

/// The line of a key.
pub open spec fn key_view(k: (Seq<char>, Seq<char>)) -> Seq<StyledView> {
    seq![
        st(" "@ + padded(k.0, 21), fg_style(Color::Cyan)),
        st(k.1, plain_style()),
    ]
}

/// The help.
pub open spec fn help_view() -> PanelView {
    PanelView {
        title: seq![st(" herdiff keys (any key to close) "@, plain_style())],
        focused: true,
        body: BodyView::Text {
            lines: key_table().map_values(|k: (Seq<char>, Seq<char>)| key_view(k)),
            wrap: false,
        },
    }
}

/// The help, and where it goes on a screen.
pub fn help_panel(screen: Rect) -> (r: (Rect, Panel))
    ensures
        r.0 == centered(screen, 80, key_table().len() as int + 4),
        r.1@ == help_view(),
{
    let table = keys();
    let ghost kt = key_table();
    let ghost all = kt.map_values(|k: (Seq<char>, Seq<char>)| key_view(k));
    let mut out: Vec<Vec<Styled>> = Vec::new();
    let mut i: usize = 0;
    assert(text_lines(out@) =~= all.take(0));
    while i < table.len()
        invariant
            i <= table.len(),
            pair_views(table@) == kt,
            all == kt.map_values(|k: (Seq<char>, Seq<char>)| key_view(k)),
            text_lines(out@) == all.take(i as int),
        decreases table.len() - i,
    {
        let ghost before = out@;
        let (k, d) = table[i];
        assert(kt[i as int] == (k@, d@));
        let mut lead = " ".to_owned();
        lead.append(pad(k, 21).as_str());
        let mut row: Vec<Styled> = Vec::new();
        put(&mut row, lead, fg(Color::Cyan));
        put(&mut row, d.to_owned(), plain());
        assert(line(row@) =~= all[i as int]);
        out.push(row);
        assert(text_lines(out@) =~= text_lines(before).push(all[i as int]));
        assert(text_lines(out@) =~= all.take(i + 1));
        i += 1;
    }
    assert(all.take(i as int) =~= all);
    assert(kt.len() == 20);
    let panel = Panel {
        title: one(" herdiff keys (any key to close) ".to_owned(), plain()),
        focused: true,
        body: Body::Text { lines: out, wrap: false },
    };
    (center(screen, 80, 24), panel)
}

/// The lines of a text in one style.
pub open spec fn styled_lines(text: Seq<char>, style: Style) -> Seq<Seq<StyledView>> {
    lines(text).map_values(|l: Seq<char>| seq![st(l, style)])
}

/// Add the lines of a text.
fn put_lines(out: &mut Vec<Vec<Styled>>, text: &str, style: Style)
    ensures
        text_lines(final(out)@) == text_lines(old(out)@) + styled_lines(text@, style),
{
    let v = chars_of(text);
    let list = lines_of(&v);
    let ghost start = text_lines(out@);
    let ghost all = styled_lines(text@, style);
    let mut i: usize = 0;
    assert(start + all.take(0) =~= start);
    while i < list.len()
        invariant
            i <= list.len(),
            views(list@) == lines(text@),
            all == styled_lines(text@, style),
            text_lines(out@) == start + all.take(i as int),
        decreases list.len() - i,
    {
        let ghost before = out@;
        assert(views(list@)[i as int] == list[i as int]@);
        out.push(one(list[i].clone(), style));
        assert(text_lines(out@) =~= text_lines(before).push(all[i as int]));
        assert(text_lines(out@) =~= start + all.take(i + 1));
        i += 1;
    }
    assert(all.take(i as int) =~= all);
}

/// A notice.
pub open spec fn notice_view(n: Notice) -> PanelView {
    PanelView {
        title: seq![st(" "@ + n.title@ + " (any key to close) "@, plain_style())],
        focused: true,
        body: BodyView::Text { lines: styled_lines(n.body@, plain_style()), wrap: true },
    }
}

/// A notice.
pub fn notice_panel(n: &Notice) -> (r: Panel)
    ensures
        r@ == notice_view(*n),
{
    let mut title = " ".to_owned();
    title.append(n.title.as_str());
    title.append(" (any key to close) ");
    let mut out: Vec<Vec<Styled>> = Vec::new();
    let ghost none = text_lines(out@);
    put_lines(&mut out, n.body.as_str(), plain());
    assert(none =~= Seq::<Seq<StyledView>>::empty());
    assert(text_lines(out@) =~= styled_lines(n.body@, plain_style()));
    Panel { title: one(title, plain()), focused: true, body: Body::Text { lines: out, wrap: true } }
}

/// The last lines of the commit box: a warning where agents are at work, and what can be done.
pub open spec fn commit_foot(c: CommitBox, agents: Seq<Seq<char>>) -> Seq<Seq<StyledView>> {
    (if agents.len() == 0 {
        Seq::empty()
    } else {
        seq![seq![st("working here: "@ + join(agents, ", "@), fg_style(Color::Yellow))]]
    }) + seq![
        seq![
            st(
                if c.busy {
                    "committing…"@
                } else {
                    "ctrl-s commit  ctrl-u clear  esc cancel"@
                },
                fg_style(Color::DarkGray),
            ),
        ],
    ]
}

/// The commit box; `agents` are at work in the repo.
pub open spec fn commit_view(c: CommitBox, agents: Seq<Seq<char>>) -> PanelView {
    PanelView {
        title: seq![st(" commit to "@ + name_of(c.root@) + " "@, plain_style())],
        focused: true,
        body: BodyView::Text {
            lines: styled_lines(c.message@, plain_style()) + commit_foot(c, agents),
            wrap: true,
        },
    }
}

/// The commit box; `agents` are at work in the repo.
pub fn commit_panel(c: &CommitBox, agents: &Vec<String>) -> (r: Panel)
    ensures
        r@ == commit_view(*c, views(agents@)),
{
    let mut title = " commit to ".to_owned();
    title.append(repo_name(c.root.as_str()).as_str());
    title.append(" ");
    let mut out: Vec<Vec<Styled>> = Vec::new();
    let ghost none = text_lines(out@);
    assert(none =~= Seq::<Seq<StyledView>>::empty());
    put_lines(&mut out, c.message.as_str(), plain());
    let ghost head = styled_lines(c.message@, plain_style());
    assert(text_lines(out@) =~= head);
    if agents.len() > 0 {
        let ghost before = out@;
        let mut s = "working here: ".to_owned();
        s.append(joined(agents, ", ").as_str());
        out.push(one(s, fg(Color::Yellow)));
        assert(text_lines(out@) =~= text_lines(before).push(
            seq![st(s@, fg_style(Color::Yellow))],
        ));
    }
    let foot = if c.busy {
        "committing…"
    } else {
        "ctrl-s commit  ctrl-u clear  esc cancel"
    };
    let ghost before = out@;
    out.push(one(foot.to_owned(), fg(Color::DarkGray)));
    assert(text_lines(out@) =~= text_lines(before).push(
        seq![st(foot@, fg_style(Color::DarkGray))],
    ));
    assert(text_lines(out@) =~= head + commit_foot(*c, views(agents@)));
    Panel { title: one(title, plain()), focused: true, body: Body::Text { lines: out, wrap: true } }
}

} // verus!
