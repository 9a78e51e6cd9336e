//! What is on the screen. Everything but the painting: which text stands where and in which
//! style.

use vstd::prelude::*;
use vstd::string::*;

use crate::app::{App, Focus};
use crate::git::{added_lines, removed_lines, FileChange, RepoStats, Status};
use crate::input::Rect;
use crate::model::{urgent, PaneRef, RepoGroup};
pub use crate::screen::draw;
use crate::text::{char_count, chars_of, decimal, decimal_of, pad, padded, same_text, text_of};

verus! {

// ---------------------------------------------------------------------------------------
// Styled text

#[derive(Debug, Clone, Copy, PartialEq, Eq, Structural)]
pub enum Color {
    /// The terminal's own.
    Reset,
    Black,
    Red,
    Green,
    Yellow,
    Blue,
    Magenta,
    Cyan,
    DarkGray,
    Rgb(u8, u8, u8),
    Indexed(u8),
}

#[derive(Debug, Clone, Copy, PartialEq, Eq, Structural)]
pub struct Style {
    pub fg: Option<Color>,
    pub bg: Option<Color>,
    pub bold: bool,
    pub italic: bool,
}

/// A stretch of text in one style.
#[derive(Debug)]
pub struct Styled {
    pub text: String,
    pub style: Style,
}

/// A stretch of text in one style, as a value.
pub struct StyledView {
    pub text: Seq<char>,
    pub style: Style,
}

impl View for Styled {
    type V = StyledView;

    open spec fn view(&self) -> StyledView {
        StyledView { text: self.text@, style: self.style }
    }
}

/// A line as a value.
pub open spec fn line(v: Seq<Styled>) -> Seq<StyledView> {
    v.map_values(|s: Styled| s@)
}

/// A list of lines as a value.
pub open spec fn text_lines(v: Seq<Vec<Styled>>) -> Seq<Seq<StyledView>> {
    v.map_values(|l: Vec<Styled>| line(l@))
}

/// Text in a style.
pub open spec fn st(text: Seq<char>, style: Style) -> StyledView {
    StyledView { text, style }
}

/// The style without anything.
pub open spec fn plain_style() -> Style {
    Style { fg: None, bg: None, bold: false, italic: false }
}

/// A style with a color.
pub open spec fn fg_style(c: Color) -> Style {
    Style { fg: Some(c), bg: None, bold: false, italic: false }
}

/// A bold style with a color.
pub open spec fn bold_fg_style(c: Color) -> Style {
    Style { fg: Some(c), bg: None, bold: true, italic: false }
}

/// The bold style.
pub open spec fn bold_style() -> Style {
    Style { fg: None, bg: None, bold: true, italic: false }
}

pub(crate) fn plain() -> (r: Style)
    ensures
        r == plain_style(),
{
    Style { fg: None, bg: None, bold: false, italic: false }
}

pub(crate) fn fg(c: Color) -> (r: Style)
    ensures
        r == fg_style(c),
{
    Style { fg: Some(c), bg: None, bold: false, italic: false }
}

pub(crate) fn bold_fg(c: Color) -> (r: Style)
    ensures
        r == bold_fg_style(c),
{
    Style { fg: Some(c), bg: None, bold: true, italic: false }
}

pub(crate) fn bold() -> (r: Style)
    ensures
        r == bold_style(),
{
    Style { fg: None, bg: None, bold: true, italic: false }
}

/// Add a stretch to a line.
pub(crate) fn put(out: &mut Vec<Styled>, text: String, style: Style)
    ensures
        line(final(out)@) == line(old(out)@).push(st(text@, style)),
{
    let ghost before = out@;
    out.push(Styled { text, style });
    assert(line(out@) =~= line(before).push(st(text@, style)));
}

/// Colors of added lines.
pub open spec fn add_bg() -> Color {
    Color::Rgb(18, 46, 28)
}

/// Colors of removed lines.
pub open spec fn del_bg() -> Color {
    Color::Rgb(58, 22, 26)
}

/// `s`, cut to `max` characters with an ellipsis at the end.
pub open spec fn cut(s: Seq<char>, max: int) -> Seq<char> {
    if s.len() <= max {
        s
    } else {
        s.take(if max > 0 { max - 1 } else { 0 }).push('…')
    }
}

/// `s`, cut to `max` characters with an ellipsis at the start: the end of a path, the file
/// name, matters most.
pub open spec fn cut_left(s: Seq<char>, max: int) -> Seq<char> {
    if s.len() <= max {
        s
    } else {
        seq!['…'] + s.skip(s.len() - (if max > 0 { max - 1 } else { 0 }))
    }
}

pub fn truncate(s: &str, max: usize) -> (r: String)
    ensures
        r@ == cut(s@, max as int),
{
    let v = chars_of(s);
    if v.len() <= max {
        return s.to_owned();
    }
    let n: usize = if max > 0 { max - 1 } else { 0 };
    let mut out = text_of(&v, 0, n);
    assert(out@ =~= s@.take(n as int));
    out.push('…');
    out
}

/// Keep the end of a path (the file name matters most).
pub fn truncate_left(s: &str, max: usize) -> (r: String)
    ensures
        r@ == cut_left(s@, max as int),
{
    let v = chars_of(s);
    if v.len() <= max {
        return s.to_owned();
    }
    let n: usize = if max > 0 { max - 1 } else { 0 };
    let mut out = String::new();
    out.push('…');
    out.append(text_of(&v, v.len() - n, v.len()).as_str());
    assert(out@ =~= cut_left(s@, max as int));
    out
}

/// A text that is cut takes the room it may take and no more.
pub proof fn law_cut_text_fits(s: Seq<char>, max: int)
    requires
        max > 0,
    ensures
        cut(s, max).len() <= max,
        cut_left(s, max).len() <= max,
        s.len() > max ==> cut(s, max).len() == max && cut_left(s, max).len() == max,
        s.len() <= max ==> cut(s, max) == s && cut_left(s, max) == s,
{
}

/// A text without its first `n` characters.
pub open spec fn from_char(s: Seq<char>, n: int) -> Seq<char> {
    if n >= s.len() {
        Seq::empty()
    } else {
        s.skip(n)
    }
}

/// A text without its first `n` characters.
pub(crate) fn skip_chars(s: &str, n: usize) -> (r: String)
    ensures
        r@ == from_char(s@, n as int),
{
    let v = chars_of(s);
    if n >= v.len() {
        String::new()
    } else {
        let r = text_of(&v, n, v.len());
        assert(r@ =~= s@.skip(n as int));
        r
    }
}

// ---------------------------------------------------------------------------------------
// Layout

/// How much of an area a part of it takes.
#[derive(Debug, Clone, Copy, PartialEq, Eq, Structural)]
pub enum Limit {
    /// That many cells.
    Length(u16),
    /// At least that many cells.
    Min(u16),
    /// That part of the whole, in percent.
    Percentage(u16),
}

/// An area in two parts, one above the other.
pub uninterp spec fn stacked(area: Rect, top: Limit, below: Limit) -> (Rect, Rect);

/// `ratatui::layout::Layout::vertical` and `areas`: the two parts that the constraints give.
/// They depend on the area and the constraints alone.
#[verifier::external_body]
fn stack(area: Rect, top: Limit, below: Limit) -> (r: (Rect, Rect))
    ensures
        r == stacked(area, top, below),
{
    let part = |l: Limit| match l {
        Limit::Length(n) => ratatui::layout::Constraint::Length(n),
        Limit::Min(n) => ratatui::layout::Constraint::Min(n),
        Limit::Percentage(n) => ratatui::layout::Constraint::Percentage(n),
    };
    let rect = |a: ratatui::layout::Rect| Rect { x: a.x, y: a.y, width: a.width, height: a.height };
    let whole = ratatui::layout::Rect { x: area.x, y: area.y, width: area.width, height: area.height };
    let [a, b] = ratatui::layout::Layout::vertical([part(top), part(below)]).areas(whole);
    (rect(a), rect(b))
}

/// An area in two parts, one beside the other.
pub uninterp spec fn abreast(area: Rect, left: Limit, right: Limit) -> (Rect, Rect);

/// `ratatui::layout::Layout::horizontal` and `areas`: the two parts that the constraints give.
/// They depend on the area and the constraints alone.
#[verifier::external_body]
fn align(area: Rect, left: Limit, right: Limit) -> (r: (Rect, Rect))
    ensures
        r == abreast(area, left, right),
{
    let part = |l: Limit| match l {
        Limit::Length(n) => ratatui::layout::Constraint::Length(n),
        Limit::Min(n) => ratatui::layout::Constraint::Min(n),
        Limit::Percentage(n) => ratatui::layout::Constraint::Percentage(n),
    };
    let rect = |a: ratatui::layout::Rect| Rect { x: a.x, y: a.y, width: a.width, height: a.height };
    let whole = ratatui::layout::Rect { x: area.x, y: area.y, width: area.width, height: area.height };
    let [a, b] = ratatui::layout::Layout::horizontal([part(left), part(right)]).areas(whole);
    (rect(a), rect(b))
}

/// Columns from which on the lists stand left of the diff, not above it.
pub const WIDE: u16 = 120;

/// Where the panels are.
#[derive(Debug, Clone, Copy, PartialEq, Eq, Structural)]
pub struct Areas {
    pub repos: Rect,
    pub files: Rect,
    pub diff: Rect,
    pub status: Rect,
}

/// Where the panels are on a screen: the status bar below, and above it the lists and the
/// diff.
pub open spec fn areas_of(screen: Rect) -> Areas {
    let (main, status) = stacked(screen, Limit::Min(3), Limit::Length(1));
    if main.width >= WIDE {
        let (left, diff) = abreast(main, Limit::Length(46), Limit::Min(20));
        let (repos, files) = stacked(left, Limit::Percentage(45), Limit::Min(4));
        Areas { repos, files, diff, status }
    } else {
        let (top, diff) = stacked(main, Limit::Percentage(40), Limit::Min(5));
        let (repos, files) = abreast(top, Limit::Percentage(45), Limit::Min(10));
        Areas { repos, files, diff, status }
    }
}

/// Cells inside a border.
pub open spec fn inner(n: u16) -> int {
    if n >= 2 {
        n - 2
    } else {
        0
    }
}

/// Lay out the screen.
pub fn lay_out(screen: Rect) -> (r: Areas)
    ensures
        r == areas_of(screen),
{
    let (main, status) = stack(screen, Limit::Min(3), Limit::Length(1));
    if main.width >= WIDE {
        let (left, diff) = align(main, Limit::Length(46), Limit::Min(20));
        let (repos, files) = stack(left, Limit::Percentage(45), Limit::Min(4));
        Areas { repos, files, diff, status }
    } else {
        let (top, diff) = stack(main, Limit::Percentage(40), Limit::Min(5));
        let (repos, files) = align(top, Limit::Percentage(45), Limit::Min(10));
        Areas { repos, files, diff, status }
    }
}

// ---------------------------------------------------------------------------------------
// Panels

/// What is inside a panel.
#[derive(Debug)]
pub enum Body {
    Text { lines: Vec<Vec<Styled>>, wrap: bool },
    /// A list of items of one or more lines, one of them selected.
    List { items: Vec<Vec<Vec<Styled>>>, selected: usize },
}

#[derive(Debug)]
pub struct Panel {
    pub title: Vec<Styled>,
    pub focused: bool,
    pub body: Body,
}

/// How the border of a panel is drawn.
#[derive(Debug, Clone, Copy, PartialEq, Eq, Structural)]
pub enum Border {
    Thick,
    Rounded,
}

/// The border of a panel, and its style: that of the panel with the focus stands out.
pub open spec fn border(focused: bool) -> (Border, Style) {
    if focused {
        (Border::Thick, fg_style(Color::Cyan))
    } else {
        (Border::Rounded, fg_style(Color::DarkGray))
    }
}

/// The border of a panel, and its style.
pub fn block(focused: bool) -> (r: (Border, Style))
    ensures
        r == border(focused),
{
    if focused {
        (Border::Thick, fg(Color::Cyan))
    } else {
        (Border::Rounded, fg(Color::DarkGray))
    }
}

/// The style of the selected item of a list.
pub open spec fn selection_style(focused: bool) -> Style {
    Style {
        fg: None,
        bg: Some(
            if focused {
                Color::Rgb(40, 44, 60)
            } else {
                Color::Rgb(30, 30, 36)
            },
        ),
        bold: false,
        italic: false,
    }
}

/// The style of the selected item of a list.
pub fn highlight(focused: bool) -> (r: Style)
    ensures
        r == selection_style(focused),
{
    let bg = if focused {
        Color::Rgb(40, 44, 60)
    } else {
        Color::Rgb(30, 30, 36)
    };
    Style { fg: None, bg: Some(bg), bold: false, italic: false }
}

/// What marks the selected item of a list.
pub const HIGHLIGHT_SYMBOL: &'static str = "▌";

/// What is inside a panel, as a value.
pub enum BodyView {
    Text { lines: Seq<Seq<StyledView>>, wrap: bool },
    List { items: Seq<Seq<Seq<StyledView>>>, selected: usize },
}

/// A panel as a value.
pub struct PanelView {
    pub title: Seq<StyledView>,
    pub focused: bool,
    pub body: BodyView,
}

/// A list of items as a value.
pub open spec fn item_views(v: Seq<Vec<Vec<Styled>>>) -> Seq<Seq<Seq<StyledView>>> {
    v.map_values(|i: Vec<Vec<Styled>>| text_lines(i@))
}

impl View for Body {
    type V = BodyView;

    open spec fn view(&self) -> BodyView {
        match *self {
            Body::Text { lines, wrap } => BodyView::Text { lines: text_lines(lines@), wrap },
            Body::List { items, selected } => BodyView::List {
                items: item_views(items@),
                selected,
            },
        }
    }
}

impl View for Panel {
    type V = PanelView;

    open spec fn view(&self) -> PanelView {
        PanelView { title: line(self.title@), focused: self.focused, body: self.body@ }
    }
}

/// A panel with one line of text in one style.
pub open spec fn message_view(
    title: Seq<char>,
    focused: bool,
    text: Seq<char>,
    style: Style,
    wrap: bool,
) -> PanelView {
    PanelView {
        title: seq![st(title, plain_style())],
        focused,
        body: BodyView::Text { lines: seq![seq![st(text, style)]], wrap },
    }
}

/// A line of one stretch.
pub(crate) fn one(text: String, style: Style) -> (r: Vec<Styled>)
    ensures
        line(r@) == seq![st(text@, style)],
{
    let mut v: Vec<Styled> = Vec::new();
    v.push(Styled { text, style });
    assert(line(v@) =~= seq![st(text@, style)]);
    v
}

pub(crate) fn message_panel(title: String, focused: bool, text: String, style: Style, wrap: bool) -> (r: Panel)
    ensures
        r@ == message_view(title@, focused, text@, style, wrap),
{
    let mut lines: Vec<Vec<Styled>> = Vec::new();
    lines.push(one(text, style));
    assert(text_lines(lines@) =~= seq![seq![st(text@, style)]]);
    Panel { title: one(title, plain()), focused, body: Body::Text { lines, wrap } }
}

// ---------------------------------------------------------------------------------------
// Repos

/// The icon of an agent state.
pub open spec fn state_icon(status: Seq<char>) -> char {
    if status == "working"@ {
        '●'
    } else if status == "blocked"@ {
        '▲'
    } else if status == "done"@ {
        '✓'
    } else if status == "idle"@ {
        '○'
    } else {
        '·'
    }
}

/// The style of an agent state.
pub open spec fn state_style(status: Seq<char>) -> Style {
    if status == "working"@ {
        fg_style(Color::Yellow)
    } else if status == "blocked"@ {
        bold_fg_style(Color::Magenta)
    } else if status == "done"@ {
        fg_style(Color::Green)
    } else if status == "idle"@ {
        fg_style(Color::Blue)
    } else {
        fg_style(Color::DarkGray)
    }
}

fn status_style(status: &str) -> (r: (char, Style))
    ensures
        r.0 == state_icon(status@),
        r.1 == state_style(status@),
{
    if same_text(status, "working") {
        ('●', fg(Color::Yellow))
    } else if same_text(status, "blocked") {
        ('▲', bold_fg(Color::Magenta))
    } else if same_text(status, "done") {
        ('✓', fg(Color::Green))
    } else if same_text(status, "idle") {
        ('○', fg(Color::Blue))
    } else {
        ('·', fg(Color::DarkGray))
    }
}

/// Lines added and removed.
pub open spec fn counts_view(added: Option<u32>, removed: Option<u32>) -> Seq<StyledView> {
    match (added, removed) {
        (Some(a), Some(d)) => seq![
            st("+"@ + decimal(a as nat), fg_style(Color::Green)),
            st(" "@, plain_style()),
            st("-"@ + decimal(d as nat), fg_style(Color::Red)),
        ],
        _ => seq![st("bin"@, fg_style(Color::DarkGray))],
    }
}

/// Add the lines added and removed.
fn put_counts(out: &mut Vec<Styled>, added: Option<u32>, removed: Option<u32>)
    ensures
        line(final(out)@) == line(old(out)@) + counts_view(added, removed),
{
    let ghost start = line(out@);
    match (added, removed) {
        (Some(a), Some(d)) => {
            let mut s = "+".to_owned();
            s.append(decimal_of(a as u64).as_str());
            put(out, s, fg(Color::Green));
            put(out, " ".to_owned(), plain());
            let mut t = "-".to_owned();
            t.append(decimal_of(d as u64).as_str());
            put(out, t, fg(Color::Red));
        },
        _ => {
            put(out, "bin".to_owned(), fg(Color::DarkGray));
        },
    }
    assert(line(out@) =~= start + counts_view(added, removed));
}

/// A text, or none.
pub open spec fn status_text(s: Option<Seq<char>>) -> Seq<char> {
    match s {
        Some(t) => t,
        None => Seq::empty(),
    }
}

/// What stands behind the name of a repo.
pub open spec fn stats_view(stats: Result<RepoStats, String>) -> Seq<StyledView> {
    match stats {
        Ok(s) => seq![st(" "@ + s.branch@ + " "@, fg_style(Color::Magenta))] + (if s.files@.len()
            == 0 {
            seq![st("clean"@, fg_style(Color::DarkGray))]
        } else {
            seq![st(decimal(s.files@.len()) + "f "@, fg_style(Color::DarkGray))] + counts_view(
                Some((added_lines(s.files@) % 0x1_0000_0000) as u32),
                Some((removed_lines(s.files@) % 0x1_0000_0000) as u32),
            )
        }),
        Err(_) => seq![st(" git error"@, fg_style(Color::Red))],
    }
}

/// The first line of a repo.
pub open spec fn head_view(g: RepoGroup) -> Seq<StyledView> {
    let status = status_text(urgent(g.panes@));
    seq![
        st(seq![state_icon(status)] + " "@, state_style(status)),
        st(g.name@, bold_style()),
    ] + stats_view(g.stats)
}

/// Where a pane is and what its title says.
pub open spec fn pane_detail(p: PaneRef) -> Seq<char> {
    let place = p.workspace@ + "/"@ + p.tab@;
    if p.title@.len() == 0 {
        place
    } else {
        place + " · "@ + p.title@
    }
}

/// The line of a pane in a list that is `width` wide.
pub open spec fn pane_view(p: PaneRef, width: int) -> Seq<StyledView> {
    let status = status_text(crate::text::opt_view(p.status));
    let who = match p.agent {
        Some(a) => a@,
        None => "shell"@,
    };
    seq![
        st("  "@, plain_style()),
        st(seq![state_icon(status)] + " "@, state_style(status)),
        st(
            who,
            if p.agent is Some {
                state_style(status)
            } else {
                fg_style(Color::DarkGray)
            },
        ),
        st(" "@, plain_style()),
        st(
            cut(pane_detail(p), less(width, 4 + who.len() as int)),
            fg_style(Color::DarkGray),
        ),
    ]
}

/// What is left of `n` without `m`; nothing where `m` is more.
pub open spec fn less(n: int, m: int) -> int {
    if n >= m {
        n - m
    } else {
        0
    }
}

/// The lines of a repo in a list that is `width` wide.
pub open spec fn repo_item(g: RepoGroup, width: int) -> Seq<Seq<StyledView>> {
    seq![head_view(g)] + g.panes@.map_values(|p: PaneRef| pane_view(p, width))
}

/// What is said where there are no repos.
pub open spec fn no_repos(app: App) -> Seq<char> {
    match app.herdr_error {
        Some(e) => e@,
        None => if app.loading {
            "loading…"@
        } else {
            "no herdr panes inside git repos"@
        },
    }
}

/// The panel of the repos, `width` wide.
pub open spec fn repos_view(app: App, width: u16) -> PanelView {
    let title = " Repos ("@ + decimal(app.groups@.len()) + ") "@;
    let focused = app.focus == Focus::Repos;
    if app.groups@.len() == 0 {
        message_view(title, focused, no_repos(app), fg_style(Color::DarkGray), true)
    } else {
        PanelView {
            title: seq![st(title, plain_style())],
            focused,
            body: BodyView::List {
                items: app.groups@.map_values(
                    |g: RepoGroup| repo_item(g, less(width as int, 4)),
                ),
                selected: app.repo_idx,
            },
        }
    }
}

fn head_line(g: &RepoGroup) -> (r: Vec<Styled>)
    ensures
        line(r@) == head_view(*g),
{
    let status = match g.status() {
        Some(s) => s,
        None => "",
    };
    proof {
        reveal_strlit("");
        assert(status@ =~= status_text(urgent(g.panes@)));
    }
    let (icon, style) = status_style(status);
    let mut out: Vec<Styled> = Vec::new();
    let mut lead = String::new();
    lead.push(icon);
    lead.append(" ");
    assert(lead@ =~= seq![icon] + " "@);
    put(&mut out, lead, style);
    put(&mut out, g.name.clone(), bold());
    match &g.stats {
        Ok(s) => {
            let (a, d) = s.totals();
            let mut b = " ".to_owned();
            b.append(s.branch.as_str());
            b.append(" ");
            put(&mut out, b, fg(Color::Magenta));
            if s.files.len() == 0 {
                put(&mut out, "clean".to_owned(), fg(Color::DarkGray));
            } else {
                let mut n = decimal_of(s.files.len() as u64);
                n.append("f ");
                put(&mut out, n, fg(Color::DarkGray));
                put_counts(&mut out, Some(a), Some(d));
            }
        },
        Err(_) => {
            put(&mut out, " git error".to_owned(), fg(Color::Red));
        },
    }
    assert(line(out@) =~= head_view(*g));
    out
}

fn pane_row(p: &PaneRef, width: usize) -> (r: Vec<Styled>)
    ensures
        line(r@) == pane_view(*p, width as int),
{
    let status = match &p.status {
        Some(s) => s.as_str(),
        None => "",
    };
    proof {
        reveal_strlit("");
        assert(status@ =~= status_text(crate::text::opt_view(p.status)));
    }
    let (icon, style) = status_style(status);
    let who = match &p.agent {
        Some(a) => a.clone(),
        None => "shell".to_owned(),
    };
    let mut detail = p.workspace.clone();
    detail.append("/");
    detail.append(p.tab.as_str());
    if !p.title.as_str().is_empty() {
        detail.append(" · ");
        detail.append(p.title.as_str());
    }
    let who_len: usize = char_count(who.as_str());
    let room: usize = if width >= 4 && width - 4 >= who_len {
        width - 4 - who_len
    } else {
        0
    };
    let mut out: Vec<Styled> = Vec::new();
    put(&mut out, "  ".to_owned(), plain());
    let mut lead = String::new();
    lead.push(icon);
    lead.append(" ");
    assert(lead@ =~= seq![icon] + " "@);
    put(&mut out, lead, style);
    put(
        &mut out,
        who,
        if p.is_agent() {
            style
        } else {
            fg(Color::DarkGray)
        },
    );
    put(&mut out, " ".to_owned(), plain());
    put(&mut out, truncate(detail.as_str(), room), fg(Color::DarkGray));
    assert(line(out@) =~= pane_view(*p, width as int));
    out
}

fn repo_lines(g: &RepoGroup, width: usize) -> (r: Vec<Vec<Styled>>)
    ensures
        text_lines(r@) == repo_item(*g, width as int),
{
    let mut out: Vec<Vec<Styled>> = Vec::new();
    out.push(head_line(g));
    let ghost panes = g.panes@.map_values(|p: PaneRef| pane_view(p, width as int));
    let ghost head = seq![head_view(*g)];
    assert(text_lines(out@) =~= head + panes.take(0));
    let mut i: usize = 0;
    while i < g.panes.len()
        invariant
            i <= g.panes.len(),
            panes == g.panes@.map_values(|p: PaneRef| pane_view(p, width as int)),
            text_lines(out@) == head + panes.take(i as int),
        decreases g.panes.len() - i,
    {
        let ghost before = out@;
        out.push(pane_row(&g.panes[i], width));
        assert(text_lines(out@) =~= text_lines(before).push(panes[i as int]));
        assert(text_lines(out@) =~= head + panes.take(i + 1));
        i += 1;
    }
    assert(panes.take(i as int) =~= panes);
    out
}

/// The panel of the repos, `width` wide.
pub fn repos_panel(app: &App, width: u16) -> (r: Panel)
    ensures
        r@ == repos_view(*app, width),
{
    let focused = app.focus == Focus::Repos;
    let mut title = " Repos (".to_owned();
    title.append(decimal_of(app.groups.len() as u64).as_str());
    title.append(") ");
    if app.groups.len() == 0 {
        let text = match &app.herdr_error {
            Some(e) => e.clone(),
            None => if app.loading {
                "loading…".to_owned()
            } else {
                "no herdr panes inside git repos".to_owned()
            },
        };
        return message_panel(title, focused, text, fg(Color::DarkGray), true);
    }
    let w: usize = width.saturating_sub(4) as usize;
    let ghost all = app.groups@.map_values(|g: RepoGroup| repo_item(g, less(width as int, 4)));
    let mut items: Vec<Vec<Vec<Styled>>> = Vec::new();
    let mut i: usize = 0;
    assert(item_views(items@) =~= all.take(0));
    while i < app.groups.len()
        invariant
            i <= app.groups.len(),
            w == less(width as int, 4),
            all == app.groups@.map_values(|g: RepoGroup| repo_item(g, less(width as int, 4))),
            item_views(items@) == all.take(i as int),
        decreases app.groups.len() - i,
    {
        let ghost before = items@;
        items.push(repo_lines(&app.groups[i], w));
        assert(item_views(items@) =~= item_views(before).push(all[i as int]));
        assert(item_views(items@) =~= all.take(i + 1));
        i += 1;
    }
    assert(all.take(i as int) =~= all);
    Panel {
        title: one(title, plain()),
        focused,
        body: Body::List { items, selected: app.repo_idx },
    }
}

// ---------------------------------------------------------------------------------------
// Files

/// The color of a file status.
pub open spec fn status_color(s: Status) -> Color {
    match s {
        Status::Added => Color::Green,
        Status::Untracked => Color::Green,
        Status::Deleted => Color::Red,
        Status::Modified => Color::Yellow,
        _ => Color::Magenta,
    }
}

/// The size of a change.
pub open spec fn size_view(f: FileChange) -> Seq<StyledView> {
    if f.names_dir() {
        seq![st("repo"@, fg_style(Color::DarkGray))]
    } else {
        counts_view(f.added, f.removed)
    }
}

/// Number of characters of a line.
pub open spec fn width_of(l: Seq<StyledView>) -> nat
    decreases l.len(),
{
    if l.len() == 0 {
        0
    } else {
        width_of(l.drop_last()) + l.last().text.len()
    }
}

/// The line of a file in a list that is `width` wide.
pub open spec fn file_view(f: FileChange, width: int) -> Seq<StyledView> {
    let room = less(width, width_of(size_view(f)) as int + 3);
    seq![
        st(seq![f.status.code()] + " "@, bold_fg_style(status_color(f.status))),
        st(padded(cut_left(f.path@, room), room) + " "@, plain_style()),
    ] + size_view(f)
}

/// The panel of the files, `width` wide.
pub open spec fn files_view(app: App, width: u16) -> PanelView {
    let focused = app.focus == Focus::Files;
    match app.selected_repo() {
        None => PanelView {
            title: seq![st(" Files "@, plain_style())],
            focused,
            body: BodyView::Text { lines: Seq::empty(), wrap: false },
        },
        Some(g) => match g.stats {
            Err(e) => message_view(" Files "@, focused, e@, fg_style(Color::Red), true),
            Ok(s) => {
                let title = " Files ("@ + decimal(s.files@.len()) + ") vs "@ + s.base@ + " "@;
                if s.files@.len() == 0 {
                    message_view(
                        title,
                        focused,
                        "no "@ + app.mode.name() + " changes"@,
                        fg_style(Color::DarkGray),
                        false,
                    )
                } else {
                    PanelView {
                        title: seq![st(title, plain_style())],
                        focused,
                        body: BodyView::List {
                            items: s.files@.map_values(
                                |f: FileChange| seq![file_view(f, less(width as int, 4))],
                            ),
                            selected: app.file_idx,
                        },
                    }
                }
            },
        },
    }
}

/// Number of characters of a line.
pub(crate) fn line_width(l: &Vec<Styled>) -> (r: usize)
    ensures
        r == (if width_of(line(l@)) > usize::MAX {
            usize::MAX as int
        } else {
            width_of(line(l@)) as int
        }),
{
    let ghost all = line(l@);
    let mut n: usize = 0;
    let mut i: usize = 0;
    assert(all.take(0) =~= Seq::<StyledView>::empty());
    while i < l.len()
        invariant
            i <= l.len(),
            all == line(l@),
            n == (if width_of(all.take(i as int)) > usize::MAX {
                usize::MAX as int
            } else {
                width_of(all.take(i as int)) as int
            }),
        decreases l.len() - i,
    {
        assert(all.take(i + 1).drop_last() =~= all.take(i as int));
        assert(all.take(i + 1).last() == l[i as int]@);
        n = n.saturating_add(char_count(l[i].text.as_str()));
        i += 1;
    }
    assert(all.take(i as int) =~= all);
    n
}

fn file_row(f: &FileChange, width: usize) -> (r: Vec<Styled>)
    ensures
        line(r@) == file_view(*f, width as int),
{
    let mut size: Vec<Styled> = Vec::new();
    if f.is_dir() {
        put(&mut size, "repo".to_owned(), fg(Color::DarkGray));
    } else {
        put_counts(&mut size, f.added, f.removed);
    }
    assert(line(size@) =~= size_view(*f));
    let used: usize = line_width(&size);
    let room: usize = if width >= 3 && width - 3 >= used {
        width - 3 - used
    } else {
        0
    };
    let color = match f.status {
        Status::Added | Status::Untracked => Color::Green,
        Status::Deleted => Color::Red,
        Status::Modified => Color::Yellow,
        _ => Color::Magenta,
    };
    let mut out: Vec<Styled> = Vec::new();
    let mut lead = String::new();
    lead.push(f.status.letter());
    lead.append(" ");
    assert(lead@ =~= seq![f.status.code()] + " "@);
    put(&mut out, lead, bold_fg(color));
    let mut path = pad(truncate_left(f.path.as_str(), room).as_str(), room);
    path.append(" ");
    put(&mut out, path, plain());
    let ghost head = line(out@);
    let ghost tail = line(size@);
    out.append(&mut size);
    assert(line(out@) =~= head + tail);
    assert(line(out@) =~= file_view(*f, width as int));
    out
}

/// The panel of the files, `width` wide.
pub fn files_panel(app: &App, width: u16) -> (r: Panel)
    ensures
        r@ == files_view(*app, width),
{
    let focused = app.focus == Focus::Files;
    let g = match app.repo() {
        Some(g) => g,
        None => {
            let lines: Vec<Vec<Styled>> = Vec::new();
            assert(text_lines(lines@) =~= Seq::<Seq<StyledView>>::empty());
            return Panel {
                title: one(" Files ".to_owned(), plain()),
                focused,
                body: Body::Text { lines, wrap: false },
            };
        },
    };
    let s = match &g.stats {
        Ok(s) => s,
        Err(e) => {
            return message_panel(" Files ".to_owned(), focused, e.clone(), fg(Color::Red), true);
        },
    };
    let mut title = " Files (".to_owned();
    title.append(decimal_of(s.files.len() as u64).as_str());
    title.append(") vs ");
    title.append(s.base.as_str());
    title.append(" ");
    if s.files.len() == 0 {
        let mut text = "no ".to_owned();
        text.append(app.mode.label());
        text.append(" changes");
        return message_panel(title, focused, text, fg(Color::DarkGray), false);
    }
    let w: usize = width.saturating_sub(4) as usize;
    let ghost all = s.files@.map_values(
        |f: FileChange| seq![file_view(f, less(width as int, 4))],
    );
    let mut items: Vec<Vec<Vec<Styled>>> = Vec::new();
    let mut i: usize = 0;
    assert(item_views(items@) =~= all.take(0));
    while i < s.files.len()
        invariant
            i <= s.files.len(),
            w == less(width as int, 4),
            all == s.files@.map_values(
                |f: FileChange| seq![file_view(f, less(width as int, 4))],
            ),
            item_views(items@) == all.take(i as int),
        decreases s.files.len() - i,
    {
        let ghost before = items@;
        let mut item: Vec<Vec<Styled>> = Vec::new();
        item.push(file_row(&s.files[i], w));
        assert(text_lines(item@) =~= all[i as int]);
        items.push(item);
        assert(item_views(items@) =~= item_views(before).push(all[i as int]));
        assert(item_views(items@) =~= all.take(i + 1));
        i += 1;
    }
    assert(all.take(i as int) =~= all);
    Panel {
        title: one(title, plain()),
        focused,
        body: Body::List { items, selected: app.file_idx },
    }
}

} // verus!
