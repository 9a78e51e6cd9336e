//! What the values behind the library's types are: every part of a thing is part of its value,
//! and a list has the values of its items in their order.

use vstd::prelude::*;
use vstd::string::*;

use crate::app::{HitMap, Saved};
use crate::cli::list_value;
use crate::diff::{kinds, line_views, DiffLine, Row};
use crate::git::{FileChange, Mode, RepoStats, Status};
use crate::git_output::{numstat_views, state_views, status_views, untracked_views};
use crate::git_run::{env_views, str_views};
use crate::herdr::{Client, Message, Snapshot};
use crate::highlight::{
    highlight_views, opt_spans, piece_views, span_views, HlSpan, Piece, DEFAULT_THEME,
};
use crate::input::Rect;
use crate::json::json_text;
use crate::model::{pane_views, PaneRef};
use crate::scope::{Resolver, Scope, SelfPane, Target};
use crate::screen::{popup_view, popup_views, Popup};
use crate::text::{opt_view, views};
use crate::ui::{item_views, line, text_lines, Body, BodyView, Panel, Styled, HIGHLIGHT_SYMBOL};
use crate::ui_status::pair_views;
use crate::worker::{repo_views, Refreshed};

verus! {

/// The value of a line, of a file and of a pane.
pub proof fn law_values_of_lines_files_and_panes(l: DiffLine, f: FileChange, p: PaneRef)
    ensures
        l@.kind == l.kind,
        l@.old_no == l.old_no,
        l@.new_no == l.new_no,
        l@.text == l.text@,
        f@.path == f.path@,
        f@.status == f.status,
        f@.added == f.added,
        f@.removed == f.removed,
        f@.index == f.index,
        f@.worktree == f.worktree,
        p@.pane_id == p.pane_id@,
        p@.workspace == p.workspace@,
        p@.tab == p.tab@,
        p@.agent == opt_view(p.agent),
        p@.status == opt_view(p.status),
        p@.title == p.title@,
        p@.focused == p.focused,
{
}

/// The value of styled text.
pub proof fn law_values_of_styled_text(s: HlSpan, q: Piece, t: Styled)
    ensures
        s@.fg == s.fg,
        s@.bold == s.bold,
        s@.italic == s.italic,
        s@.text == s.text@,
        q@.r == q.r,
        q@.g == q.g,
        q@.b == q.b,
        q@.a == q.a,
        q@.bold == q.bold,
        q@.italic == q.italic,
        q@.text == q.text@,
        t@.text == t.text@,
        t@.style == t.style,
{
}

/// The value of a panel and of a popup.
pub proof fn law_values_of_panels(p: Panel, b: Popup)
    ensures
        p@.title == line(p.title@),
        p@.focused == p.focused,
        p.body matches Body::Text { lines, wrap } ==> p@.body == (BodyView::Text {
            lines: text_lines(lines@),
            wrap,
        }),
        p.body matches Body::List { items, selected } ==> p@.body == (BodyView::List {
            items: item_views(items@),
            selected,
        }),
        popup_view(b).area == b.area,
        popup_view(b).padding == b.padding,
        popup_view(b).panel == b.panel@,
{
}

/// The value of a message of herdr, and of what may be missing.
pub proof fn law_values_of_messages(m: Message, s: Option<String>)
    ensures
        m@.error == opt_view(m.error),
        m@.id == opt_view(m.id),
        m@.result == m.result,
        s is None ==> opt_view(s) is None,
        s matches Some(t) ==> opt_view(s) == Some(t@),
{
}

/// The values of lists of texts, lines and styled texts.
pub proof fn law_values_of_lists(
    a: Seq<String>,
    b: Seq<DiffLine>,
    c: Seq<Styled>,
    d: Seq<Vec<Styled>>,
    e: Seq<Vec<Vec<Styled>>>,
    f: Seq<HlSpan>,
    g: Seq<Piece>,
    h: Seq<PaneRef>,
    k: Seq<Popup>,
    i: int,
)
    ensures
        views(a).len() == a.len(),
        0 <= i < a.len() ==> views(a)[i] == a[i]@,
        line_views(b).len() == b.len() && kinds(b).len() == b.len(),
        0 <= i < b.len() ==> line_views(b)[i] == b[i]@ && kinds(b)[i] == b[i].kind,
        line(c).len() == c.len(),
        0 <= i < c.len() ==> line(c)[i] == c[i]@,
        text_lines(d).len() == d.len(),
        0 <= i < d.len() ==> text_lines(d)[i] == line(d[i]@),
        item_views(e).len() == e.len(),
        0 <= i < e.len() ==> item_views(e)[i] == text_lines(e[i]@),
        span_views(f).len() == f.len(),
        0 <= i < f.len() ==> span_views(f)[i] == f[i]@,
        piece_views(g).len() == g.len(),
        0 <= i < g.len() ==> piece_views(g)[i] == g[i]@,
        pane_views(h).len() == h.len(),
        0 <= i < h.len() ==> pane_views(h)[i] == h[i]@,
        popup_views(k).len() == k.len(),
        0 <= i < k.len() ==> popup_views(k)[i] == popup_view(k[i]),
{
}

/// The values of lists of pairs and of what git's answers hold.
pub proof fn law_values_of_pairs(
    a: Seq<(Status, String)>,
    b: Seq<(Option<u32>, Option<u32>, String)>,
    c: Seq<(char, char, String)>,
    d: Seq<(String, Option<u32>)>,
    e: Seq<(String, String)>,
    f: Seq<(String, Vec<PaneRef>)>,
    g: Seq<&str>,
    h: Seq<(&str, &str)>,
    i: int,
)
    ensures
        status_views(a).len() == a.len(),
        0 <= i < a.len() ==> status_views(a)[i].0 == a[i].0 && status_views(a)[i].1 == a[i].1@,
        numstat_views(b).len() == b.len(),
        0 <= i < b.len() ==> {
            let v = numstat_views(b)[i];
            v.0 == b[i].0 && v.1 == b[i].1 && v.2 == b[i].2@
        },
        state_views(c).len() == c.len(),
        0 <= i < c.len() ==> {
            let v = state_views(c)[i];
            v.0 == c[i].0 && v.1 == c[i].1 && v.2 == c[i].2@
        },
        untracked_views(d).len() == d.len(),
        0 <= i < d.len() ==> {
            let v = untracked_views(d)[i];
            v.0 == d[i].0@ && v.1 == d[i].1
        },
        env_views(e).len() == e.len(),
        0 <= i < e.len() ==> {
            let v = env_views(e)[i];
            v.0 == e[i].0@ && v.1 == e[i].1@
        },
        repo_views(f).len() == f.len(),
        0 <= i < f.len() ==> {
            let v = repo_views(f)[i];
            v.0 == f[i].0@ && v.1 == pane_views(f[i].1@)
        },
        str_views(g).len() == g.len(),
        0 <= i < g.len() ==> str_views(g)[i] == g[i]@,
        pair_views(h).len() == h.len(),
        0 <= i < h.len() ==> {
            let v = pair_views(h)[i];
            v.0 == h[i].0@ && v.1 == h[i].1@
        },
{
}

/// The values of highlighted lines: none for a line that stays plain.
pub proof fn law_values_of_highlights(v: Seq<Option<Vec<HlSpan>>>, i: int)
    ensures
        highlight_views(v).len() == v.len(),
        0 <= i < v.len() ==> highlight_views(v)[i] == opt_spans(v[i]),
        0 <= i < v.len() && v[i] is None ==> opt_spans(v[i]) is None,
        0 <= i < v.len() && v[i] is Some ==> opt_spans(v[i]) == Some(span_views(v[i]->0@)),
{
}

/// What is there by default: nothing.
pub proof fn law_defaults_are_empty(
    snap: Snapshot,
    me: SelfPane,
    res: Resolver,
    stats: RepoStats,
    hit: HitMap,
    area: Rect,
)
    requires
        call_ensures(Snapshot::default, (), snap),
        call_ensures(SelfPane::default, (), me),
        call_ensures(Resolver::default, (), res),
        call_ensures(RepoStats::default, (), stats),
        call_ensures(HitMap::default, (), hit),
        call_ensures(Rect::default, (), area),
    ensures
        snap.panes@.len() == 0 && snap.tabs@.len() == 0 && snap.workspaces@.len() == 0,
        snap.focused_pane_id is None && snap.focused_workspace_id is None,
        me.pane_id is None && me.workspace_id is None,
        res.followed is None && res.last is None,
        stats.files@.len() == 0 && stats.staged == 0,
        stats.branch@.len() == 0 && stats.base@.len() == 0,
        area.x == 0 && area.y == 0 && area.width == 0 && area.height == 0,
        hit.repos == area && hit.files == area && hit.diff == area,
        hit.repos_offset == 0 && hit.files_offset == 0,
{
}

/// The list as a value of JSON is the text of the list.
pub proof fn law_list_values_hold_the_list(
    r: Refreshed,
    mode: Mode,
    scope: Scope,
    v: serde_json::Value,
)
    requires
        call_ensures(list_value, (&r, mode, scope), v),
    ensures
        json_text(v) == crate::cli::list_json_text(r, mode, scope),
{
}

/// The theme and the mark of the selection that are used by default.
pub proof fn law_default_looks()
    ensures
        DEFAULT_THEME@ == "Monokai Extended"@,
        HIGHLIGHT_SYMBOL@ == "▌"@,
{
}

/// A copy is the same as what it was made from.
pub proof fn law_copies_are_the_same(
    f: FileChange,
    g: FileChange,
    p: PaneRef,
    q: PaneRef,
    t: Target,
    u: Target,
    c: Client,
    d: Client,
    s: Saved,
    r: Saved,
)
    requires
        call_ensures(FileChange::clone, (&f,), g),
        call_ensures(PaneRef::clone, (&p,), q),
        call_ensures(Target::clone, (&t,), u),
        call_ensures(Client::clone, (&c,), d),
        call_ensures(Saved::clone, (&s,), r),
    ensures
        g == f,
        q == p,
        u == t,
        d == c,
        r == s,
{
}

/// The line that stands for a row is the old one where there is one, else the new one.
pub proof fn law_anchors_are_on_their_row(row: Row, r: usize)
    requires
        call_ensures(Row::anchor, (&row,), r),
    ensures
        row matches Row::Full(k) ==> r == k,
        row matches Row::Pair { left, right } ==> {
            &&& left is Some ==> r == left->0
            &&& left is None && right is Some ==> r == right->0
        },
{
}

} // verus!
