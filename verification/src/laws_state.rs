//! What the calls that change the viewer, the resolver and the cache of roots do, and what the
//! calls on texts and panels return.

use vstd::prelude::*;
use vstd::string::*;

use crate::app::{refreshed, write_done, Action, App, DiffView};
use crate::diff::Rows;
use crate::git::{GitError, GitOp, Output};
use crate::git_write::{hunk_patch, input_found, patch_of, write_args, write_argv, write_input};
use crate::herdr::Snapshot;
use crate::input::{KeyCode, KeyEvent, KeyModifiers, MouseEvent, Rect};
use crate::keys::{pasted, pressed};
use crate::laws_model::seen_last;
use crate::model::{
    entries, group_found, group_panes, grouped, groups_of, name_of, repo_name, PaneRef, Topology,
};
use crate::mouse::moused;
use crate::paths::{extension, extension_of, file_name, file_name_of, joined_path, path_join};
use crate::scope::{resolved_to, Resolver, Scope, SelfPane, Target};
use crate::screen::{draw, draw_at, framed, shows, Screen};
use crate::text::{
    align_right, aligned_right, before, blank, char_count, chars_of, comes_before, contains,
    decimal, decimal_of, find_from, has, integer, integer_of, is_space, join, joined, lines,
    lines_of, opt_clone, opt_view, pad, padded, parse_u32, parsed_u32, replace_from, same_opt_text,
    same_text, space, split, split_at, starts_with, text_of, trim, trimmed, views, words, words_of,
};
use crate::ui::{areas_of, files_panel, files_view, repos_panel, repos_view, Areas, Panel};
use crate::worker::{plan_refresh, planned, GitDone, Plan, Refreshed, RootCache};

verus! {

// ---------------------------------------------------------------------------------------
// The viewer

/// A key does to the viewer what the laws on keys say.
pub proof fn law_keys_change_the_viewer(app: &mut App, key: KeyEvent, act: Action)
    requires
        call_ensures(App::on_key, (app, key), act),
    ensures
        pressed(*old(app), key, *final(app), act),
{
}

/// The mouse does to the viewer what the laws on it say.
pub proof fn law_mouse_changes_the_viewer(app: &mut App, ev: MouseEvent, act: Action)
    requires
        call_ensures(App::on_mouse, (app, ev), act),
    ensures
        moused(*old(app), ev, *final(app), act),
{
}

/// A paste does to the viewer what the laws on pastes say.
pub proof fn law_pastes_change_the_viewer(app: &mut App, text: &str)
    requires
        call_ensures(App::on_paste, (app, text), ()),
    ensures
        pasted(*old(app), text@, *final(app)),
{
}

/// A refresh does to the viewer what the laws on refreshes say, and keeps its state sound.
pub proof fn law_refreshes_change_the_viewer(app: &mut App, r: Refreshed, load: bool)
    requires
        call_ensures(App::apply_refresh, (app, r), load),
    ensures
        refreshed(*old(app), r, *final(app), load),
        old(app).wf() ==> final(app).wf(),
{
}

/// A write that is done does to the viewer what the laws on writes say, and keeps its state
/// sound.
pub proof fn law_writes_change_the_viewer(app: &mut App, done: GitDone)
    requires
        call_ensures(App::apply_git_done, (app, done), ()),
    ensures
        write_done(*old(app), done, *final(app)),
        old(app).wf() ==> final(app).wf(),
{
}

/// The rows in use are those of the layout asked for, and the row on top is that of the line on
/// top.
pub proof fn law_rows_are_those_of_the_layout(v: DiffView, split: bool, rows: &Rows, top: usize)
    requires
        call_ensures(DiffView::rows, (&v, split), rows),
        call_ensures(DiffView::top_row, (&v, split), top),
    ensures
        split ==> *rows == v.split,
        !split ==> *rows == v.unified,
        v.scroll < rows.line_row@.len() ==> top == rows.line_row@[v.scroll as int],
        v.scroll >= rows.line_row@.len() ==> top == 0,
{
}

/// Drawing shows the state on the screen as it is laid out, and only measures the viewer.
pub proof fn law_frames_show_the_viewer(
    app: &mut App,
    screen: Rect,
    areas: Areas,
    data_age: Option<u64>,
    message_age: u64,
    r: Screen,
    own: bool,
)
    requires
        own ==> areas == areas_of(screen) && call_ensures(
            draw,
            (app, screen, data_age, message_age),
            r,
        ),
        !own ==> call_ensures(draw_at, (app, screen, areas, data_age, message_age), r),
    ensures
        *final(app) == framed(*old(app), areas),
        shows(*final(app), screen, areas, data_age, message_age, r),
{
}

/// The panels of the lists.
pub proof fn law_panels_show_the_lists(app: App, width: u16, repos: Panel, files: Panel)
    requires
        call_ensures(repos_panel, (&app, width), repos),
        call_ensures(files_panel, (&app, width), files),
    ensures
        repos@ == repos_view(app, width),
        files@ == files_view(app, width),
{
}

/// A key event is the key with what is held.
pub proof fn law_key_events_hold_the_key(code: KeyCode, m: KeyModifiers, r: KeyEvent)
    requires
        call_ensures(KeyEvent::new, (code, m), r),
    ensures
        r.code == code,
        r.modifiers == m,
{
}

/// An area starts where it is asked to and is cut at the largest coordinate there is. What it
/// contains is between its edges, the far ones not included.
pub proof fn law_areas_contain_what_is_inside(
    x: u16,
    y: u16,
    width: u16,
    height: u16,
    r: Rect,
    bottom: u16,
    right: u16,
    column: u16,
    row: u16,
    hit: bool,
)
    requires
        call_ensures(Rect::new, (x, y, width, height), r),
        call_ensures(Rect::bottom, (r,), bottom),
        call_ensures(Rect::right, (r,), right),
        call_ensures(Rect::contains, (r, column, row), hit),
    ensures
        r.x == x,
        r.y == y,
        x + width <= 65535 ==> r.width == width && right == x + width,
        x + width > 65535 ==> r.width == 65535 - x && right == 65535,
        y + height <= 65535 ==> r.height == height && bottom == y + height,
        y + height > 65535 ==> r.height == 65535 - y && bottom == 65535,
        hit <==> x <= column < right && y <= row < bottom,
{
}

// ---------------------------------------------------------------------------------------
// Sessions

/// Looking at a session notes the workspace seen in focus last and nothing else.
pub proof fn law_focus_is_noted(res: &mut Resolver, snap: Snapshot, me: SelfPane)
    requires
        call_ensures(Resolver::observe, (res, &snap, &me), ()),
    ensures
        opt_view(final(res).followed) == seen_last(opt_view(old(res).followed), snap, me),
        final(res).last == old(res).last,
{
}

/// A scope is resolved as the laws on scopes say.
pub proof fn law_scopes_are_resolved(
    res: &mut Resolver,
    scope: Scope,
    snap: Option<&Snapshot>,
    me: SelfPane,
    r: Target,
)
    requires
        call_ensures(Resolver::resolve, (res, scope, snap, &me), r),
    ensures
        snap matches Some(s) ==> resolved_to(*old(res), scope, Some(*s), me, *final(res), r),
        snap is None ==> resolved_to(*old(res), scope, None, me, *final(res), r),
{
}

/// A root that was found less than thirty seconds ago is taken from the cache, which stays as
/// it is; any other is looked up anew.
pub proof fn law_fresh_roots_are_not_looked_up<C: Fn() -> u64, L: Fn(&str) -> Option<String>>(
    cache: &mut RootCache,
    dir: &str,
    clock: C,
    lookup: L,
    r: Option<String>,
    now: u64,
)
    requires
        call_ensures(RootCache::resolve::<C, L>, (cache, dir, &clock, &lookup), r),
        forall|t: u64| #[trigger] call_ensures(clock, (), t) ==> t == now,
    ensures
        ({
            let a = old(cache).map@;
            let b = final(cache).map@;
            let fresh = a.contains_key(dir@) && now < a[dir@].1 + 30_000_000_000;
            &&& fresh ==> r == a[dir@].0 && b == a
            &&& !fresh ==> b == a.insert(dir@, (r, now)) && exists|d: &str|
                d@ == dir@ && #[trigger] call_ensures(lookup, (d,), r)
        }),
{
}

/// An empty cache knows no root.
pub proof fn law_caches_start_empty(c: RootCache, dir: Seq<char>)
    requires
        call_ensures(RootCache::new, (), c),
    ensures
        !c.map@.contains_key(dir),
{
}

/// A refresh is planned from the session with the viewer's own pane left out. Where herdr does
/// not answer, it is planned as for an empty session, with the error, and the scope stays.
pub proof fn law_refreshes_are_planned<F: Fn(&str) -> Option<String>>(
    snap: Result<Snapshot, String>,
    dirs: &[String],
    me: SelfPane,
    res: &mut Resolver,
    scope: Scope,
    resolve: F,
    r: Plan,
)
    requires
        call_ensures(plan_refresh::<F>, (snap, dirs, &me, res, scope, &resolve), r),
    ensures
        snap matches Ok(s) ==> {
            &&& r.herdr_error is None
            &&& resolved_to(*old(res), scope, Some(s), me, *final(res), r.target)
            &&& planned(s, views(dirs@), opt_view(me.pane_id), resolve, r)
        },
        snap matches Err(e) ==> {
            &&& r.herdr_error == Some(e)
            &&& resolved_to(*old(res), scope, None, me, *final(res), r.target)
            &&& *final(res) == *old(res)
            &&& exists|s: Snapshot|
                s.panes@.len() == 0 && #[trigger] planned(
                    s,
                    views(dirs@),
                    opt_view(me.pane_id),
                    resolve,
                    r,
                )
        },
{
    if snap is Err {
        let s = choose|s: Snapshot|
            #[trigger] crate::worker::is_empty_session(s) && planned(
                s,
                views(dirs@),
                opt_view(me.pane_id),
                resolve,
                r,
            );
        assert(s.panes@.len() == 0);
    }
}

/// Panes are grouped by the roots that are found for them.
pub proof fn law_panes_are_grouped<F: Fn(&str) -> Option<String>>(
    snap: Snapshot,
    target: Target,
    own: Option<String>,
    resolve: F,
    r: Topology,
    order: Vec<usize>,
    roots: Vec<Option<String>>,
    found: Topology,
)
    requires
        call_ensures(group_panes::<F>, (&snap, &target, &own, &resolve), r),
        call_ensures(group_found, (&snap, &order, &roots), found),
    ensures
        grouped(snap, target, opt_view(own), resolve, r),
        groups_of(entries(snap, order@, roots@), found.repos@, found.non_repo_panes),
{
}

/// A pane has an agent or not, and a repo is called by the last part of its path.
pub proof fn law_panes_have_agents(p: PaneRef, agent: bool, root: &str, name: String)
    requires
        call_ensures(PaneRef::is_agent, (&p,), agent),
        call_ensures(repo_name, (root,), name),
    ensures
        agent <==> p.agent is Some,
        name@ == name_of(root@),
{
}

// ---------------------------------------------------------------------------------------
// Writes

/// What git is asked for a write, and what it gets on its standard input.
pub proof fn law_writes_are_prepared<F: Fn(&Vec<String>) -> Result<Output, String>>(
    git: F,
    op: GitOp,
    args: Vec<String>,
    input: Result<Option<String>, String>,
    diff: &str,
    k: usize,
    header: &str,
    patch: Option<String>,
)
    requires
        call_ensures(write_args, (&op,), args),
        call_ensures(write_input::<F>, (&git, &op), input),
        call_ensures(hunk_patch, (diff, k, header), patch),
    ensures
        views(args@) == write_argv(op),
        input_found(git, op, input),
        opt_view(patch) == patch_of(diff@, k as int, header@),
{
}

/// A failed command says what failed; in full it says why it could not be started.
pub proof fn law_errors_say_what_failed(e: GitError, short: String, full: String)
    requires
        call_ensures(GitError::message, (&e,), short),
        call_ensures(GitError::full, (&e,), full),
    ensures
        e matches GitError::Failed(msg) ==> short@ == msg@ && full@ == msg@,
        e matches GitError::Spawn { command, cause } ==> short@ == "spawn git "@ + command@ && full@
            == "spawn git "@ + command@ + ": "@ + cause@,
{
}

// ---------------------------------------------------------------------------------------
// Texts

/// A text is taken apart into what the laws on texts speak of.
pub proof fn law_texts_are_taken_apart(
    v: &[char],
    c: char,
    pieces: Vec<String>,
    ls: Vec<String>,
    ws: Vec<String>,
    s: &str,
    n: Option<u32>,
    t: String,
    chars: Vec<char>,
)
    requires
        call_ensures(split_at, (v, c), pieces),
        call_ensures(lines_of, (v,), ls),
        call_ensures(words_of, (v,), ws),
        call_ensures(parse_u32, (s,), n),
        call_ensures(trimmed, (s,), t),
        call_ensures(chars_of, (s,), chars),
    ensures
        views(pieces@) == split(v@, c),
        views(ls@) == lines(v@),
        views(ws@) == words(v@),
        n == parsed_u32(s@),
        t@ == trim(s@),
        chars@ == s@,
{
}

/// A text is put together from what the laws on texts speak of.
pub proof fn law_texts_are_put_together(
    n: u64,
    i: i64,
    digits: String,
    signed: String,
    parts: &[String],
    sep: &str,
    all: String,
    s: &str,
    w: usize,
    left: String,
    right: String,
    gap: String,
    count: usize,
)
    requires
        call_ensures(decimal_of, (n,), digits),
        call_ensures(integer_of, (i,), signed),
        call_ensures(joined, (parts, sep), all),
        call_ensures(pad, (s, w), left),
        call_ensures(align_right, (s, w), right),
        call_ensures(blank, (w,), gap),
        call_ensures(char_count, (s,), count),
    ensures
        digits@ == decimal(n as nat),
        signed@ == integer(i as int),
        all@ == join(views(parts@), sep@),
        left@ == padded(s@, w as int),
        right@ == aligned_right(s@, w as int),
        gap@.len() == w && forall|k: int| 0 <= k < w ==> #[trigger] gap@[k] == ' ',
        count == s@.len(),
{
}

/// Texts are compared character by character.
pub proof fn law_texts_are_compared(
    a: &str,
    b: &str,
    same: bool,
    found: bool,
    earlier: bool,
    v: &[char],
    leads: bool,
    x: Option<String>,
    y: Option<String>,
    both: bool,
    copy: Option<String>,
    c: char,
    white: bool,
)
    requires
        call_ensures(same_text, (a, b), same),
        call_ensures(contains, (a, b), found),
        call_ensures(comes_before, (a, b), earlier),
        call_ensures(starts_with, (v, a), leads),
        call_ensures(same_opt_text, (&x, &y), both),
        call_ensures(opt_clone, (&x,), copy),
        call_ensures(space, (c,), white),
    ensures
        same <==> a@ == b@,
        found <==> has(a@, b@),
        earlier <==> before(a@, b@),
        leads <==> a@.is_prefix_of(v@),
        both <==> opt_view(x) == opt_view(y),
        copy == x,
        white <==> is_space(c),
{
}

/// The next place of a character, what stands between two places, and every place of a
/// character replaced.
pub proof fn law_characters_are_found(
    v: &[char],
    c: char,
    from: usize,
    to: usize,
    at: usize,
    part: String,
    with: &str,
    replaced: String,
)
    requires
        from <= to <= v@.len(),
        call_ensures(find_from, (v, c, from), at),
        call_ensures(text_of, (v, from, to), part),
        call_ensures(replace_from, (v, from, c, with), replaced),
    ensures
        from <= at <= v@.len(),
        at < v@.len() ==> v@[at as int] == c,
        forall|j: int| from <= j < at ==> #[trigger] v@[j] != c,
        part@ == v@.subrange(from as int, to as int),
        replaced@ == replaced_by(v@.skip(from as int), c, with@),
{
    lemma_replaced(v@.skip(from as int), c, with@);
    assert forall|j: int| from <= j < at implies #[trigger] v@[j] != c by {
        assert(v[j] != c);
    }
}

/// `s` with `with` for each `c`.
pub open spec fn replaced_by(s: Seq<char>, c: char, with: Seq<char>) -> Seq<char>
    decreases s.len(),
{
    if s.len() == 0 {
        Seq::empty()
    } else if s[0] == c {
        with + replaced_by(s.skip(1), c, with)
    } else {
        seq![s[0]] + replaced_by(s.skip(1), c, with)
    }
}

proof fn lemma_replaced(s: Seq<char>, c: char, with: Seq<char>)
    ensures
        crate::text::replaced(s, c, with) == replaced_by(s, c, with),
    decreases s.len(),
{
    if s.len() > 0 {
        lemma_replaced(s.drop_last(), c, with);
        lemma_replaced_last(s, c, with);
    } else {
        assert(crate::text::replaced(s, c, with) =~= replaced_by(s, c, with));
    }
}

proof fn lemma_replaced_last(s: Seq<char>, c: char, with: Seq<char>)
    requires
        s.len() > 0,
    ensures
        replaced_by(s, c, with) == replaced_by(s.drop_last(), c, with) + (if s.last() == c {
            with
        } else {
            seq![s.last()]
        }),
    decreases s.len(),
{
    let one = if s.last() == c {
        with
    } else {
        seq![s.last()]
    };
    if s.len() == 1 {
        assert(s.skip(1) =~= Seq::<char>::empty());
        assert(s.drop_last() =~= Seq::<char>::empty());
        assert(replaced_by(s.skip(1), c, with) =~= Seq::<char>::empty());
        assert(replaced_by(s, c, with) =~= one);
        assert(replaced_by(s.drop_last(), c, with) + one =~= one);
    } else {
        let t = s.skip(1);
        lemma_replaced_last(t, c, with);
        assert(t.drop_last() =~= s.drop_last().skip(1));
        assert(t.last() == s.last());
        let head = if s[0] == c {
            with
        } else {
            seq![s[0]]
        };
        assert(head + (replaced_by(t.drop_last(), c, with) + one) =~= head + replaced_by(
            t.drop_last(),
            c,
            with,
        ) + one);
    }
}

/// The parts of a path.
pub proof fn law_paths_are_taken_apart(
    path: &str,
    name: Option<String>,
    ext: Option<String>,
    file: &str,
    whole: String,
)
    requires
        call_ensures(file_name_of, (path,), name),
        call_ensures(extension_of, (path,), ext),
        call_ensures(path_join, (path, file), whole),
    ensures
        opt_view(name) == file_name(path@),
        opt_view(ext) == extension(path@),
        whole@ == joined_path(path@, file@),
{
}

} // verus!
