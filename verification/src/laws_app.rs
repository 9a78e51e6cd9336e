//! What holds of the viewer's state: what results change in it, and what the mouse does.

use vstd::prelude::*;
use vstd::string::*;

use crate::app::{
    file_position, refreshed, repo_position, working, write_done, Action, App, DiffView, Focus,
};
use crate::diff::{DiffLine, LineKind, Row};
use crate::git::{FileChange, GitOp, Mode};
use crate::input::{MouseButton, MouseEvent, MouseEventKind, Rect};
use crate::laws_diff::side_by_side;
use crate::laws_keys::{above, below, calm, file_is, message_text, repo_is, told, went};
use crate::model::{PaneRef, RepoGroup};
use crate::mouse::{moused, repo_on, rows_between};
use crate::scope::{law_keys_are_distinct, Scope, Target};
use crate::text::{opt_view, views};
use crate::worker::{DiffResult, GitDone, Refreshed};

verus! {

// ---------------------------------------------------------------------------------------
// Starting, selections

/// A viewer starts in its mode and layout with nothing to show, waiting for the first results.
pub proof fn law_viewer_starts_empty(
    mode: Mode,
    view: crate::app::View,
    app: App,
    scope: Scope,
    here: bool,
    scoped: App,
)
    requires
        call_ensures(App::new, (mode, view), app),
        call_ensures(App::with_scope, (app, scope, here), scoped),
    ensures
        app.mode == mode,
        app.view == view,
        app.loading,
        app.focus == Focus::Repos,
        app.scope == Scope::All,
        app.groups@.len() == 0,
        app.repo_idx == 0,
        app.file_idx == 0,
        app.diff is None,
        app.diff_height == 20,
        app.diff_width == 80,
        !app.show_help,
        !app.read_only,
        !app.here_available,
        app.message is None,
        app.herdr_error is None,
        app.last_refresh is None,
        app.target is None,
        app.pending_scroll is None,
        app.commit is None,
        app.notice is None,
        app.non_repo_panes == 0,
        app.agent_cycle == 0,
        app.saved@.dom() == Set::<Seq<char>>::empty(),
        app.hit.repos.width == 0 && app.hit.files.width == 0 && app.hit.diff.width == 0,
        app.hit.repos.height == 0 && app.hit.files.height == 0 && app.hit.diff.height == 0,
        app.hit.repos_offset == 0 && app.hit.files_offset == 0,
        scoped == (App { scope, here_available: here, ..app }),
{
}

/// The selected repo and the selected file are those at the selected places; a repo that failed
/// has no files.
pub proof fn law_selections_are_at_their_places(
    app: App,
    repo: Option<&RepoGroup>,
    files: &[FileChange],
    file: Option<&FileChange>,
    staged: usize,
)
    requires
        call_ensures(App::repo, (&app,), repo),
        call_ensures(App::files, (&app,), files),
        call_ensures(App::file, (&app,), file),
        call_ensures(App::staged_count, (&app,), staged),
    ensures
        app.repo_idx < app.groups@.len() ==> repo is Some && *repo->0
            == app.groups@[app.repo_idx as int],
        app.repo_idx >= app.groups@.len() ==> repo is None && files@.len() == 0 && staged == 0,
        repo is Some && repo->0.stats is Ok ==> files@ == repo->0.stats->Ok_0.files@ && staged
            == repo->0.stats->Ok_0.staged,
        repo is Some && repo->0.stats is Err ==> files@.len() == 0 && staged == 0,
        app.file_idx < files@.len() ==> file is Some && *file->0 == files@[app.file_idx as int],
        app.file_idx >= files@.len() ==> file is None,
        files@ == app.file_list(),
        app.selected_repo() is Some <==> repo is Some,
        app.selected_file() is Some <==> file is Some,
        app.selected_file() is Some ==> app.selected_file()->0 == *file->0,
{
}

proof fn lemma_working(panes: Seq<PaneRef>)
    ensures
        working(panes) == panes.filter(
            |p: PaneRef| p.agent is Some && opt_view(p.status) == Some("working"@),
        ).map_values(|p: PaneRef| p.agent->0@),
    decreases panes.len(),
{
    reveal(Seq::filter);
    let f = |p: PaneRef| p.agent is Some && opt_view(p.status) == Some("working"@);
    let g = |p: PaneRef| p.agent->0@;
    if panes.len() > 0 {
        lemma_working(panes.drop_last());
    }
    assert(panes.filter(f).map_values(g) =~= working(panes));
}

/// The agents at work in the selected repo are those of its panes that are working, in their
/// order.
pub proof fn law_agents_at_work_are_those_working(app: App, r: Vec<String>)
    requires
        call_ensures(App::working_agents, (&app,), r),
    ensures
        app.repo_idx >= app.groups@.len() ==> r@.len() == 0,
        app.repo_idx < app.groups@.len() ==> views(r@)
            == app.groups@[app.repo_idx as int].panes@.filter(
            |p: PaneRef| p.agent is Some && opt_view(p.status) == Some("working"@),
        ).map_values(|p: PaneRef| p.agent->0@),
{
    assert(views(r@).len() == r@.len());
    if app.repo_idx < app.groups@.len() {
        lemma_working(app.groups@[app.repo_idx as int].panes@);
    }
}

/// Old and new stand side by side where that is asked for, and by default where the panel is at
/// least 140 columns wide.
pub proof fn law_wide_panels_are_split(app: App, r: bool)
    requires
        call_ensures(App::split_active, (&app,), r),
    ensures
        app.view == crate::app::View::Split ==> r,
        app.view == crate::app::View::Unified ==> !r,
        app.view == crate::app::View::Auto ==> (r <==> app.diff_width >= 140),
{
}

/// A message is shown and nothing else changes.
pub proof fn law_messages_change_nothing_else(app: &mut App, msg: &str)
    requires
        call_ensures(App::flash, (app, msg), ()),
    ensures
        told(*old(app), *final(app), msg@),
{
}

/// Selecting goes to the place asked for, or the nearest there is.
pub proof fn law_places_are_kept_in_range(app: &mut App, idx: isize, act: Action, repo: bool)
    requires
        repo ==> call_ensures(App::select_repo, (app, idx), act),
        !repo ==> call_ensures(App::select_file, (app, idx), act),
    ensures
        ({
            let n = if repo {
                old(app).groups@.len() as int
            } else {
                old(app).file_list().len() as int
            };
            let i = if idx < 0 || n == 0 {
                0
            } else if idx >= n {
                n - 1
            } else {
                idx as int
            };
            &&& repo ==> repo_is(*old(app), i, *final(app), act)
            &&& !repo ==> file_is(*old(app), i, *final(app), act)
        }),
{
    assert((App { file_idx: final(app).file_idx, ..*old(app) }).file_list()
        == old(app).file_list());
}

// ---------------------------------------------------------------------------------------
// Refreshes

proof fn lemma_repo_position(groups: Seq<RepoGroup>, root: Seq<char>, k: int)
    requires
        0 <= k <= groups.len(),
        k < groups.len() ==> groups[k].root@ == root,
        forall|j: int| 0 <= j < k ==> (#[trigger] groups[j]).root@ != root,
    ensures
        repo_position(groups, root) == (if k < groups.len() {
            Some(k)
        } else {
            None
        }),
    decreases groups.len(),
{
    if groups.len() > 0 {
        let head = groups.drop_last();
        if k < groups.len() - 1 {
            lemma_repo_position(head, root, k);
        } else {
            lemma_repo_position(head, root, head.len() as int);
            if k == groups.len() {
                assert(groups[k - 1].root@ != root);
            }
        }
    }
}

proof fn lemma_file_position(files: Seq<FileChange>, path: Seq<char>, k: int)
    requires
        0 <= k <= files.len(),
        k < files.len() ==> files[k].path@ == path,
        forall|j: int| 0 <= j < k ==> (#[trigger] files[j]).path@ != path,
    ensures
        file_position(files, path) == (if k < files.len() {
            Some(k)
        } else {
            None
        }),
    decreases files.len(),
{
    if files.len() > 0 {
        let head = files.drop_last();
        if k < files.len() - 1 {
            lemma_file_position(head, path, k);
        } else {
            lemma_file_position(head, path, head.len() as int);
            if k == files.len() {
                assert(files[k - 1].path@ != path);
            }
        }
    }
}

/// The nearest place in a list of that length.
pub open spec fn nearest(i: int, len: int) -> int {
    if len == 0 || i < 0 {
        0
    } else if i >= len {
        len - 1
    } else {
        i
    }
}

/// The target is another one than the one shown: another workspace, or the first one at all.
pub open spec fn elsewhere(app: App, target: Target) -> bool {
    app.target is None || opt_view(app.target->0.workspace_id) != opt_view(target.workspace_id)
}

/// A result for the mode and scope of the viewer is shown: its repos, what it says of herdr and
/// of other panes, and its target. Everything but the selections, the diff and the places kept
/// for other targets stays as it was.
pub proof fn law_refreshes_are_shown(old: App, r: Refreshed, new: App, load: bool)
    requires
        refreshed(old, r, new, load),
    ensures
        r.mode != old.mode || r.target.scope != old.scope ==> new == old && !load,
        r.mode == old.mode && r.target.scope == old.scope ==> {
            &&& new.groups == r.groups
            &&& new.non_repo_panes == r.non_repo_panes
            &&& new.herdr_error == r.herdr_error
            &&& new.target == Some(r.target)
            &&& !new.loading
            &&& new.last_refresh is Some
            &&& new.mode == old.mode && new.scope == old.scope && new.view == old.view
            &&& new.focus == old.focus && new.hit == old.hit
            &&& new.show_help == old.show_help && new.message == old.message
            &&& new.commit == old.commit && new.notice == old.notice
            &&& new.read_only == old.read_only && new.here_available == old.here_available
            &&& new.diff_height == old.diff_height && new.diff_width == old.diff_width
            &&& load <==> new.file_list().len() > 0
            &&& new.file_list().len() == 0 ==> new.diff is None
            &&& !elsewhere(old, r.target) && new.file_list().len() > 0 ==> new.diff == old.diff
            &&& elsewhere(old, r.target) ==> new.diff is None && new.agent_cycle == 0
            &&& !elsewhere(old, r.target) ==> {
                &&& new.agent_cycle == old.agent_cycle
                &&& new.pending_scroll == old.pending_scroll
                &&& new.saved@ == old.saved@
            }
        },
{
    if old.target is Some {
        law_keys_are_distinct(old.target->0, r.target);
    }
    assert(!old.outdates(r) ==> new.file_list() == (App {
        groups: r.groups,
        repo_idx: new.repo_idx,
        ..old
    }).file_list());
}

/// A refresh of the same target keeps the selected repo, where that is listed; `i` is the first
/// place of it, the number of repos where there is none. Else the place is kept as far as
/// possible. So it is with the file, at `k`.
pub proof fn law_selections_are_kept(old: App, r: Refreshed, new: App, load: bool, i: int, k: int)
    requires
        refreshed(old, r, new, load),
        r.mode == old.mode,
        r.target.scope == old.scope,
        !elsewhere(old, r.target),
        0 <= i <= r.groups@.len(),
        old.repo_idx < old.groups@.len() ==> {
            &&& i < r.groups@.len() ==> r.groups@[i].root@ == old.groups@[old.repo_idx as int].root@
            &&& forall|j: int|
                0 <= j < i ==> (#[trigger] r.groups@[j]).root@
                    != old.groups@[old.repo_idx as int].root@
        },
        old.repo_idx >= old.groups@.len() ==> i == r.groups@.len(),
        0 <= k <= new.file_list().len(),
        old.file_idx < old.file_list().len() ==> {
            &&& k < new.file_list().len() ==> new.file_list()[k].path@
                == old.file_list()[old.file_idx as int].path@
            &&& forall|j: int|
                0 <= j < k ==> (#[trigger] new.file_list()[j]).path@
                    != old.file_list()[old.file_idx as int].path@
        },
        old.file_idx >= old.file_list().len() ==> k == new.file_list().len(),
    ensures
        new.repo_idx == (if i < r.groups@.len() {
            i
        } else {
            nearest(old.repo_idx as int, r.groups@.len() as int)
        }),
        new.file_idx == (if k < new.file_list().len() {
            k
        } else {
            nearest(old.file_idx as int, new.file_list().len() as int)
        }),
{
    law_keys_are_distinct(old.target->0, r.target);
    if old.repo_idx < old.groups@.len() {
        lemma_repo_position(r.groups@, old.groups@[old.repo_idx as int].root@, i);
    }
    assert(r.groups.len() == r.groups@.len());
    assert(new.file_list() == (App {
        groups: r.groups,
        repo_idx: new.repo_idx,
        ..old
    }).file_list());
    if new.selected_stats() is Some {
        let files = new.selected_stats()->0.files;
        assert(files.len() == files@.len());
    }
    if old.file_idx < old.file_list().len() {
        lemma_file_position(new.file_list(), old.file_list()[old.file_idx as int].path@, k);
    }
}

/// Where the diff of the selected file is scrolled to: as it is shown, else as it is to be
/// restored, else at its start.
pub proof fn law_places_are_those_on_screen(app: App, root: Seq<char>, path: Seq<char>)
    requires
        app.repo_idx < app.groups@.len(),
        app.groups@[app.repo_idx as int].root@ == root,
        app.file_idx < app.file_list().len(),
        app.file_list()[app.file_idx as int].path@ == path,
    ensures
        ({
            let here = app.diff is Some && app.diff->0.root@ == root && app.diff->0.path@ == path;
            let back = app.pending_scroll is Some && app.pending_scroll->0.root@ == root
                && opt_view(app.pending_scroll->0.path) == Some(path);
            &&& here ==> app.position() == (app.diff->0.scroll, app.diff->0.hscroll)
            &&& !here && back ==> app.position() == (
                app.pending_scroll->0.scroll,
                app.pending_scroll->0.hscroll,
            )
            &&& !here && !back ==> app.position() == (0usize, 0usize)
        }),
{
}

/// On the way to another target the selection is kept for the one that is left, and the one kept
/// for the other is taken up: its repo and its file where they are listed, else the first ones.
pub proof fn law_selections_are_parked(
    old: App,
    r: Refreshed,
    new: App,
    load: bool,
    i: int,
    k: int,
)
    requires
        refreshed(old, r, new, load),
        r.mode == old.mode,
        r.target.scope == old.scope,
        elsewhere(old, r.target),
        ({
            let slot = r.target.slot();
            let back = old.saved@.contains_key(slot);
            &&& 0 <= i <= r.groups@.len()
            &&& back ==> {
                &&& i < r.groups@.len() ==> r.groups@[i].root@ == old.saved@[slot].root@
                &&& forall|j: int|
                    0 <= j < i ==> (#[trigger] r.groups@[j]).root@ != old.saved@[slot].root@
            }
            &&& 0 <= k <= new.file_list().len()
            &&& back && old.saved@[slot].path is Some ==> {
                &&& k < new.file_list().len() ==> new.file_list()[k].path@
                    == old.saved@[slot].path->0@
                &&& forall|j: int|
                    0 <= j < k ==> (#[trigger] new.file_list()[j]).path@
                        != old.saved@[slot].path->0@
            }
        }),
    ensures
        ({
            let slot = r.target.slot();
            let back = old.saved@.contains_key(slot);
            let selected = old.target is Some && old.repo_idx < old.groups@.len();
            &&& new.repo_idx == (if back && i < r.groups@.len() {
                i
            } else {
                0
            })
            &&& new.file_idx == (if back && old.saved@[slot].path is Some && k
                < new.file_list().len() {
                k
            } else {
                0
            })
            &&& back ==> new.pending_scroll == Some(old.saved@[slot])
            &&& !back ==> new.pending_scroll is None
            &&& !selected ==> new.saved@ == old.saved@
            &&& selected ==> {
                let left = old.target->0.slot();
                let s = new.saved@[left];
                &&& new.saved@ == old.saved@.insert(left, s)
                &&& s.root@ == old.groups@[old.repo_idx as int].root@
                &&& opt_view(s.path) == (if old.file_idx < old.file_list().len() {
                    Some(old.file_list()[old.file_idx as int].path@)
                } else {
                    None
                })
                &&& (s.scroll, s.hscroll) == old.position()
            }
        }),
{
    let slot = r.target.slot();
    if old.target is Some {
        law_keys_are_distinct(old.target->0, r.target);
        assert(old.target->0.slot() != slot);
    }
    assert(r.groups.len() == r.groups@.len());
    assert(new.file_list() == (App {
        groups: r.groups,
        repo_idx: new.repo_idx,
        ..old
    }).file_list());
    if new.selected_stats() is Some {
        let files = new.selected_stats()->0.files;
        assert(files.len() == files@.len());
    }
    if old.saved@.contains_key(slot) {
        lemma_repo_position(r.groups@, old.saved@[slot].root@, i);
        if old.saved@[slot].path is Some {
            lemma_file_position(new.file_list(), old.saved@[slot].path->0@, k);
        }
    }
}

// ---------------------------------------------------------------------------------------
// Diffs and writes

/// A diff of the selected file in the viewer's mode is shown, any other is passed over. It stays
/// where it was scrolled to, as far as it still reaches, where it was shown before or is to be
/// restored; else it starts at its first hunk. `h` is that hunk's header, and the length of the
/// diff where there is none.
pub proof fn law_diffs_are_shown(app: &mut App, d: DiffResult, h: int)
    requires
        call_ensures(App::apply_diff, (app, d), ()),
        d.lines matches Ok(l) ==> {
            &&& 0 <= h <= l@.len()
            &&& h < l@.len() ==> l@[h].kind == LineKind::Hunk
            &&& forall|j: int| 0 <= j < h ==> (#[trigger] l@[j]).kind != LineKind::Hunk
        },
    ensures
        ({
            let a = *old(app);
            let b = *final(app);
            let wanted = a.mode == d.mode && a.repo_idx < a.groups@.len() && a.file_idx
                < a.file_list().len() && a.groups@[a.repo_idx as int].root@ == d.root@
                && a.file_list()[a.file_idx as int].path@ == d.path@;
            let again = a.diff is Some && a.diff->0.root@ == d.root@ && a.diff->0.path@ == d.path@
                && a.diff->0.mode == d.mode;
            let back = a.pending_scroll is Some && a.pending_scroll->0.root@ == d.root@ && opt_view(
                a.pending_scroll->0.path,
            ) == Some(d.path@);
            let v = b.diff->0;
            &&& !wanted ==> b == a
            &&& wanted ==> {
                &&& b == (App { diff: b.diff, pending_scroll: None, ..a })
                &&& b.diff is Some
                &&& v.root == d.root && v.path == d.path && v.mode == d.mode
                &&& v.lines == d.lines && v.highlights == d.highlights
                &&& d.lines is Err ==> v.scroll == 0 && v.unified.rows@.len() == 0
                    && v.split.rows@.len() == 0
                &&& d.lines matches Ok(l) ==> {
                    &&& again ==> v.scroll == nearest(a.diff->0.scroll as int, l@.len() as int)
                        && v.hscroll == a.diff->0.hscroll
                    &&& !again && back ==> v.scroll == nearest(
                        a.pending_scroll->0.scroll as int,
                        l@.len() as int,
                    ) && v.hscroll == a.pending_scroll->0.hscroll
                    &&& !again && !back ==> v.hscroll == 0 && v.scroll == (if h < l@.len() {
                        h
                    } else {
                        0
                    })
                    &&& side_by_side(l@, v.split.rows@, v.split.line_row@)
                    &&& v.unified.rows@.len() == l@.len() && v.unified.line_row@.len() == l@.len()
                    &&& forall|i: int|
                        0 <= i < l@.len() ==> #[trigger] v.unified.rows@[i] == Row::Full(i as usize)
                }
            }
        }),
{
    if d.lines is Ok {
        let l = d.lines->Ok_0;
        assert(l.len() == l@.len());
        lemma_first_hunk(l@, 0, h);
    }
}

proof fn lemma_first_hunk(l: Seq<DiffLine>, i: int, h: int)
    requires
        0 <= i <= h <= l.len(),
        h < l.len() ==> l[h].kind == LineKind::Hunk,
        forall|j: int| i <= j < h ==> (#[trigger] l[j]).kind != LineKind::Hunk,
    ensures
        crate::diff::next_hunk(l, i) == (if h < l.len() {
            Some(h)
        } else {
            None
        }),
    decreases h - i,
{
    if i < h {
        assert(l[i].kind != LineKind::Hunk);
        lemma_first_hunk(l, i + 1, h);
    }
}

/// A write that succeeded is told, and closes the commit box where it was a commit. One that
/// failed opens a notice that says which command failed and why, and gives the commit box back.
pub proof fn law_writes_are_told(old: App, done: GitDone, new: App)
    requires
        write_done(old, done, new),
    ensures
        ({
            let is_commit = done.op is Commit;
            &&& done.result matches Ok(text) ==> {
                &&& new == (App { commit: new.commit, message: new.message, ..old })
                &&& message_text(new) == Some(text@)
                &&& is_commit ==> new.commit is None
                &&& !is_commit ==> new.commit == old.commit
            }
            &&& done.result matches Err(e) ==> {
                &&& new == (App { commit: new.commit, notice: new.notice, ..old })
                &&& new.notice is Some
                &&& new.notice->0.body@ == e@
                &&& new.notice->0.title@ == (match done.op {
                    GitOp::Stage(_) => "git add"@,
                    GitOp::StageAll => "git add"@,
                    GitOp::Unstage(_) => "unstage"@,
                    GitOp::UnstageAll => "unstage"@,
                    GitOp::ApplyHunk { .. } => "git apply"@,
                    GitOp::Commit { .. } => "git commit"@,
                }) + " failed"@
                &&& !is_commit || old.commit is None ==> new.commit == old.commit
                &&& is_commit && old.commit is Some ==> new.commit is Some
                    && new.commit->0.root == old.commit->0.root && new.commit->0.message
                    == old.commit->0.message && !new.commit->0.busy
            }
        }),
{
}

// ---------------------------------------------------------------------------------------
// The mouse

/// The place is in the area.
pub open spec fn hits(area: Rect, column: u16, row: u16) -> bool {
    &&& area.x <= column < area.x + area.width
    &&& area.y <= row < area.y + area.height
    &&& column < u16::MAX
    &&& row < u16::MAX
}

/// The panel at a place.
pub open spec fn panel_hit(app: App, column: u16, row: u16) -> Option<Focus> {
    if hits(app.hit.repos, column, row) {
        Some(Focus::Repos)
    } else if hits(app.hit.files, column, row) {
        Some(Focus::Files)
    } else if hits(app.hit.diff, column, row) {
        Some(Focus::Diff)
    } else {
        None
    }
}

/// Under the commit box the mouse does nothing. A click closes a notice, and the help.
pub proof fn law_clicks_close_popups(old: App, ev: MouseEvent, new: App, act: Action)
    requires
        moused(old, ev, new, act),
        !calm(old),
    ensures
        act == Action::Nothing,
        old.commit is Some ==> new == old,
        old.commit is None && old.notice is Some ==> new == (if ev.kind is Down {
            App { notice: None, ..old }
        } else {
            old
        }),
        old.commit is None && old.notice is None && old.show_help ==> new == (if ev.kind is Down {
            App { show_help: false, ..old }
        } else {
            old
        }),
{
}

/// The diff was shifted sideways by that many columns, not below zero.
pub open spec fn shifted_by(old: App, delta: int, new: App, act: Action) -> bool {
    &&& act == Action::Nothing
    &&& old.diff is None ==> new == old
    &&& old.diff matches Some(v) ==> {
        &&& new == (App { diff: new.diff, ..old })
        &&& new.diff is Some
        &&& new.diff->0 == (DiffView { hscroll: new.diff->0.hscroll, ..v })
        &&& v.hscroll + delta < 0 ==> new.diff->0.hscroll == 0
        &&& 0 <= v.hscroll + delta <= usize::MAX ==> new.diff->0.hscroll == v.hscroll + delta
        &&& v.hscroll + delta > usize::MAX ==> new.diff->0.hscroll == usize::MAX
    }
}

/// The wheel goes through the list it is over one by one, and scrolls the diff by three rows, or
/// shifts it by eight columns with shift or sideways. It leaves the focus alone.
pub proof fn law_wheel_moves_what_it_is_over(old: App, ev: MouseEvent, new: App, act: Action)
    requires
        moused(old, ev, new, act),
        calm(old),
        old.wf(),
    ensures
        ({
            let panel = panel_hit(old, ev.column, ev.row);
            let down = ev.kind == MouseEventKind::ScrollDown;
            let up = ev.kind == MouseEventKind::ScrollUp;
            let left = ev.kind == MouseEventKind::ScrollLeft;
            let right = ev.kind == MouseEventKind::ScrollRight;
            let shift = ev.modifiers.shift;
            &&& panel is None ==> new == old && act == Action::Nothing
            &&& panel == Some(Focus::Repos) && down ==> repo_is(
                old,
                below(old.repo_idx as int, old.groups@.len() as int),
                new,
                act,
            )
            &&& panel == Some(Focus::Repos) && up ==> repo_is(
                old,
                above(old.repo_idx as int),
                new,
                act,
            )
            &&& panel == Some(Focus::Files) && down ==> file_is(
                old,
                below(old.file_idx as int, old.file_list().len() as int),
                new,
                act,
            )
            &&& panel == Some(Focus::Files) && up ==> file_is(
                old,
                above(old.file_idx as int),
                new,
                act,
            )
            &&& panel == Some(Focus::Diff) && down && !shift ==> went(old, 3, new, act)
            &&& panel == Some(Focus::Diff) && up && !shift ==> went(old, -3, new, act)
            &&& panel == Some(Focus::Diff) && (right || (down && shift)) ==> shifted_by(
                old,
                8,
                new,
                act,
            )
            &&& panel == Some(Focus::Diff) && (left || (up && shift)) ==> shifted_by(
                old,
                -8,
                new,
                act,
            )
            &&& panel != Some(Focus::Diff) && (left || right) ==> new == old && act
                == Action::Nothing
            &&& (ev.kind == MouseEventKind::Moved || ev.kind is Up || ev.kind is Drag || ev.kind
                == MouseEventKind::Down(MouseButton::Right) || ev.kind == MouseEventKind::Down(
                MouseButton::Middle,
            )) ==> new == old && act == Action::Nothing
        }),
{
    assert((App { file_idx: new.file_idx, ..old }).file_list() == old.file_list());
}

/// How many rows the repos `from..to` take: one for the repo and one for each of its panes.
pub open spec fn rows_of(groups: Seq<RepoGroup>, from: int, to: int) -> nat
    decreases to - from,
{
    if to <= from {
        0
    } else {
        1 + groups[from].panes@.len() + rows_of(groups, from + 1, to)
    }
}

proof fn lemma_rows(groups: Seq<RepoGroup>, from: int, to: int)
    ensures
        rows_between(groups, from, to) == rows_of(groups, from, to),
    decreases to - from,
{
    if from < to {
        lemma_rows(groups, from, to - 1);
        lemma_rows_last(groups, from, to);
    }
}

proof fn lemma_rows_last(groups: Seq<RepoGroup>, from: int, to: int)
    requires
        from < to,
    ensures
        rows_of(groups, from, to) == rows_of(groups, from, to - 1) + 1 + groups[to
            - 1].panes@.len(),
    decreases to - from,
{
    if from + 1 < to {
        lemma_rows_last(groups, from + 1, to);
    } else {
        reveal_with_fuel(rows_of, 2);
    }
}

/// A click with the left button focuses the panel, and selects the file it is on, or the repo
/// whose row, or one of whose panes' rows, it is on: `i`. The border belongs to none.
pub proof fn law_clicks_select_what_they_are_on(
    old: App,
    ev: MouseEvent,
    new: App,
    act: Action,
    i: int,
)
    requires
        moused(old, ev, new, act),
        calm(old),
        ev.kind == MouseEventKind::Down(MouseButton::Left),
    ensures
        ({
            let panel = panel_hit(old, ev.column, ev.row);
            let at = App { focus: panel->0, ..old };
            let repos = old.hit.repos;
            let files = old.hit.files;
            let row = ev.row - repos.y - 1;
            let line = ev.row - files.y - 1 + old.hit.files_offset;
            let last = ev.row + 1 >= (if panel == Some(Focus::Repos) {
                repos.y + repos.height
            } else {
                files.y + files.height
            }) || ev.row + 1 >= u16::MAX;
            &&& panel is None ==> new == old && act == Action::Nothing
            &&& panel == Some(Focus::Diff) ==> new == at && act == Action::Nothing
            &&& panel == Some(Focus::Files) ==> if ev.row > files.y && !last && line
                < old.file_list().len() {
                file_is(at, line, new, act)
            } else {
                new == at && act == Action::Nothing
            }
            &&& panel == Some(Focus::Repos) && (ev.row == repos.y || last) ==> new == at && act
                == Action::Nothing
            &&& panel == Some(Focus::Repos) && ev.row > repos.y && !last && old.hit.repos_offset
                <= i < old.groups@.len() && rows_of(old.groups@, old.hit.repos_offset as int, i)
                <= row < rows_of(old.groups@, old.hit.repos_offset as int, i + 1) ==> repo_is(
                at,
                i,
                new,
                act,
            )
        }),
{
    let from = old.hit.repos_offset as int;
    lemma_rows(old.groups@, from, i);
    lemma_rows(old.groups@, from, i + 1);
    let panel = panel_hit(old, ev.column, ev.row);
    let at = App { focus: panel->0, ..old };
    assert(at.file_list() == old.file_list());
    assert((App { file_idx: new.file_idx, ..at }).file_list() == old.file_list());
    let repos = old.hit.repos;
    let row = ev.row - repos.y - 1;
    let last = ev.row + 1 >= repos.y + repos.height || ev.row + 1 >= u16::MAX;
    if panel == Some(Focus::Repos) {
        assert(crate::mouse::panel_row(repos, ev.row) == (if ev.row == repos.y || last {
            None
        } else {
            Some(row)
        }));
        if ev.row == repos.y || last {
            assert forall|k: int| !#[trigger] repo_on(old, ev.row, k) by {}
        } else if from <= i < old.groups@.len() && rows_of(old.groups@, from, i) <= row < rows_of(
            old.groups@,
            from,
            i + 1,
        ) {
            assert(repo_on(old, ev.row, i));
        }
    }
    if panel == Some(Focus::Repos) && exists|k: int| #[trigger] repo_on(old, ev.row, k) {
        let k = choose|k: int|
            #[trigger] repo_on(old, ev.row, k) && crate::keys::repo_picked(at, k, new, act);
        if repo_on(old, ev.row, i) {
            crate::mouse::law_one_repo_per_row(old, ev.row, i, k);
        }
    }
}

} // verus!
