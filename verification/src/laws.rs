//! What holds across the viewer's operations.

use vstd::prelude::*;

use crate::app::{
    clamped, diff_arrived, file_position, law_scrolling_moves_by_rows, line_total, refreshed,
    repo_position, write_done, Action, App,
};
use crate::diff::{next_hunk, prev_hunk, DiffLine};
use crate::git::{FileChange, Mode};
use crate::input::{KeyEvent, MouseEvent, MouseEventKind};
use crate::keys::{
    agent_jumped, hunk_jumped, jump_panes, mode_switched, pressed, scope_switched, scrolled,
    view_switched,
};
use crate::model::RepoGroup;
use crate::mouse::moused;
use crate::screen::framed;
use crate::text::opt_view;
use crate::tui::{diff_of, effect_of, event_taken, input_taken, Effect, Input, Tui};
use crate::ui::Areas;
use crate::worker::{AppEvent, DiffResult, GitDone, Job, Refreshed};

verus! {

// ---------------------------------------------------------------------------------------
// Invariants

proof fn lemma_next_hunk(lines: Seq<DiffLine>, i: int)
    requires
        0 <= i,
    ensures
        next_hunk(lines, i) matches Some(k) ==> i <= k < lines.len(),
    decreases lines.len() - i,
{
    if i < lines.len() {
        lemma_next_hunk(lines, i + 1);
    }
}

proof fn lemma_prev_hunk(lines: Seq<DiffLine>, n: int)
    ensures
        prev_hunk(lines, n) matches Some(k) ==> 0 <= k < n && k < lines.len(),
    decreases n,
{
    if n > 0 {
        lemma_prev_hunk(lines, n - 1);
    }
}

proof fn lemma_scrolled_wf(old: App, delta: int, new: App, act: Action)
    requires
        old.wf(),
        scrolled(old, delta, new, act),
    ensures
        new.wf(),
{
    if old.diff is Some {
        law_scrolling_moves_by_rows(old.diff->0, old.is_split(), delta);
    }
    assert(new.file_list() == old.file_list());
}

proof fn lemma_hunk_jumped_wf(old: App, forward: bool, new: App, act: Action)
    requires
        old.wf(),
        hunk_jumped(old, forward, new, act),
    ensures
        new.wf(),
{
    if old.diff is Some {
        let v = old.diff->0;
        if v.lines is Ok {
            lemma_next_hunk(v.lines->Ok_0@, v.scroll + 1);
            lemma_prev_hunk(v.lines->Ok_0@, v.scroll as int);
        }
    }
    assert(new.file_list() == old.file_list());
}

/// Whatever key is pressed, the selections stay in range and the diff well-formed.
pub proof fn law_keys_keep_the_state_sound(old: App, key: KeyEvent, new: App, act: Action)
    requires
        old.wf(),
        pressed(old, key, new, act),
    ensures
        new.wf(),
{
    if old.groups@ == new.groups@ && old.repo_idx == new.repo_idx {
        assert(new.file_list() == old.file_list());
    }
    assert forall|delta: int| #[trigger] scrolled(old, delta, new, act) implies new.wf() by {
        lemma_scrolled_wf(old, delta, new, act);
    }
    assert forall|forward: bool| #[trigger] hunk_jumped(old, forward, new, act) implies new.wf() by {
        lemma_hunk_jumped_wf(old, forward, new, act);
    }
}

/// Whatever the mouse does, the selections stay in range and the diff well-formed.
pub proof fn law_mouse_keeps_the_state_sound(old: App, ev: MouseEvent, new: App, act: Action)
    requires
        old.wf(),
        moused(old, ev, new, act),
    ensures
        new.wf(),
{
    if old.groups@ == new.groups@ && old.repo_idx == new.repo_idx {
        assert(new.file_list() == old.file_list());
    }
    assert forall|delta: int| #[trigger] scrolled(old, delta, new, act) implies new.wf() by {
        lemma_scrolled_wf(old, delta, new, act);
    }
}

/// Whatever a background thread reports, the selections stay in range and the diff
/// well-formed.
pub proof fn law_results_keep_the_state_sound(
    old: App,
    r: Refreshed,
    load: bool,
    d: DiffResult,
    done: GitDone,
    new: App,
)
    requires
        old.wf(),
        refreshed(old, r, new, load) || diff_arrived(old, d, new) || write_done(old, done, new),
    ensures
        new.wf(),
{
    lemma_lists_fit(r.groups, new);
    lemma_lists_fit(old.groups, old);
    if d.lines is Ok {
        let l = d.lines->Ok_0;
        assert(l.len() == l@.len());
        lemma_next_hunk(l@, 0);
    }
    if refreshed(old, r, new, load) && !old.outdates(r) {
        assert(new.file_list() == (App {
            groups: r.groups,
            repo_idx: new.repo_idx,
            ..old
        }).file_list());
    } else {
        assert(new.file_list() == old.file_list());
    }
}

/// The main loop keeps the state sound: whatever the terminal and the background threads
/// report, and whenever.
pub proof fn law_the_loop_keeps_the_state_sound(
    old: Tui,
    new: Tui,
    input: Input,
    eff: Effect,
    ev: AppEvent,
    now: u64,
    job: Option<Job>,
)
    requires
        old.app.wf(),
        input_taken(old, input, new, eff) || event_taken(old, ev, now, new, job),
    ensures
        new.app.wf(),
{
    if input_taken(old, input, new, eff) {
        match input {
            Input::Key { event, release } => {
                if !release {
                    let act = choose|act: Action| #[trigger]
                        pressed(old.app, event, new.app, act) && eff == effect_of(act, new.app);
                    law_keys_keep_the_state_sound(old.app, event, new.app, act);
                }
            },
            Input::Mouse(m) => {
                if m.kind != MouseEventKind::Moved {
                    let act = choose|act: Action| #[trigger]
                        moused(old.app, m, new.app, act) && eff == effect_of(act, new.app);
                    law_mouse_keeps_the_state_sound(old.app, m, new.app, act);
                }
            },
            _ => {
                assert(new.app.file_list() == old.app.file_list());
            },
        }
    } else {
        match ev {
            AppEvent::Refreshed(r) => {
                let load = choose|load: bool| #[trigger]
                    refreshed(old.app, r, new.app, load) && job == if load {
                        diff_of(new.app)
                    } else {
                        None
                    };
                law_results_keep_the_state_sound(
                    old.app,
                    r,
                    load,
                    arbitrary(),
                    arbitrary(),
                    new.app,
                );
            },
            AppEvent::Diff(d) => {
                law_results_keep_the_state_sound(
                    old.app,
                    arbitrary(),
                    false,
                    d,
                    arbitrary(),
                    new.app,
                );
            },
            AppEvent::GitDone(done) => {
                law_results_keep_the_state_sound(
                    old.app,
                    arbitrary(),
                    false,
                    arbitrary(),
                    done,
                    new.app,
                );
            },
            _ => {},
        }
    }
}

/// Drawing keeps the state sound, and leaves the selections and the place in the diff alone,
/// whatever the size of the screen.
pub proof fn law_drawing_keeps_the_state_sound(app: App, areas: Areas)
    requires
        app.wf(),
    ensures
        framed(app, areas).wf(),
        framed(app, areas).selected_file() == app.selected_file(),
        framed(app, areas).diff == app.diff,
{
    assert(framed(app, areas).file_list() == app.file_list());
}

// ---------------------------------------------------------------------------------------
// Read-only

/// The action writes to a repo.
pub open spec fn writes(act: Action) -> bool {
    act is Git || act is ExternalCommit
}

/// Started read-only, the viewer never asks for a write, whatever is pressed, and never opens
/// the commit box.
pub proof fn law_read_only_never_writes(old: App, key: KeyEvent, new: App, act: Action)
    requires
        old.read_only,
        old.commit is None,
        pressed(old, key, new, act),
    ensures
        !writes(act),
        new.commit is None,
        new.read_only,
{
}

/// The mouse never asks for a write.
pub proof fn law_mouse_never_writes(old: App, ev: MouseEvent, new: App, act: Action)
    requires
        moused(old, ev, new, act),
    ensures
        !writes(act),
        new.commit == old.commit,
{
}

// ---------------------------------------------------------------------------------------
// Refreshes

proof fn lemma_repo_position(groups: Seq<RepoGroup>, root: Seq<char>)
    ensures
        repo_position(groups, root) matches Some(i) ==> 0 <= i < groups.len() && groups[i].root@
            == root,
    decreases groups.len(),
{
    if groups.len() > 0 {
        lemma_repo_position(groups.drop_last(), root);
    }
}

proof fn lemma_file_position(files: Seq<FileChange>, path: Seq<char>)
    ensures
        file_position(files, path) matches Some(i) ==> 0 <= i < files.len() && files[i].path@
            == path,
    decreases files.len(),
{
    if files.len() > 0 {
        lemma_file_position(files.drop_last(), path);
    }
}

/// Lists are no longer than an index can count.
proof fn lemma_lists_fit(groups: Vec<RepoGroup>, app: App)
    ensures
        groups@.len() <= usize::MAX,
        app.file_list().len() <= usize::MAX,
{
    assert(groups.len() == groups@.len());
    if app.selected_stats() is Some {
        let files = app.selected_stats()->0.files;
        assert(files.len() == files@.len());
    }
}

/// The repo at `root` is among those of a result.
pub open spec fn lists_repo(r: Refreshed, root: Option<Seq<char>>) -> bool {
    root matches Some(x) && repo_position(r.groups@, x) is Some
}

/// The file at `path` is among those of the selected repo.
pub open spec fn lists_file(app: App, path: Option<Seq<char>>) -> bool {
    path matches Some(x) && file_position(app.file_list(), x) is Some
}

/// A refresh of the same target keeps the selected repo and the selected file, wherever they
/// moved in their lists, as long as they are still there.
pub proof fn law_selection_survives_refresh(old: App, r: Refreshed, new: App, load: bool)
    requires
        refreshed(old, r, new, load),
        !old.outdates(r),
        !old.moves_to(r.target),
        lists_repo(r, opt_view(old.selected_root())),
    ensures
        opt_view(new.selected_root()) == opt_view(old.selected_root()),
        lists_file(new, opt_view(old.selected_path())) ==> opt_view(new.selected_path())
            == opt_view(old.selected_path()) && new.diff == old.diff && load,
{
    let root = opt_view(old.selected_root())->0;
    lemma_lists_fit(r.groups, new);
    lemma_repo_position(r.groups@, root);
    assert(new.file_list() == (App {
        groups: r.groups,
        repo_idx: new.repo_idx,
        ..old
    }).file_list());
    if old.selected_path() is Some {
        lemma_file_position(new.file_list(), opt_view(old.selected_path())->0);
    }
}

/// Coming back to a target restores the file that was selected there and the place it was
/// scrolled to: at once for the next time the view moves on, and on screen as soon as the
/// diff arrives.
pub proof fn law_switching_back_restores(
    old: App,
    away: Refreshed,
    mid: App,
    load_mid: bool,
    back: Refreshed,
    new: App,
    load: bool,
    d: DiffResult,
    shown: App,
)
    requires
        refreshed(old, away, mid, load_mid),
        !old.outdates(away),
        old.target matches Some(t) && t.slot() != away.target.slot() && t.slot()
            == back.target.slot(),
        refreshed(mid, back, new, load),
        !mid.outdates(back),
        lists_repo(back, opt_view(old.selected_root())),
        lists_file(new, opt_view(old.selected_path())),
        new.expects(d),
        diff_arrived(new, d, shown),
    ensures
        opt_view(new.selected_root()) == opt_view(old.selected_root()),
        opt_view(new.selected_path()) == opt_view(old.selected_path()),
        new.position() == old.position(),
        shown.diff matches Some(v) && v.scroll == clamped(
            old.position().0 as int,
            line_total(d.lines),
        ) && v.hscroll == old.position().1,
{
    let slot = old.target->0.slot();
    let sel = old.selection()->0;
    assert(mid.saved@[slot] == sel);
    assert(mid.parked()[slot] == sel);
    assert(mid.restored(back.target) == Some(sel));
    lemma_lists_fit(back.groups, new);
    lemma_repo_position(back.groups@, sel.root@);
    assert(new.file_list() == (App {
        groups: back.groups,
        repo_idx: new.repo_idx,
        ..mid
    }).file_list());
    lemma_file_position(new.file_list(), opt_view(old.selected_path())->0);
}

/// Results for a mode or a scope that the viewer has left change nothing, nor does the diff of
/// a file that is no longer selected.
pub proof fn law_stale_results_change_nothing(
    old: App,
    r: Refreshed,
    refreshed_app: App,
    load: bool,
    d: DiffResult,
    diff_app: App,
)
    requires
        refreshed(old, r, refreshed_app, load),
        diff_arrived(old, d, diff_app),
    ensures
        r.mode != old.mode || r.target.scope != old.scope ==> refreshed_app == old && !load,
        d.mode != old.mode || opt_view(old.selected_path()) != Some(d.path@) ==> diff_app == old,
{
}

/// After a switch of the mode, what was asked for before it arrives in vain.
pub proof fn law_mode_switch_drops_late_results(
    old: App,
    new: App,
    act: Action,
    r: Refreshed,
    late: App,
    load: bool,
)
    requires
        mode_switched(old, new, act),
        r.mode == old.mode,
        refreshed(new, r, late, load),
    ensures
        late == new,
        !load,
{
}

/// After a switch of the scope, what was asked for before it arrives in vain.
pub proof fn law_scope_switch_drops_late_results(
    old: App,
    new: App,
    act: Action,
    r: Refreshed,
    late: App,
    load: bool,
)
    requires
        scope_switched(old, new, act),
        r.target.scope == old.scope,
        refreshed(new, r, late, load),
    ensures
        late == new,
        !load,
{
}

/// The key for the mode goes through all four and back to the first.
pub proof fn law_mode_cycle(m: Mode)
    ensures
        m.successor() != m,
        m.successor().successor() != m,
        m.successor().successor().successor() != m,
        m.successor().successor().successor().successor() == m,
{
}

// ---------------------------------------------------------------------------------------
// Views, panes, commits

/// Switching the layout leaves the diff where it is, and switching again brings the layout
/// back.
pub proof fn law_view_switch_keeps_the_place(old: App, mid: App, new: App, a: Action, b: Action)
    requires
        view_switched(old, mid, a),
        view_switched(mid, new, b),
    ensures
        mid.diff == old.diff,
        mid.is_split() == !old.is_split(),
        new.diff == old.diff,
        new.is_split() == old.is_split(),
{
}

/// A layout that was switched to stays for the session, however wide the diff panel becomes.
pub proof fn law_view_override_lasts(old: App, new: App, act: Action, areas: Areas)
    requires
        view_switched(old, new, act),
    ensures
        framed(new, areas).is_split() == new.is_split(),
        new.is_split() == !old.is_split(),
{
}

/// Pressed again, the key for the agent pane goes to the next one, and from the last to the
/// first.
pub proof fn law_agent_jumps_cycle(old: App, mid: App, new: App, a: Action, b: Action)
    requires
        agent_jumped(old, mid, a),
        agent_jumped(mid, new, b),
        old.selected_repo() matches Some(g) && jump_panes(g.panes@).len() > 0,
        old.agent_cycle < usize::MAX,
    ensures
        ({
            let panes = jump_panes(old.selected_repo()->0.panes@);
            let n = panes.len() as int;
            let i = old.agent_cycle as int % n;
            &&& a == Action::FocusPane(panes[i].pane_id)
            &&& b == Action::FocusPane(panes[if i == n - 1 { 0 } else { i + 1 }].pane_id)
        }),
{
    let n = jump_panes(old.selected_repo()->0.panes@).len() as int;
    let c = old.agent_cycle as int;
    assert((c + 1) % n == (if c % n == n - 1 { 0 } else { c % n + 1 })) by (nonlinear_arith)
        requires
            n > 0,
            c >= 0,
    ;
}

/// A commit that fails gives the commit box back as it was, message and all.
pub proof fn law_failed_commit_keeps_the_message(
    old: App,
    key: KeyEvent,
    mid: App,
    act: Action,
    done: GitDone,
    new: App,
)
    requires
        old.notice is None,
        old.commit is Some,
        pressed(old, key, mid, act),
        writes(act),
        done.op is Commit,
        done.result is Err,
        write_done(mid, done, new),
    ensures
        mid.commit matches Some(c) && c.busy,
        new.commit == old.commit,
        new.notice is Some,
{
}

/// While git runs, no key changes the message or asks for another commit.
pub proof fn law_busy_commit_takes_no_keys(old: App, key: KeyEvent, new: App, act: Action)
    requires
        old.notice is None,
        old.commit matches Some(c) && c.busy,
        pressed(old, key, new, act),
    ensures
        new == old,
        act == Action::Nothing,
{
}

} // verus!
