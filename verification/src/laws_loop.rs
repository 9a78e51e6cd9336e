//! What holds of the main loop: what is asked of the worker and when, and what comes of it.

use vstd::prelude::*;
use vstd::string::*;

use crate::app::{Action, App};
use crate::input::MouseEventKind;
use crate::keys::{pasted, pressed};
use crate::laws_keys::told;
use crate::mouse::moused;
use crate::scope::Scope;
use crate::tui::{effect_of, request_diff, Effect, Input, Tui};
use crate::worker::{AppEvent, GitDone, Job, Refreshed};

verus! {

/// The loop starts with a frame to draw and nothing due.
pub proof fn law_loop_starts_dirty(app: App, t: Tui)
    requires
        call_ensures(Tui::new, (app,), t),
    ensures
        t.app == app,
        t.refresh_due is None,
        t.dirty,
        t.last_draw_secs == u64::MAX,
{
}

/// The refresh that the viewer needs is for its own mode and scope, and the diff for the
/// selected file of the selected repo, in its mode.
pub open spec fn asks_refresh(app: App, job: Job) -> bool {
    job == (Job::Refresh { mode: app.mode, scope: app.scope })
}

/// The job for the diff of the selected file; none where no file is selected.
pub open spec fn asks_diff(app: App, job: Option<Job>) -> bool {
    if app.repo_idx < app.groups@.len() && app.file_idx < app.file_list().len() {
        job == Some(
            Job::Diff {
                root: app.groups@[app.repo_idx as int].root,
                mode: app.mode,
                file: app.file_list()[app.file_idx as int],
            },
        )
    } else {
        job is None
    }
}

/// A diff is asked for where a file is selected.
pub proof fn law_diffs_are_asked_for_the_selection(app: App, job: Option<Job>)
    requires
        call_ensures(request_diff, (&app,), job),
    ensures
        asks_diff(app, job),
{
}

/// What the loop does for each action.
pub proof fn law_actions_have_their_effect(act: Action, app: App)
    ensures
        ({
            let e = effect_of(act, app);
            &&& act is Nothing ==> e is Nothing
            &&& act is Quit ==> e is Quit
            &&& act is Refresh ==> e is Send && asks_refresh(app, e->Send_0)
            &&& act is LoadDiff ==> (e matches Effect::Send(j) && asks_diff(app, Some(j))) || (
            e is Nothing && asks_diff(app, None))
            &&& act matches Action::FocusPane(id) ==> e == Effect::FocusPane(id)
            &&& act matches Action::OpenEditor { path, line } ==> e == (Effect::Edit { path, line })
            &&& act matches Action::Git { root, op } ==> e == Effect::Send(Job::Git { root, op })
            &&& act matches Action::ExternalCommit { root } ==> e == (Effect::Commit { root })
        }),
{
}

/// Keys that are released and a mouse that only moves change nothing; a key that is pressed, a
/// mouse that does something, a paste and another size have a new frame drawn.
pub proof fn law_inputs_are_taken(t: &mut Tui, ev: Input, eff: Effect)
    requires
        call_ensures(Tui::on_input, (t, ev), eff),
    ensures
        ({
            let a = *old(t);
            let b = *final(t);
            let redrawn = b == (Tui { app: b.app, dirty: true, ..a });
            &&& ev matches Input::Key { event, release } ==> if release {
                b == a && eff is Nothing
            } else {
                redrawn && exists|act: Action| #[trigger]
                    pressed(a.app, event, b.app, act) && eff == effect_of(act, b.app)
            }
            &&& ev matches Input::Mouse(m) ==> if m.kind == MouseEventKind::Moved {
                b == a && eff is Nothing
            } else {
                redrawn && exists|act: Action| #[trigger]
                    moused(a.app, m, b.app, act) && eff == effect_of(act, b.app)
            }
            &&& ev matches Input::Paste(text) ==> redrawn && pasted(a.app, text@, b.app)
                && eff is Nothing
            &&& ev is Resize ==> b == (Tui { dirty: true, ..a }) && eff is Nothing
            &&& ev is Other ==> b == a && eff is Nothing
        }),
{
}

/// What arrives has a new frame drawn. Behind a refresh the diff of the selected file is asked
/// for, where there is one, and behind a write everything.
pub proof fn law_results_are_taken(
    t: &mut Tui,
    ev: AppEvent,
    now: u64,
    job: Option<Job>,
)
    requires
        call_ensures(Tui::on_event, (t, ev, now), job),
    ensures
        ({
            let a = *old(t);
            let b = *final(t);
            let redrawn = b == (Tui { app: b.app, dirty: true, ..a });
            &&& ev matches AppEvent::Refreshed(r) ==> {
                &&& redrawn
                &&& exists|load: bool|
                    #[trigger] crate::app::refreshed(a.app, r, b.app, load) && if load {
                        asks_diff(b.app, job)
                    } else {
                        job is None
                    }
            }
            &&& ev matches AppEvent::Diff(d) ==> redrawn && crate::app::diff_arrived(
                a.app,
                d,
                b.app,
            ) && job is None
            &&& ev matches AppEvent::GitDone(done) ==> redrawn && crate::app::write_done(
                a.app,
                done,
                b.app,
            ) && job is Some && asks_refresh(b.app, job->0)
        }),
{
}

/// When herdr changes, a refresh is due in three tenths of a second, in half that time where the
/// focus moved, and sooner where one is due already. Where the scope does not follow the focus,
/// a moved focus is only looked at. A tick has a refresh due at once, unless one is due already.
/// Times are in nanoseconds.
pub proof fn law_changes_make_a_refresh_due(t: &mut Tui, ev: AppEvent, now: u64, job: Option<Job>)
    requires
        call_ensures(Tui::on_event, (t, ev, now), job),
    ensures
        ({
            let a = *old(t);
            let b = *final(t);
            let due = b == (Tui { refresh_due: b.refresh_due, ..a }) && b.refresh_due is Some && job
                is None;
            &&& ev matches AppEvent::HerdrChanged { focus } ==> if focus && a.app.scope
                != Scope::Follow {
                b == a && job == Some(Job::ObserveFocus)
            } else {
                let later = if focus {
                    now + 150_000_000
                } else {
                    now + 300_000_000
                };
                let t = if later > u64::MAX {
                    u64::MAX as int
                } else {
                    later
                };
                due && (if a.refresh_due is Some && a.refresh_due->0 < t {
                    b.refresh_due == a.refresh_due
                } else {
                    b.refresh_due->0 == t
                })
            }
            &&& ev is Tick ==> due && (if a.refresh_due is Some {
                b.refresh_due == a.refresh_due
            } else {
                b.refresh_due->0 == now
            })
        }),
{
}

/// A refresh that is due is sent once. A frame is drawn where something changed or another
/// second has begun.
pub proof fn law_due_refreshes_are_sent_once(t: &mut Tui, now: u64, secs: u64, job: Option<Job>)
    requires
        call_ensures(Tui::end_round, (t, now, secs), job),
    ensures
        ({
            let a = *old(t);
            let b = *final(t);
            let due = a.refresh_due is Some && a.refresh_due->0 <= now;
            &&& due ==> job is Some && asks_refresh(a.app, job->0) && b.refresh_due is None
            &&& !due ==> job is None && b.refresh_due == a.refresh_due
            &&& b.app == a.app
            &&& b.last_draw_secs == secs
            &&& b.dirty <==> a.dirty || secs != a.last_draw_secs
        }),
{
}

/// Behind a frame nothing is left to draw.
pub proof fn law_drawn_frames_are_clean(t: &mut Tui)
    requires
        call_ensures(Tui::drawn, (t,), ()),
    ensures
        *final(t) == (Tui { dirty: false, ..*old(t) }),
{
}

/// What is said of a pane that was focused, or could not be.
pub proof fn law_focused_panes_are_told(t: &mut Tui, id: &str, result: Result<(), String>)
    requires
        call_ensures(Tui::pane_focused, (t, id, &result), ()),
    ensures
        *final(t) == (Tui { app: final(t).app, ..*old(t) }),
        result is Ok ==> told(old(t).app, final(t).app, "focused "@ + id@),
        result matches Err(e) ==> told(old(t).app, final(t).app, "focus failed: "@ + e@),
{
}

/// Behind the editor, and behind a commit of git's own, everything is asked for anew; a failure
/// is told.
pub proof fn law_outside_programs_are_followed_by_a_refresh(
    t: &mut Tui,
    result: Result<(), String>,
    job: Job,
    editor: bool,
)
    requires
        editor ==> call_ensures(Tui::edited, (t, &result), job),
        !editor ==> call_ensures(Tui::committed, (t, &result), job),
    ensures
        *final(t) == (Tui { app: final(t).app, ..*old(t) }),
        asks_refresh(old(t).app, job),
        result is Ok ==> final(t).app == old(t).app,
        result matches Err(e) ==> told(
            old(t).app,
            final(t).app,
            (if editor {
                "editor: "@
            } else {
                "git commit: "@
            }) + e@,
        ),
{
}

} // verus!
