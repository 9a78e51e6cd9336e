//! The decisions of the viewer's main loop. The loop itself reads the terminal, draws and
//! passes jobs to the worker; here is what it does with what it reads.

use vstd::prelude::*;
use vstd::string::*;

use crate::app::{
    diff_arrived, flashed, refreshed, write_done, Action, App,
};
use crate::input::{KeyEvent, MouseEvent, MouseEventKind};
use crate::keys::{pasted, pressed};
use crate::mouse::moused;
use crate::scope::Scope;
use crate::worker::{AppEvent, Job};

verus! {

/// Nanoseconds from a herdr event to the refresh it brings. herdr can emit bursts of events;
/// those that come meanwhile are covered by the same refresh.
pub const DEBOUNCE: u64 = 300_000_000;

/// The same for events about the focus: shorter, so following another workspace feels
/// immediate.
pub const FOCUS_DEBOUNCE: u64 = 150_000_000;

/// What the terminal reports.
pub enum Input {
    Key { event: KeyEvent, release: bool },
    Mouse(MouseEvent),
    Paste(String),
    Resize,
    Other,
}

/// What the main loop has to do.
pub enum Effect {
    Nothing,
    Quit,
    /// Pass a job to the worker.
    Send(Job),
    /// Ask herdr to focus a pane.
    FocusPane(String),
    /// Suspend the viewer and open an editor.
    Edit { path: String, line: Option<u32> },
    /// Suspend the viewer and run an interactive `git commit`.
    Commit { root: String },
}

/// The state of the main loop. Times are in nanoseconds.
pub struct Tui {
    pub app: App,
    /// When the next refresh is due, if one is.
    pub refresh_due: Option<u64>,
    /// Age of the data, in seconds, that the last frame showed.
    pub last_draw_secs: u64,
    /// The screen has to be drawn anew.
    pub dirty: bool,
}

/// The refresh that fits the state.
pub open spec fn refresh_of(app: App) -> Job {
    Job::Refresh { mode: app.mode, scope: app.scope }
}

/// The job that loads the diff of the selected file.
pub open spec fn diff_of(app: App) -> Option<Job> {
    match (app.selected_repo(), app.selected_file()) {
        (Some(g), Some(f)) => Some(Job::Diff { root: g.root, mode: app.mode, file: f }),
        _ => None,
    }
}

fn refresh_job(app: &App) -> (r: Job)
    ensures
        r == refresh_of(*app),
{
    Job::Refresh { mode: app.mode, scope: app.scope }
}

/// The job that loads the diff of the selected file.
pub fn request_diff(app: &App) -> (r: Option<Job>)
    ensures
        r == diff_of(*app),
{
    match (app.repo(), app.file()) {
        (Some(g), Some(f)) => Some(
            Job::Diff { root: g.root.clone(), mode: app.mode, file: f.clone() },
        ),
        _ => None,
    }
}

/// What a job, where there is one, asks of the main loop.
pub open spec fn sent(job: Option<Job>) -> Effect {
    match job {
        Some(j) => Effect::Send(j),
        None => Effect::Nothing,
    }
}

/// What an action asks of the main loop.
pub open spec fn effect_of(act: Action, app: App) -> Effect {
    match act {
        Action::Nothing => Effect::Nothing,
        Action::Quit => Effect::Quit,
        Action::Refresh => Effect::Send(refresh_of(app)),
        Action::LoadDiff => sent(diff_of(app)),
        Action::FocusPane(id) => Effect::FocusPane(id),
        Action::OpenEditor { path, line } => Effect::Edit { path, line },
        Action::Git { root, op } => Effect::Send(Job::Git { root, op }),
        Action::ExternalCommit { root } => Effect::Commit { root },
    }
}

/// `new` and `eff` are what an input comes to. Releasing a key means nothing, and pointer
/// motion arrives constantly: only real input needs work.
pub open spec fn input_taken(old: Tui, ev: Input, new: Tui, eff: Effect) -> bool {
    match ev {
        Input::Key { event, release } => if release {
            new == old && eff == Effect::Nothing
        } else {
            &&& new == Tui { app: new.app, dirty: true, ..old }
            &&& exists|act: Action| #[trigger]
                pressed(old.app, event, new.app, act) && eff == effect_of(act, new.app)
        },
        Input::Mouse(m) => if m.kind == MouseEventKind::Moved {
            new == old && eff == Effect::Nothing
        } else {
            &&& new == Tui { app: new.app, dirty: true, ..old }
            &&& exists|act: Action| #[trigger]
                moused(old.app, m, new.app, act) && eff == effect_of(act, new.app)
        },
        Input::Paste(text) => {
            &&& new == Tui { app: new.app, dirty: true, ..old }
            &&& pasted(old.app, text@, new.app)
            &&& eff == Effect::Nothing
        },
        Input::Resize => new == Tui { dirty: true, ..old } && eff == Effect::Nothing,
        Input::Other => new == old && eff == Effect::Nothing,
    }
}

/// When a refresh is due after a herdr event at `now`, where one was due at `due`.
pub open spec fn due_after(due: Option<u64>, now: u64, focus: bool) -> int {
    let delay = if focus {
        FOCUS_DEBOUNCE
    } else {
        DEBOUNCE
    };
    let t = if now + delay > u64::MAX {
        u64::MAX as int
    } else {
        now + delay
    };
    match due {
        Some(d) => if d < t {
            d as int
        } else {
            t
        },
        None => t,
    }
}

/// `new` and `job` are what an event from a background thread comes to at `now`.
pub open spec fn event_taken(old: Tui, ev: AppEvent, now: u64, new: Tui, job: Option<Job>) -> bool {
    match ev {
        AppEvent::Refreshed(r) => {
            &&& new == Tui { app: new.app, dirty: true, ..old }
            &&& exists|load: bool| #[trigger]
                refreshed(old.app, r, new.app, load) && job == if load {
                    diff_of(new.app)
                } else {
                    None
                }
        },
        AppEvent::Diff(d) => {
            &&& new == Tui { app: new.app, dirty: true, ..old }
            &&& diff_arrived(old.app, d, new.app)
            &&& job is None
        },
        AppEvent::GitDone(done) => {
            &&& new == Tui { app: new.app, dirty: true, ..old }
            &&& write_done(old.app, done, new.app)
            &&& job == Some(refresh_of(new.app))
        },
        AppEvent::HerdrChanged { focus } => if focus && old.app.scope != Scope::Follow {
            // Focus only matters when the scope depends on it.
            new == old && job == Some(Job::ObserveFocus)
        } else {
            &&& new == Tui {
                refresh_due: Some(due_after(old.refresh_due, now, focus) as u64),
                ..old
            }
            &&& job is None
        },
        AppEvent::Tick => {
            &&& new == Tui {
                refresh_due: match old.refresh_due {
                    Some(d) => Some(d),
                    None => Some(now),
                },
                ..old
            }
            &&& job is None
        },
    }
}

impl Tui {
    /// The main loop before its first round.
    pub fn new(app: App) -> (r: Self)
        ensures
            r == (Tui { app, refresh_due: None, last_draw_secs: u64::MAX, dirty: true }),
    {
        Tui { app, refresh_due: None, last_draw_secs: u64::MAX, dirty: true }
    }

    /// Handle an input.
    pub fn on_input(&mut self, ev: Input) -> (eff: Effect)
        ensures
            input_taken(*old(self), ev, *final(self), eff),
    {
        match ev {
            Input::Key { event, release } => {
                if release {
                    return Effect::Nothing;
                }
                self.dirty = true;
                let act = self.app.on_key(event);
                assert(pressed(old(self).app, event, self.app, act));
                self.effect(act)
            },
            Input::Mouse(m) => {
                if m.kind == MouseEventKind::Moved {
                    return Effect::Nothing;
                }
                self.dirty = true;
                let act = self.app.on_mouse(m);
                assert(moused(old(self).app, m, self.app, act));
                self.effect(act)
            },
            Input::Paste(text) => {
                self.dirty = true;
                self.app.on_paste(text.as_str());
                Effect::Nothing
            },
            Input::Resize => {
                self.dirty = true;
                Effect::Nothing
            },
            Input::Other => Effect::Nothing,
        }
    }

    /// What an action asks of the main loop.
    fn effect(&self, act: Action) -> (r: Effect)
        ensures
            r == effect_of(act, self.app),
    {
        match act {
            Action::Nothing => Effect::Nothing,
            Action::Quit => Effect::Quit,
            Action::Refresh => Effect::Send(refresh_job(&self.app)),
            Action::LoadDiff => match request_diff(&self.app) {
                Some(job) => Effect::Send(job),
                None => Effect::Nothing,
            },
            Action::FocusPane(id) => Effect::FocusPane(id),
            Action::OpenEditor { path, line } => Effect::Edit { path, line },
            Action::Git { root, op } => Effect::Send(Job::Git { root, op }),
            Action::ExternalCommit { root } => Effect::Commit { root },
        }
    }

    /// Handle an event from a background thread at the time `now`.
    pub fn on_event(&mut self, ev: AppEvent, now: u64) -> (job: Option<Job>)
        ensures
            event_taken(*old(self), ev, now, *final(self), job),
    {
        match ev {
            AppEvent::Refreshed(r) => {
                let load = self.app.apply_refresh(r);
                self.dirty = true;
                assert(refreshed(old(self).app, r, self.app, load));
                if load {
                    request_diff(&self.app)
                } else {
                    None
                }
            },
            AppEvent::Diff(d) => {
                self.app.apply_diff(d);
                self.dirty = true;
                None
            },
            AppEvent::GitDone(done) => {
                self.app.apply_git_done(done);
                self.dirty = true;
                Some(refresh_job(&self.app))
            },
            AppEvent::HerdrChanged { focus } => {
                if focus && self.app.scope != Scope::Follow {
                    return Some(Job::ObserveFocus);
                }
                let delay: u64 = if focus {
                    FOCUS_DEBOUNCE
                } else {
                    DEBOUNCE
                };
                let due: u64 = now.saturating_add(delay);
                self.refresh_due = match self.refresh_due {
                    Some(t) => if t < due {
                        Some(t)
                    } else {
                        Some(due)
                    },
                    None => Some(due),
                };
                None
            },
            AppEvent::Tick => {
                if self.refresh_due.is_none() {
                    self.refresh_due = Some(now);
                }
                None
            },
        }
    }

    /// The end of a round at the time `now`, with the data `secs` seconds old: refresh if that
    /// is due, and keep the "updated Ns ago" counter moving.
    pub fn end_round(&mut self, now: u64, secs: u64) -> (job: Option<Job>)
        ensures
            ({
                let due = old(self).refresh_due matches Some(t) && t <= now;
                &&& job == (if due {
                    Some(refresh_of(old(self).app))
                } else {
                    None
                })
                &&& *final(self) == (Tui {
                    refresh_due: if due {
                        None
                    } else {
                        old(self).refresh_due
                    },
                    last_draw_secs: secs,
                    dirty: old(self).dirty || secs != old(self).last_draw_secs,
                    ..*old(self)
                })
            }),
    {
        let due = match self.refresh_due {
            Some(t) => t <= now,
            None => false,
        };
        if secs != self.last_draw_secs {
            self.last_draw_secs = secs;
            self.dirty = true;
        }
        if due {
            self.refresh_due = None;
            Some(refresh_job(&self.app))
        } else {
            None
        }
    }

    /// A frame was drawn.
    pub fn drawn(&mut self)
        ensures
            *final(self) == (Tui { dirty: false, ..*old(self) }),
    {
        self.dirty = false;
    }

    /// herdr was asked to focus a pane.
    pub fn pane_focused(&mut self, id: &str, result: &Result<(), String>)
        ensures
            *final(self) == (Tui { app: final(self).app, ..*old(self) }),
            flashed(
                old(self).app,
                final(self).app,
                match *result {
                    Ok(_) => "focused "@ + id@,
                    Err(e) => "focus failed: "@ + e@,
                },
            ),
    {
        match result {
            Ok(_) => {
                let mut msg = "focused ".to_owned();
                msg.append(id);
                self.app.flash(msg.as_str());
            },
            Err(e) => {
                let mut msg = "focus failed: ".to_owned();
                msg.append(e.as_str());
                self.app.flash(msg.as_str());
            },
        }
    }

    /// The editor is closed: refresh, and say what went wrong if something did.
    pub fn edited(&mut self, result: &Result<(), String>) -> (job: Job)
        ensures
            *final(self) == (Tui { app: final(self).app, ..*old(self) }),
            match *result {
                Ok(_) => final(self).app == old(self).app,
                Err(e) => flashed(old(self).app, final(self).app, "editor: "@ + e@),
            },
            job == refresh_of(old(self).app),
    {
        if let Err(e) = result {
            let mut msg = "editor: ".to_owned();
            msg.append(e.as_str());
            self.app.flash(msg.as_str());
        }
        refresh_job(&self.app)
    }

    /// The interactive commit is over: refresh, and say what went wrong if something did.
    pub fn committed(&mut self, result: &Result<(), String>) -> (job: Job)
        ensures
            *final(self) == (Tui { app: final(self).app, ..*old(self) }),
            match *result {
                Ok(_) => final(self).app == old(self).app,
                Err(e) => flashed(old(self).app, final(self).app, "git commit: "@ + e@),
            },
            job == refresh_of(old(self).app),
    {
        if let Err(e) = result {
            let mut msg = "git commit: ".to_owned();
            msg.append(e.as_str());
            self.app.flash(msg.as_str());
        }
        refresh_job(&self.app)
    }
}

/// Events that follow one another never put a refresh off: it stays due no later than the
/// first of them made it, and each event that counts has it due no later than that event alone
/// would. Where the focus is not followed, events about the focus bring no refresh.
pub proof fn law_bursts_never_delay_a_refresh(
    old: Tui,
    mid: Tui,
    new: Tui,
    t1: u64,
    t2: u64,
    f1: bool,
    f2: bool,
    a: Option<Job>,
    b: Option<Job>,
)
    requires
        event_taken(old, (AppEvent::HerdrChanged { focus: f1 }), t1, mid, a),
        event_taken(mid, (AppEvent::HerdrChanged { focus: f2 }), t2, new, b),
    ensures
        mid.refresh_due matches Some(m) ==> (new.refresh_due matches Some(d) && d <= m),
        !f2 || new.app.scope == Scope::Follow ==> (new.refresh_due matches Some(d) && d
            <= due_after(None, t2, f2)),
        f2 && new.app.scope != Scope::Follow ==> new == mid && b == Some(Job::ObserveFocus),
{
}

} // verus!
