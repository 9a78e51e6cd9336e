//! What keys do.

use vstd::prelude::*;
use vstd::string::*;

use crate::app::{
    clamp, clamped, flashed, step, Action, App, CommitBox, DiffView, Focus,
};
use crate::diff::{
    hunk_above, hunk_from, hunk_index, hunk_start, hunks_above, next_hunk, prev_hunk, DiffLine,
    LineKind,
};
use crate::git::{FileChange, GitOp, Mode, Status};
use crate::input::{KeyCode, KeyEvent};
use crate::model::PaneRef;
use crate::paths::{joined_path, path_join};
use crate::text::{chars_of, same_text, text_of, trim, trimmed};

verus! {

// ---------------------------------------------------------------------------------------
// Selection and scrolling

/// What the caller is asked to do once the selection moved to another file.
pub open spec fn load_action(new: App) -> Action {
    if new.selected_file() is Some {
        Action::LoadDiff
    } else {
        Action::Nothing
    }
}

/// `new` is `old` with repo `idx` selected.
pub open spec fn repo_picked(old: App, idx: int, new: App, act: Action) -> bool {
    if idx == old.repo_idx {
        new == old && act == Action::Nothing
    } else {
        &&& new == App { repo_idx: idx as usize, file_idx: 0, agent_cycle: 0, diff: None, ..old }
        &&& act == load_action(new)
    }
}

/// `new` is `old` with file `idx` selected.
pub open spec fn file_picked(old: App, idx: int, new: App, act: Action) -> bool {
    if idx == old.file_idx && old.diff is Some {
        new == old && act == Action::Nothing
    } else {
        &&& new == App { file_idx: idx as usize, ..old }
        &&& act == load_action(new)
    }
}

/// `new` is `old` with its diff scrolled by `delta` rows.
pub open spec fn scrolled(old: App, delta: int, new: App, act: Action) -> bool {
    &&& act == Action::Nothing
    &&& match old.diff {
        Some(v) => new == App {
            diff: Some(DiffView { scroll: v.scrolled_to(old.is_split(), delta), ..v }),
            ..old
        },
        None => new == old,
    }
}

/// A column, after moving by `delta`.
pub open spec fn shifted_to(from: usize, delta: int) -> int {
    if from + delta < 0 {
        0
    } else if from + delta > usize::MAX {
        usize::MAX as int
    } else {
        from + delta
    }
}

/// `new` is `old` with its diff scrolled sideways by `delta` columns.
pub open spec fn shifted(old: App, delta: int, new: App, act: Action) -> bool {
    &&& act == Action::Nothing
    &&& match old.diff {
        Some(v) => new == App {
            diff: Some(DiffView { hscroll: shifted_to(v.hscroll, delta) as usize, ..v }),
            ..old
        },
        None => new == old,
    }
}

/// The line of the next hunk, or of the one before.
pub open spec fn hunk_line(v: DiffView, forward: bool) -> Option<int> {
    match v.lines {
        Ok(l) => if forward {
            next_hunk(l@, v.scroll + 1)
        } else {
            prev_hunk(l@, v.scroll as int)
        },
        Err(_) => None,
    }
}

/// `new` is `old` with its diff scrolled to the next hunk, or to the one before.
pub open spec fn hunk_jumped(old: App, forward: bool, new: App, act: Action) -> bool {
    &&& act == Action::Nothing
    &&& match old.diff {
        Some(v) => match hunk_line(v, forward) {
            Some(i) => new == App {
                diff: Some(DiffView { scroll: i as usize, ..v }),
                ..old
            },
            None => new == old,
        },
        None => new == old,
    }
}

impl App {
    /// Rows that a page scrolls by: the height of the viewport but for two rows of overlap.
    pub open spec fn page_rows(self) -> int {
        let rows = if self.diff_height <= 3 {
            1
        } else {
            self.diff_height - 2
        };
        if rows > isize::MAX {
            isize::MAX as int
        } else {
            rows
        }
    }

    fn page(&self) -> (r: isize)
        ensures
            r == self.page_rows(),
            r >= 1,
    {
        if self.diff_height <= 3 {
            1
        } else {
            let rows: usize = self.diff_height - 2;
            if rows > isize::MAX as usize {
                isize::MAX
            } else {
                rows as isize
            }
        }
    }

    fn focus_next(&mut self)
        ensures
            *final(self) == (App { focus: right_of(old(self).focus), ..*old(self) }),
    {
        self.focus = match self.focus {
            Focus::Repos => Focus::Files,
            Focus::Files | Focus::Diff => Focus::Diff,
        };
    }

    fn focus_prev(&mut self)
        ensures
            *final(self) == (App { focus: left_of(old(self).focus), ..*old(self) }),
    {
        self.focus = match self.focus {
            Focus::Diff => Focus::Files,
            Focus::Files | Focus::Repos => Focus::Repos,
        };
    }

    /// Select the repo at `idx`, held to the list.
    pub fn select_repo(&mut self, idx: isize) -> (act: Action)
        ensures
            repo_picked(
                *old(self),
                clamped(idx as int, old(self).groups@.len()),
                *final(self),
                act,
            ),
    {
        let i: usize = clamp(idx, self.groups.len());
        self.go_to_repo(i)
    }

    pub(crate) fn go_to_repo(&mut self, idx: usize) -> (act: Action)
        ensures
            repo_picked(*old(self), idx as int, *final(self), act),
    {
        if idx == self.repo_idx {
            return Action::Nothing;
        }
        self.repo_idx = idx;
        self.file_idx = 0;
        self.agent_cycle = 0;
        self.diff = None;
        if self.file().is_some() {
            Action::LoadDiff
        } else {
            Action::Nothing
        }
    }

    /// Select the file at `idx`, held to the list.
    pub fn select_file(&mut self, idx: isize) -> (act: Action)
        ensures
            file_picked(
                *old(self),
                clamped(idx as int, old(self).file_list().len()),
                *final(self),
                act,
            ),
    {
        let i: usize = clamp(idx, self.files().len());
        self.go_to_file(i)
    }

    pub(crate) fn go_to_file(&mut self, idx: usize) -> (act: Action)
        ensures
            file_picked(*old(self), idx as int, *final(self), act),
    {
        if idx == self.file_idx && self.diff.is_some() {
            return Action::Nothing;
        }
        self.file_idx = idx;
        if self.file().is_some() {
            Action::LoadDiff
        } else {
            Action::Nothing
        }
    }

    /// Move the repo selection by `delta`.
    pub(crate) fn step_repo(&mut self, delta: isize) -> (act: Action)
        ensures
            repo_picked(
                *old(self),
                clamped(old(self).repo_idx + delta, old(self).groups@.len()),
                *final(self),
                act,
            ),
    {
        let i: usize = step(self.repo_idx, delta, self.groups.len());
        self.go_to_repo(i)
    }

    /// Move the file selection by `delta`.
    pub(crate) fn step_file(&mut self, delta: isize) -> (act: Action)
        ensures
            file_picked(
                *old(self),
                clamped(old(self).file_idx + delta, old(self).file_list().len()),
                *final(self),
                act,
            ),
    {
        let i: usize = step(self.file_idx, delta, self.files().len());
        self.go_to_file(i)
    }

    fn move_sel(&mut self, delta: isize) -> (act: Action)
        ensures
            moved(*old(self), delta as int, *final(self), act),
    {
        match self.focus {
            Focus::Repos => self.step_repo(delta),
            Focus::Files => self.step_file(delta),
            Focus::Diff => self.scroll_diff(delta),
        }
    }

    /// Scroll the diff by `delta` rows.
    pub(crate) fn scroll_diff(&mut self, delta: isize) -> (act: Action)
        ensures
            scrolled(*old(self), delta as int, *final(self), act),
    {
        let split = self.split_active();
        if let Some(v) = &mut self.diff {
            v.scroll_rows(split, delta);
        }
        Action::Nothing
    }

    /// Scroll the diff sideways by `delta` columns.
    pub(crate) fn hscroll(&mut self, delta: isize) -> (act: Action)
        ensures
            shifted(*old(self), delta as int, *final(self), act),
    {
        if let Some(v) = &mut self.diff {
            let n: i128 = v.hscroll as i128 + delta as i128;
            v.hscroll = if n < 0 {
                0
            } else if n > usize::MAX as i128 {
                usize::MAX
            } else {
                n as usize
            };
        }
        Action::Nothing
    }

    fn jump_hunk(&mut self, forward: bool) -> (act: Action)
        ensures
            hunk_jumped(*old(self), forward, *final(self), act),
    {
        if let Some(v) = &mut self.diff {
            let found = match &v.lines {
                Ok(lines) => if forward {
                    if v.scroll < lines.len() {
                        hunk_from(lines.as_slice(), v.scroll + 1)
                    } else {
                        None
                    }
                } else {
                    hunk_above(lines.as_slice(), v.scroll)
                },
                Err(_) => None,
            };
            if let Some(i) = found {
                v.scroll = i;
            }
        }
        Action::Nothing
    }
}

/// The panel after `f`.
pub open spec fn right_of(f: Focus) -> Focus {
    match f {
        Focus::Repos => Focus::Files,
        Focus::Files => Focus::Diff,
        Focus::Diff => Focus::Diff,
    }
}

/// The panel before `f`.
pub open spec fn left_of(f: Focus) -> Focus {
    match f {
        Focus::Diff => Focus::Files,
        Focus::Files => Focus::Repos,
        Focus::Repos => Focus::Repos,
    }
}

/// `new` is `old` after `delta` steps in the panel that has the focus.
pub open spec fn moved(old: App, delta: int, new: App, act: Action) -> bool {
    match old.focus {
        Focus::Repos => repo_picked(old, clamped(old.repo_idx + delta, old.groups@.len()), new, act),
        Focus::Files => file_picked(
            old,
            clamped(old.file_idx + delta, old.file_list().len()),
            new,
            act,
        ),
        Focus::Diff => scrolled(old, delta, new, act),
    }
}

// ---------------------------------------------------------------------------------------
// Panes and the editor

/// The panes that agents run in.
pub open spec fn agents(panes: Seq<PaneRef>) -> Seq<PaneRef>
    decreases panes.len(),
{
    if panes.len() == 0 {
        Seq::empty()
    } else if panes.last().agent is Some {
        agents(panes.drop_last()).push(panes.last())
    } else {
        agents(panes.drop_last())
    }
}

/// The panes to jump to: those of agents, any pane where there is no agent.
pub open spec fn jump_panes(panes: Seq<PaneRef>) -> Seq<PaneRef> {
    if agents(panes).len() > 0 {
        agents(panes)
    } else {
        panes
    }
}

/// `new` and `act` are what a jump to the next agent pane of the selected repo comes to.
pub open spec fn agent_jumped(old: App, new: App, act: Action) -> bool {
    match old.selected_repo() {
        None => new == old && act == Action::Nothing,
        Some(g) => {
            let panes = jump_panes(g.panes@);
            if panes.len() == 0 {
                flashed(old, new, "no herdr pane in this repo"@) && act == Action::Nothing
            } else {
                &&& new == App {
                    agent_cycle: if old.agent_cycle == usize::MAX {
                        0
                    } else {
                        (old.agent_cycle + 1) as usize
                    },
                    ..old
                }
                &&& act == Action::FocusPane(
                    panes[old.agent_cycle as int % panes.len() as int].pane_id,
                )
            }
        },
    }
}

/// The indices of the panes to jump to.
fn jump_indices(panes: &Vec<PaneRef>) -> (r: Vec<usize>)
    ensures
        r@.len() == jump_panes(panes@).len(),
        forall|k: int|
            0 <= k < r@.len() ==> (#[trigger] r@[k]) < panes@.len() && panes@[r@[k] as int]
                == jump_panes(panes@)[k],
{
    let mut found: Vec<usize> = Vec::new();
    let mut i: usize = 0;
    while i < panes.len()
        invariant
            i <= panes.len(),
            found@.len() == agents(panes@.take(i as int)).len(),
            forall|k: int|
                0 <= k < found@.len() ==> (#[trigger] found@[k]) < panes@.len()
                    && panes@[found@[k] as int] == agents(panes@.take(i as int))[k],
        decreases panes.len() - i,
    {
        assert(panes@.take(i + 1).drop_last() =~= panes@.take(i as int));
        if panes[i].is_agent() {
            found.push(i);
        }
        i += 1;
    }
    assert(panes@.take(i as int) =~= panes@);
    if found.len() > 0 {
        return found;
    }
    let mut all: Vec<usize> = Vec::new();
    let mut k: usize = 0;
    while k < panes.len()
        invariant
            k <= panes.len(),
            all@.len() == k,
            forall|j: int| 0 <= j < k ==> all@[j] == j,
        decreases panes.len() - k,
    {
        all.push(k);
        k += 1;
    }
    all
}

/// The number, in the new version of the file, of the first line from `i` on that has one.
pub open spec fn first_numbered(lines: Seq<DiffLine>, i: int) -> Option<u32>
    decreases lines.len() - i,
{
    if i >= lines.len() {
        None
    } else if lines[i].new_no is Some && lines[i].kind != LineKind::Meta {
        lines[i].new_no
    } else {
        first_numbered(lines, i + 1)
    }
}

/// The line is a change.
pub open spec fn is_change(l: DiffLine) -> bool {
    l.kind == LineKind::Added || l.kind == LineKind::Removed
}

/// Where the first change from line `i` on is in the new version of the file: the number of
/// the line that was added, or of the first line behind those that were removed.
pub open spec fn first_change_no(lines: Seq<DiffLine>, i: int) -> Option<u32>
    decreases lines.len() - i,
{
    if i >= lines.len() {
        None
    } else if is_change(lines[i]) {
        first_numbered(lines, i)
    } else {
        first_change_no(lines, i + 1)
    }
}

/// The editor opens at the first change, whatever stands above it: where `k` is the first
/// change from `i` on, at the number of the first line from there on that has one; so at an
/// added line itself.
pub proof fn law_editor_opens_at_the_first_change(lines: Seq<DiffLine>, i: int, k: int)
    requires
        0 <= i <= k < lines.len(),
        forall|j: int| i <= j < k ==> !is_change(#[trigger] lines[j]),
        is_change(lines[k]),
    ensures
        first_change_no(lines, i) == first_numbered(lines, k),
        lines[k].kind == LineKind::Added && lines[k].new_no is Some ==> first_change_no(lines, i)
            == lines[k].new_no,
    decreases k - i,
{
    if i < k {
        law_editor_opens_at_the_first_change(lines, i + 1, k);
    }
}

/// The line to open an editor at: that of the first change at or below the scroll position.
pub open spec fn editor_line(diff: Option<DiffView>) -> Option<u32> {
    match diff {
        Some(v) => match v.lines {
            Ok(l) => first_change_no(l@, clamped(v.scroll as int, l@.len())),
            Err(_) => None,
        },
        None => None,
    }
}

/// `act` opens the selected file in an editor.
pub open spec fn editor_opened(old: App, act: Action) -> bool {
    match (old.selected_repo(), old.selected_file()) {
        (Some(g), Some(f)) => act matches Action::OpenEditor { path, line } && path@
            == joined_path(g.root@, f.path@) && line == editor_line(old.diff),
        _ => act == Action::Nothing,
    }
}

impl App {
    fn next_agent_pane(&mut self) -> (act: Action)
        ensures
            agent_jumped(*old(self), *final(self), act),
    {
        let id = match self.repo() {
            None => {
                return Action::Nothing;
            },
            Some(g) => {
                // Prefer agent panes; fall back to any pane in the repo.
                let panes = jump_indices(&g.panes);
                if panes.len() == 0 {
                    None
                } else {
                    let k: usize = self.agent_cycle % panes.len();
                    Some(g.panes[panes[k]].pane_id.clone())
                }
            },
        };
        match id {
            Some(pane) => {
                self.agent_cycle = self.agent_cycle.wrapping_add(1);
                Action::FocusPane(pane)
            },
            None => {
                self.flash("no herdr pane in this repo");
                Action::Nothing
            },
        }
    }

    fn open_editor(&self) -> (act: Action)
        ensures
            editor_opened(*self, act),
    {
        match (self.repo(), self.file()) {
            (Some(g), Some(f)) => {
                let path = path_join(g.root.as_str(), f.path.as_str());
                // Line of the first change at or below the current scroll position.
                let line = match &self.diff {
                    Some(v) => match &v.lines {
                        Ok(lines) => {
                            let from: usize = step(v.scroll, 0, lines.len());
                            change_from(lines.as_slice(), from)
                        },
                        Err(_) => None,
                    },
                    None => None,
                };
                Action::OpenEditor { path, line }
            },
            _ => Action::Nothing,
        }
    }
}

/// The number of the first line from `from` on that has one.
fn numbered_from(lines: &[DiffLine], from: usize) -> (r: Option<u32>)
    ensures
        r == first_numbered(lines@, from as int),
{
    let mut i: usize = from;
    while i < lines.len()
        invariant
            first_numbered(lines@, from as int) == first_numbered(lines@, i as int),
        decreases lines.len() - i,
    {
        if lines[i].new_no.is_some() && lines[i].kind != LineKind::Meta {
            return lines[i].new_no;
        }
        i += 1;
    }
    None
}

/// Where the first change from line `from` on is in the new version of the file.
fn change_from(lines: &[DiffLine], from: usize) -> (r: Option<u32>)
    ensures
        r == first_change_no(lines@, from as int),
{
    let mut i: usize = from;
    while i < lines.len()
        invariant
            first_change_no(lines@, from as int) == first_change_no(lines@, i as int),
        decreases lines.len() - i,
    {
        if lines[i].kind == LineKind::Added || lines[i].kind == LineKind::Removed {
            return numbered_from(lines, i);
        }
        i += 1;
    }
    None
}

// ---------------------------------------------------------------------------------------
// Staging and committing

impl App {
    /// Git writes are allowed and there is a repo for them.
    pub open spec fn may_write(self) -> bool {
        !self.read_only && self.selected_repo() is Some
    }
}

/// `new` is `old` with the reason why nothing can be written.
pub open spec fn write_refused(old: App, new: App, act: Action) -> bool {
    &&& act == Action::Nothing
    &&& flashed(
        old,
        new,
        if old.read_only {
            "read-only: herdiff was started with --read-only"@
        } else {
            "no repo selected"@
        },
    )
}

/// `act` asks for a git write in the selected repo, one that `wanted` describes.
pub open spec fn write_asked(
    old: App,
    new: App,
    act: Action,
    wanted: spec_fn(GitOp) -> bool,
) -> bool {
    if old.may_write() {
        &&& new == old
        &&& act matches Action::Git { root, op } && Some(root) == old.selected_root() && wanted(op)
    } else {
        write_refused(old, new, act)
    }
}

/// What a key does to a file: stage it, unstage it, or neither. The mode says what the user is
/// looking at: unstage in staged mode, else stage whatever is left, and unstage when nothing is.
pub open spec fn file_toggle(mode: Mode, f: FileChange) -> Option<bool> {
    if mode == Mode::Staged && f.staged() {
        Some(false)
    } else if f.worktree != ' ' {
        Some(true)
    } else if f.staged() {
        Some(false)
    } else {
        None
    }
}

/// `op` stages the one file at `path`.
pub open spec fn stages(op: GitOp, path: String) -> bool {
    op matches GitOp::Stage(p) && p@ == seq![path]
}

/// `op` unstages the one file at `path`.
pub open spec fn unstages(op: GitOp, path: String) -> bool {
    op matches GitOp::Unstage(p) && p@ == seq![path]
}

/// `new` and `act` are what staging or unstaging the selected file comes to.
pub open spec fn file_toggled(old: App, new: App, act: Action) -> bool {
    match old.selected_file() {
        None => new == old && act == Action::Nothing,
        Some(f) => match file_toggle(old.mode, f) {
            Some(true) => write_asked(old, new, act, |op: GitOp| stages(op, f.path)),
            Some(false) => write_asked(old, new, act, |op: GitOp| unstages(op, f.path)),
            None => flashed(old, new, f.path@ + " has no local changes to stage"@) && act
                == Action::Nothing,
        },
    }
}

/// The diff on screen is that of `f` as it is looked at now.
pub open spec fn shows(app: App, v: DiffView, f: FileChange) -> bool {
    &&& Some(v.root@) == crate::text::opt_view(app.selected_root())
    &&& v.path@ == f.path@
    &&& v.mode == app.mode
}

/// The header of the hunk at the top of a diff.
pub open spec fn top_hunk(v: DiffView) -> Option<int> {
    match v.lines {
        Ok(l) => prev_hunk(l@, v.scroll + 1),
        Err(_) => None,
    }
}

/// `op` stages, or with `reverse` unstages, the hunk of `f` that starts at line `start`.
pub open spec fn applies_hunk(
    op: GitOp,
    f: FileChange,
    lines: Seq<DiffLine>,
    start: int,
    undo: bool,
) -> bool {
    op matches GitOp::ApplyHunk { path, hunk, header, reverse } && path == f.path && hunk
        == hunks_above(lines, start) && header == lines[start].text && reverse == undo
}

/// `new` and `act` are what staging or unstaging the hunk at the top of the diff comes to.
pub open spec fn hunk_toggled(old: App, new: App, act: Action) -> bool {
    match old.selected_file() {
        None => new == old && act == Action::Nothing,
        Some(f) => if f.status == Status::Untracked {
            // An untracked file is one hunk anyway.
            write_asked(old, new, act, |op: GitOp| stages(op, f.path))
        } else if old.mode != Mode::Unstaged && old.mode != Mode::Staged {
            &&& act == Action::Nothing
            &&& flashed(
                old,
                new,
                "hunks can be staged in unstaged mode and unstaged in staged mode (m)"@,
            )
        } else {
            match old.diff {
                Some(v) if shows(old, v, f) => match top_hunk(v) {
                    Some(start) => write_asked(
                        old,
                        new,
                        act,
                        |op: GitOp|
                            applies_hunk(op, f, v.lines->Ok_0@, start, old.mode == Mode::Staged),
                    ),
                    None => flashed(old, new, "no hunk here"@) && act == Action::Nothing,
                },
                _ => flashed(old, new, "diff is still loading"@) && act == Action::Nothing,
            }
        },
    }
}

/// `new` and `act` are what the key for staging comes to.
pub open spec fn stage_toggled(old: App, new: App, act: Action) -> bool {
    match old.focus {
        Focus::Diff => hunk_toggled(old, new, act),
        Focus::Files => file_toggled(old, new, act),
        Focus::Repos => new == old && act == Action::Nothing,
    }
}

/// `new` is `old` with the commit box open, or with the reason why it stays shut.
pub open spec fn commit_opened(old: App, new: App, act: Action) -> bool {
    if !old.may_write() {
        write_refused(old, new, act)
    } else if old.selected_stats() is None || old.selected_stats()->0.staged == 0 {
        &&& act == Action::Nothing
        &&& flashed(
            old,
            new,
            "nothing staged: press space on a file or hunk, or A for everything"@,
        )
    } else {
        &&& act == Action::Nothing
        &&& new == App { commit: new.commit, ..old }
        &&& new.commit matches Some(c) && Some(c.root) == old.selected_root() && c.message@
            == Seq::<char>::empty() && !c.busy
    }
}

/// `new` and `act` are what the key for committing in the editor comes to.
pub open spec fn external_commit(old: App, new: App, act: Action) -> bool {
    if old.may_write() {
        &&& new == old
        &&& act matches Action::ExternalCommit { root } && Some(root) == old.selected_root()
    } else {
        write_refused(old, new, act)
    }
}

impl App {
    fn writable_repo(&mut self) -> (r: Option<String>)
        ensures
            match r {
                Some(root) => old(self).may_write() && *final(self) == *old(self) && Some(root)
                    == old(self).selected_root(),
                None => !old(self).may_write() && write_refused(
                    *old(self),
                    *final(self),
                    Action::Nothing,
                ),
            },
    {
        if self.read_only {
            self.flash("read-only: herdiff was started with --read-only");
            return None;
        }
        let root = match self.repo() {
            Some(g) => Some(g.root.clone()),
            None => None,
        };
        if root.is_none() {
            self.flash("no repo selected");
        }
        root
    }

    fn repo_write(&mut self, op: GitOp) -> (act: Action)
        ensures
            write_asked(*old(self), *final(self), act, |o: GitOp| o == op),
    {
        match self.writable_repo() {
            Some(root) => Action::Git { root, op },
            None => Action::Nothing,
        }
    }

    /// `space`: the selected file in the file list, the hunk at the top of the diff.
    fn toggle_stage(&mut self) -> (act: Action)
        ensures
            stage_toggled(*old(self), *final(self), act),
    {
        match self.focus {
            Focus::Diff => self.toggle_stage_hunk(),
            Focus::Files => self.toggle_stage_file(),
            Focus::Repos => Action::Nothing,
        }
    }

    fn toggle_stage_file(&mut self) -> (act: Action)
        ensures
            file_toggled(*old(self), *final(self), act),
    {
        let f = match self.file() {
            Some(f) => f.clone(),
            None => {
                return Action::Nothing;
            },
        };
        let staged = f.has_staged();
        let unstaged = f.has_unstaged();
        let mut paths: Vec<String> = Vec::new();
        paths.push(f.path.clone());
        assert(paths@ =~= seq![f.path]);
        if self.mode == Mode::Staged && staged {
            return self.repo_write(GitOp::Unstage(paths));
        }
        if unstaged {
            return self.repo_write(GitOp::Stage(paths));
        }
        if staged {
            return self.repo_write(GitOp::Unstage(paths));
        }
        let mut msg = f.path.clone();
        msg.append(" has no local changes to stage");
        self.flash(msg.as_str());
        Action::Nothing
    }

    fn toggle_stage_hunk(&mut self) -> (act: Action)
        ensures
            hunk_toggled(*old(self), *final(self), act),
    {
        let f = match self.file() {
            Some(f) => f.clone(),
            None => {
                return Action::Nothing;
            },
        };
        if f.status == Status::Untracked {
            // An untracked file is one hunk anyway.
            let mut paths: Vec<String> = Vec::new();
            paths.push(f.path.clone());
            assert(paths@ =~= seq![f.path]);
            return self.repo_write(GitOp::Stage(paths));
        }
        if self.mode != Mode::Unstaged && self.mode != Mode::Staged {
            self.flash("hunks can be staged in unstaged mode and unstaged in staged mode (m)");
            return Action::Nothing;
        }
        let reverse = self.mode == Mode::Staged;
        let mut loaded = false;
        let mut target: Option<(usize, String)> = None;
        if let (Some(v), Some(g)) = (&self.diff, self.repo()) {
            if same_text(v.root.as_str(), g.root.as_str()) && same_text(
                v.path.as_str(),
                f.path.as_str(),
            ) && v.mode == self.mode {
                loaded = true;
                if let Ok(lines) = &v.lines {
                    if let Some(start) = hunk_start(lines.as_slice(), v.scroll) {
                        target = Some(
                            (hunk_index(lines.as_slice(), start), lines[start].text.clone()),
                        );
                    }
                }
            }
        }
        if !loaded {
            // A refresh can move the selection before the new diff arrives.
            self.flash("diff is still loading");
            return Action::Nothing;
        }
        match target {
            Some((hunk, header)) => self.repo_write(
                GitOp::ApplyHunk { path: f.path, hunk, header, reverse },
            ),
            None => {
                self.flash("no hunk here");
                Action::Nothing
            },
        }
    }

    fn open_commit(&mut self) -> (act: Action)
        ensures
            commit_opened(*old(self), *final(self), act),
    {
        let root = match self.writable_repo() {
            Some(root) => root,
            None => {
                return Action::Nothing;
            },
        };
        if self.staged_count() == 0 {
            self.flash("nothing staged: press space on a file or hunk, or A for everything");
            return Action::Nothing;
        }
        self.commit = Some(CommitBox { root, message: String::new(), busy: false });
        Action::Nothing
    }
}

/// `new` is `old` with `text` as the message in the commit box.
pub open spec fn retyped(old: App, new: App, text: Seq<char>) -> bool {
    &&& new == App { commit: new.commit, ..old }
    &&& new.commit matches Some(c) && c == (CommitBox {
        root: old.commit->0.root,
        message: c.message,
        busy: old.commit->0.busy,
    }) && c.message@ == text
}

/// `new` and `act` are what `key` comes to while the commit box is open.
pub open spec fn commit_typed(old: App, key: KeyEvent, new: App, act: Action) -> bool {
    let c = old.commit->0;
    let ctrl = key.modifiers.control;
    if c.busy {
        // git is running; its result closes or reopens the box
        new == old && act == Action::Nothing
    } else {
        match key.code {
            KeyCode::Esc => new == App { commit: None, ..old } && act == Action::Nothing,
            KeyCode::Enter => retyped(old, new, c.message@.push('\n')) && act == Action::Nothing,
            KeyCode::Tab => retyped(old, new, c.message@ + "    "@) && act == Action::Nothing,
            KeyCode::Backspace => {
                &&& act == Action::Nothing
                &&& retyped(
                    old,
                    new,
                    if c.message@.len() == 0 {
                        c.message@
                    } else {
                        c.message@.drop_last()
                    },
                )
            },
            KeyCode::Char(ch) => if !ctrl {
                retyped(old, new, c.message@.push(ch)) && act == Action::Nothing
            } else if ch == 's' {
                if trim(c.message@).len() == 0 {
                    flashed(old, new, "write a commit message first"@) && act == Action::Nothing
                } else {
                    &&& new == App { commit: Some(CommitBox { busy: true, ..c }), ..old }
                    &&& act == Action::Git {
                        root: c.root,
                        op: GitOp::Commit { message: c.message },
                    }
                }
            } else if ch == 'u' {
                retyped(old, new, Seq::empty()) && act == Action::Nothing
            } else {
                new == old && act == Action::Nothing
            },
            _ => new == old && act == Action::Nothing,
        }
    }
}

/// `text` with each line ended by a bare newline, however it was ended.
pub open spec fn newline_ends(text: Seq<char>) -> Seq<char>
    decreases text.len(),
{
    if text.len() == 0 {
        Seq::empty()
    } else if text[0] != '\r' {
        seq![text[0]] + newline_ends(text.skip(1))
    } else if text.len() > 1 && text[1] == '\n' {
        seq!['\n'] + newline_ends(text.skip(2))
    } else {
        seq!['\n'] + newline_ends(text.skip(1))
    }
}

/// `new` is `old` with `text` pasted: only the commit message takes text.
pub open spec fn pasted(old: App, text: Seq<char>, new: App) -> bool {
    match old.commit {
        Some(c) if !c.busy => retyped(old, new, c.message@ + newline_ends(text)),
        _ => new == old,
    }
}

/// Append `text` with its line ends made uniform.
fn append_pasted(message: &mut String, text: &str)
    ensures
        final(message)@ == old(message)@ + newline_ends(text@),
{
    let v = chars_of(text);
    let ghost start = message@;
    let mut i: usize = 0;
    assert(v@.skip(0) =~= v@);
    while i < v.len()
        invariant
            i <= v.len(),
            v@ == text@,
            message@ + newline_ends(v@.skip(i as int)) == start + newline_ends(v@),
        decreases v.len() - i,
    {
        let ghost rest = v@.skip(i as int);
        let ghost seen = message@;
        if v[i] != '\r' {
            message.push(v[i]);
            assert(rest.skip(1) =~= v@.skip(i + 1));
            assert(seen + (seq![v@[i as int]] + newline_ends(v@.skip(i + 1))) =~= message@
                + newline_ends(v@.skip(i + 1)));
            i += 1;
        } else if i + 1 < v.len() && v[i + 1] == '\n' {
            message.push('\n');
            assert(rest.skip(2) =~= v@.skip(i + 2));
            assert(seen + (seq!['\n'] + newline_ends(v@.skip(i + 2))) =~= message@
                + newline_ends(v@.skip(i + 2)));
            i += 2;
        } else {
            message.push('\n');
            assert(rest.skip(1) =~= v@.skip(i + 1));
            assert(seen + (seq!['\n'] + newline_ends(v@.skip(i + 1))) =~= message@
                + newline_ends(v@.skip(i + 1)));
            i += 1;
        }
    }
    assert(message@ + newline_ends(v@.skip(i as int)) =~= message@);
}

impl App {
    fn commit_key(&mut self, key: KeyEvent) -> (act: Action)
        requires
            old(self).commit is Some,
        ensures
            commit_typed(*old(self), key, *final(self), act),
    {
        let ctrl = key.modifiers.control;
        let c = match self.commit.take() {
            Some(c) => c,
            None => {
                return Action::Nothing;
            },
        };
        if c.busy {
            self.commit = Some(c);
            return Action::Nothing;
        }
        let CommitBox { root, mut message, busy } = c;
        match key.code {
            KeyCode::Esc => {
                return Action::Nothing;
            },
            KeyCode::Enter => {
                message.push('\n');
            },
            KeyCode::Tab => {
                message.append("    ");
            },
            KeyCode::Backspace => {
                let v = chars_of(message.as_str());
                if v.len() > 0 {
                    message = text_of(&v, 0, v.len() - 1);
                    assert(message@ =~= v@.drop_last());
                }
            },
            KeyCode::Char(ch) => {
                if !ctrl {
                    message.push(ch);
                } else if ch == 's' {
                    if trimmed(message.as_str()).as_str().is_empty() {
                        self.commit = Some(CommitBox { root, message, busy });
                        self.flash("write a commit message first");
                        return Action::Nothing;
                    }
                    let act = Action::Git {
                        root: root.clone(),
                        op: GitOp::Commit { message: message.clone() },
                    };
                    self.commit = Some(CommitBox { root, message, busy: true });
                    return act;
                } else if ch == 'u' {
                    message = String::new();
                }
            },
            _ => {},
        }
        self.commit = Some(CommitBox { root, message, busy });
        Action::Nothing
    }

    /// Bracketed paste: only the commit message takes text.
    pub fn on_paste(&mut self, text: &str)
        ensures
            pasted(*old(self), text@, *final(self)),
            old(self).wf() ==> final(self).wf(),
    {
        if let Some(c) = &mut self.commit {
            if !c.busy {
                append_pasted(&mut c.message, text);
            }
        }
    }
}

// ---------------------------------------------------------------------------------------
// Commands

/// `new` is `old` in the next mode.
pub open spec fn mode_switched(old: App, new: App, act: Action) -> bool {
    let mode = old.mode.successor();
    &&& act == Action::Refresh
    &&& flashed(App { mode, diff: None, loading: true, ..old }, new, "mode: "@ + mode.name())
}

/// `new` is `old` in the next scope.
pub open spec fn scope_switched(old: App, new: App, act: Action) -> bool {
    let scope = old.scope.successor(old.here_available);
    &&& act == Action::Refresh
    &&& flashed(App { scope, loading: true, ..old }, new, "scope: "@ + scope.name())
}

/// `new` is `old` with the other layout.
pub open spec fn view_switched(old: App, new: App, act: Action) -> bool {
    &&& act == Action::Nothing
    &&& if old.is_split() {
        flashed(App { view: crate::app::View::Unified, ..old }, new, "unified view"@)
    } else {
        flashed(App { view: crate::app::View::Split, ..old }, new, "side-by-side view"@)
    }
}

/// `new` and `act` are what the key for `c` comes to.
pub open spec fn char_pressed(old: App, c: char, ctrl: bool, new: App, act: Action) -> bool {
    if c == 'q' || (c == 'c' && ctrl) {
        new == old && act == Action::Quit
    } else if c == '?' {
        new == App { show_help: true, ..old } && act == Action::Nothing
    } else if c == 'l' {
        new == App { focus: right_of(old.focus), ..old } && act == Action::Nothing
    } else if c == 'h' {
        new == App { focus: left_of(old.focus), ..old } && act == Action::Nothing
    } else if c == 'j' {
        moved(old, 1, new, act)
    } else if c == 'k' {
        moved(old, -1, new, act)
    } else if c == 'd' && ctrl {
        scrolled(old, old.page_rows() / 2, new, act)
    } else if c == 'u' && ctrl {
        scrolled(old, -(old.page_rows() / 2), new, act)
    } else if c == 'J' {
        scrolled(old, 1, new, act)
    } else if c == 'K' {
        scrolled(old, -1, new, act)
    } else if c == 'f' {
        scrolled(old, old.page_rows(), new, act)
    } else if c == 'b' {
        scrolled(old, -old.page_rows(), new, act)
    } else if c == 'g' {
        scrolled(old, isize::MIN / 2, new, act)
    } else if c == 'G' {
        scrolled(old, isize::MAX / 2, new, act)
    } else if c == ' ' {
        stage_toggled(old, new, act)
    } else if c == 'A' {
        write_asked(old, new, act, |op: GitOp| op == GitOp::StageAll)
    } else if c == 'R' {
        write_asked(old, new, act, |op: GitOp| op == GitOp::UnstageAll)
    } else if c == 'c' {
        commit_opened(old, new, act)
    } else if c == 'C' {
        external_commit(old, new, act)
    } else if c == 'H' {
        shifted(old, -8, new, act)
    } else if c == 'L' {
        shifted(old, 8, new, act)
    } else if c == 'n' {
        hunk_jumped(old, true, new, act)
    } else if c == 'N' || c == 'p' {
        hunk_jumped(old, false, new, act)
    } else if c == ']' {
        file_picked(old, clamped(old.file_idx + 1, old.file_list().len()), new, act)
    } else if c == '[' {
        file_picked(old, clamped(old.file_idx - 1, old.file_list().len()), new, act)
    } else if c == 'm' {
        mode_switched(old, new, act)
    } else if c == 'w' {
        scope_switched(old, new, act)
    } else if c == 'r' {
        new == App { loading: true, ..old } && act == Action::Refresh
    } else if c == 'a' {
        agent_jumped(old, new, act)
    } else if c == 's' {
        view_switched(old, new, act)
    } else if c == 'e' {
        new == old && editor_opened(old, act)
    } else {
        new == old && act == Action::Nothing
    }
}

/// `new` and `act` are what `key` comes to when nothing is open on top of the panels.
pub open spec fn command(old: App, key: KeyEvent, new: App, act: Action) -> bool {
    match key.code {
        KeyCode::Char(c) => char_pressed(old, c, key.modifiers.control, new, act),
        KeyCode::Esc => if old.focus == Focus::Repos {
            new == old && act == Action::Quit
        } else {
            new == App { focus: left_of(old.focus), ..old } && act == Action::Nothing
        },
        KeyCode::Tab | KeyCode::Right | KeyCode::Enter => new == App {
            focus: right_of(old.focus),
            ..old
        } && act == Action::Nothing,
        KeyCode::BackTab | KeyCode::Left => new == App { focus: left_of(old.focus), ..old } && act
            == Action::Nothing,
        KeyCode::Down => moved(old, 1, new, act),
        KeyCode::Up => moved(old, -1, new, act),
        KeyCode::PageDown => scrolled(old, old.page_rows(), new, act),
        KeyCode::PageUp => scrolled(old, -old.page_rows(), new, act),
        KeyCode::Home => scrolled(old, isize::MIN / 2, new, act),
        KeyCode::End => scrolled(old, isize::MAX / 2, new, act),
        _ => new == old && act == Action::Nothing,
    }
}

/// `new` and `act` are what `key` comes to. Whatever is open on top of the panels takes the
/// key: a notice, then the commit box, then the help.
pub open spec fn pressed(old: App, key: KeyEvent, new: App, act: Action) -> bool {
    if old.notice is Some {
        new == App { notice: None, ..old } && act == Action::Nothing
    } else if old.commit is Some {
        commit_typed(old, key, new, act)
    } else if old.show_help {
        new == App { show_help: false, ..old } && act == Action::Nothing
    } else {
        command(old, key, new, act)
    }
}

impl App {
    /// Handle a key.
    pub fn on_key(&mut self, key: KeyEvent) -> (act: Action)
        ensures
            pressed(*old(self), key, *final(self), act),
    {
        if self.notice.is_some() {
            self.notice = None;
            return Action::Nothing;
        }
        if self.commit.is_some() {
            return self.commit_key(key);
        }
        if self.show_help {
            self.show_help = false;
            return Action::Nothing;
        }
        match key.code {
            KeyCode::Char(c) => self.char_key(c, key.modifiers.control),
            KeyCode::Esc => {
                if self.focus == Focus::Repos {
                    Action::Quit
                } else {
                    self.focus_prev();
                    Action::Nothing
                }
            },
            KeyCode::Tab | KeyCode::Right | KeyCode::Enter => {
                self.focus_next();
                Action::Nothing
            },
            KeyCode::BackTab | KeyCode::Left => {
                self.focus_prev();
                Action::Nothing
            },
            KeyCode::Down => self.move_sel(1),
            KeyCode::Up => self.move_sel(-1),
            KeyCode::PageDown => {
                let n: isize = self.page();
                self.scroll_diff(n)
            },
            KeyCode::PageUp => {
                let n: isize = self.page();
                self.scroll_diff(-n)
            },
            KeyCode::Home => self.scroll_diff(isize::MIN / 2),
            KeyCode::End => self.scroll_diff(isize::MAX / 2),
            _ => Action::Nothing,
        }
    }

    fn char_key(&mut self, c: char, ctrl: bool) -> (act: Action)
        ensures
            char_pressed(*old(self), c, ctrl, *final(self), act),
    {
        match c {
            'c' if ctrl => Action::Quit,
            'q' => Action::Quit,
            '?' => {
                self.show_help = true;
                Action::Nothing
            },
            'l' => {
                self.focus_next();
                Action::Nothing
            },
            'h' => {
                self.focus_prev();
                Action::Nothing
            },
            'j' => self.move_sel(1),
            'k' => self.move_sel(-1),
            'd' if ctrl => {
                let n: isize = self.page();
                self.scroll_diff(n / 2)
            },
            'u' if ctrl => {
                let n: isize = self.page();
                self.scroll_diff(-(n / 2))
            },
            'J' => self.scroll_diff(1),
            'K' => self.scroll_diff(-1),
            'f' => {
                let n: isize = self.page();
                self.scroll_diff(n)
            },
            'b' => {
                let n: isize = self.page();
                self.scroll_diff(-n)
            },
            'g' => self.scroll_diff(isize::MIN / 2),
            'G' => self.scroll_diff(isize::MAX / 2),
            ' ' => self.toggle_stage(),
            'A' => self.repo_write(GitOp::StageAll),
            'R' => self.repo_write(GitOp::UnstageAll),
            'c' => self.open_commit(),
            'C' => match self.writable_repo() {
                Some(root) => Action::ExternalCommit { root },
                None => Action::Nothing,
            },
            'H' => self.hscroll(-8),
            'L' => self.hscroll(8),
            'n' => self.jump_hunk(true),
            'N' => self.jump_hunk(false),
            'p' => self.jump_hunk(false),
            ']' => self.step_file(1),
            '[' => self.step_file(-1),
            'm' => self.switch_mode(),
            'w' => self.switch_scope(),
            'r' => {
                self.loading = true;
                Action::Refresh
            },
            'a' => self.next_agent_pane(),
            's' => self.switch_view(),
            'e' => self.open_editor(),
            _ => Action::Nothing,
        }
    }

    fn switch_mode(&mut self) -> (act: Action)
        ensures
            mode_switched(*old(self), *final(self), act),
    {
        self.mode = self.mode.next();
        self.diff = None;
        self.loading = true;
        let mut msg = "mode: ".to_owned();
        msg.append(self.mode.label());
        self.flash(msg.as_str());
        Action::Refresh
    }

    fn switch_scope(&mut self) -> (act: Action)
        ensures
            scope_switched(*old(self), *final(self), act),
    {
        self.scope = self.scope.next(self.here_available);
        self.loading = true;
        let mut msg = "scope: ".to_owned();
        msg.append(self.scope.label());
        self.flash(msg.as_str());
        Action::Refresh
    }

    fn switch_view(&mut self) -> (act: Action)
        ensures
            view_switched(*old(self), *final(self), act),
    {
        if self.split_active() {
            self.view = crate::app::View::Unified;
            self.flash("unified view");
        } else {
            self.view = crate::app::View::Split;
            self.flash("side-by-side view");
        }
        Action::Nothing
    }
}

} // verus!
