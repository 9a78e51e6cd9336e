//! Application state and input handling.

use vstd::hash_map::StringHashMap;
use vstd::prelude::*;
use vstd::string::*;
use vstd::view::View as _;

use crate::diff::{
    hunk_from, kinds, lays_out, next_hunk, split_rows, DiffLine, Row, Rows,
};
use crate::git::{FileChange, GitOp, Mode, RepoStats};
use crate::highlight::Highlights;
use crate::input::Rect;
use crate::model::{PaneRef, RepoGroup};
use crate::scope::{Scope, Target};
use crate::text::{opt_clone, opt_view, same_opt_text, same_text, views};
use crate::worker::{DiffResult, GitDone, Refreshed};

verus! {

/// A point in time.
#[verifier::external_type_specification]
#[verifier::external_body]
pub struct ExInstant(std::time::Instant);

/// `std::time::Instant::now`: the time of the call. Nothing is claimed of it.
#[verifier::external_body]
fn now() -> (r: std::time::Instant) {
    std::time::Instant::now()
}

#[derive(Debug, Clone, Copy, PartialEq, Eq, Structural)]
pub enum Focus {
    Repos,
    Files,
    Diff,
}

#[derive(Debug, Clone, Copy, PartialEq, Eq, Structural)]
pub enum View {
    /// Split when the diff panel is wide enough.
    Auto,
    Unified,
    Split,
}

/// Diff panel width (columns) at which `View::Auto` switches to side-by-side.
pub const AUTO_SPLIT_WIDTH: usize = 140;

pub struct DiffView {
    pub root: String,
    pub path: String,
    pub mode: Mode,
    pub lines: Result<Vec<DiffLine>, String>,
    pub highlights: Highlights,
    pub unified: Rows,
    pub split: Rows,
    /// Index of the line anchored at the top of the viewport. Stored as a line (not a row)
    /// so the position survives switching between unified and split layouts.
    pub scroll: usize,
    pub hscroll: usize,
}

/// `n` held between 0 and the last index of a list of `len`; 0 for an empty list.
pub open spec fn clamped(n: int, len: nat) -> int {
    if n < 0 || len == 0 {
        0
    } else if n >= len {
        len - 1
    } else {
        n
    }
}

/// Where `delta` steps from `from` lead in a list of `len`.
pub(crate) fn step(from: usize, delta: isize, len: usize) -> (r: usize)
    ensures
        r == clamped(from + delta, len as nat),
{
    let n: i128 = from as i128 + delta as i128;
    if n < 0 || len == 0 {
        0
    } else if n >= len as i128 {
        len - 1
    } else {
        n as usize
    }
}

pub(crate) fn clamp(idx: isize, len: usize) -> (r: usize)
    ensures
        r == clamped(idx as int, len as nat),
{
    step(0, idx, len)
}

impl DiffView {
    /// The layouts fit the lines, and the line at the top is one of them.
    pub open spec fn wf(self) -> bool {
        match self.lines {
            Ok(l) => {
                &&& lays_out(self.unified.rows@, self.unified.line_row@, l@.len() as int)
                &&& lays_out(self.split.rows@, self.split.line_row@, l@.len() as int)
                &&& self.scroll < l@.len() || self.scroll == 0
            },
            Err(_) => {
                &&& self.unified.rows@.len() == 0
                &&& self.split.rows@.len() == 0
                &&& self.scroll == 0
            },
        }
    }

    /// The layout in use.
    pub open spec fn layout(self, split: bool) -> Rows {
        if split {
            self.split
        } else {
            self.unified
        }
    }

    pub fn rows(&self, split: bool) -> (r: &Rows)
        ensures
            *r == self.layout(split),
    {
        if split {
            &self.split
        } else {
            &self.unified
        }
    }

    /// The row at the top of the viewport.
    pub open spec fn top(self, split: bool) -> usize {
        let line_row = self.layout(split).line_row@;
        if self.scroll < line_row.len() {
            line_row[self.scroll as int]
        } else {
            0
        }
    }

    pub fn top_row(&self, split: bool) -> (r: usize)
        ensures
            r == self.top(split),
    {
        let rows = self.rows(split);
        if self.scroll < rows.line_row.len() {
            rows.line_row[self.scroll]
        } else {
            0
        }
    }

    /// The line at the top after scrolling by `delta` rows.
    pub open spec fn scrolled_to(self, split: bool, delta: int) -> usize {
        let rows = self.layout(split).rows@;
        if rows.len() == 0 {
            self.scroll
        } else {
            rows[clamped(self.top(split) + delta, rows.len())].anchor_line()
        }
    }

    /// Scroll by `delta` rows.
    pub(crate) fn scroll_rows(&mut self, split: bool, delta: isize)
        ensures
            *final(self) == (DiffView {
                scroll: old(self).scrolled_to(split, delta as int),
                ..*old(self)
            }),
    {
        let top: usize = self.top_row(split);
        let rows = self.rows(split);
        if rows.rows.len() == 0 {
            return ;
        }
        let target: usize = step(top, delta, rows.rows.len());
        let line: usize = rows.rows[target].anchor();
        self.scroll = line;
    }
}

/// Whichever layout is in use, the row at the top of the viewport shows the line the diff is
/// scrolled to; so switching layouts keeps the same code on screen.
pub proof fn law_top_row_shows_scroll_line(v: DiffView, split: bool)
    requires
        v.wf(),
        v.lines matches Ok(l) && l@.len() > 0,
    ensures
        v.top(split) < v.layout(split).rows@.len(),
        v.layout(split).rows@[v.top(split) as int].holds(v.scroll as int),
{
}

/// Scrolling keeps a diff view well-formed, leads to the first line of the row that is
/// `delta` rows away, held to the rows there are, and puts that row at the top.
pub proof fn law_scrolling_moves_by_rows(v: DiffView, split: bool, delta: int)
    requires
        v.wf(),
    ensures
        (DiffView { scroll: v.scrolled_to(split, delta), ..v }).wf(),
        v.layout(split).rows@.len() > 0 ==> (DiffView {
            scroll: v.scrolled_to(split, delta),
            ..v
        }).top(split) == clamped(v.top(split) + delta, v.layout(split).rows@.len()),
{
    let rows = v.layout(split).rows@;
    if rows.len() > 0 {
        let q = clamped(v.top(split) + delta, rows.len());
        assert(rows[q].holds(rows[q].anchor_line() as int));
    }
}

/// Selection remembered per scope target, restored when you come back to it.
#[derive(Debug, PartialEq, Eq)]
pub struct Saved {
    pub root: String,
    pub path: Option<String>,
    pub scroll: usize,
    pub hscroll: usize,
}

impl Clone for Saved {
    fn clone(&self) -> (r: Self)
        ensures
            r == *self,
    {
        Saved {
            root: self.root.clone(),
            path: opt_clone(&self.path),
            scroll: self.scroll,
            hscroll: self.hscroll,
        }
    }
}

/// Panel rectangles and list offsets from the last frame, for mouse hit-testing.
#[derive(Debug, Clone, Copy, PartialEq, Eq, Structural)]
pub struct HitMap {
    pub repos: Rect,
    pub files: Rect,
    pub diff: Rect,
    pub repos_offset: usize,
    pub files_offset: usize,
}

impl HitMap {
    /// Before the first frame there is nothing to hit.
    pub open spec fn unset() -> HitMap {
        let nowhere = Rect { x: 0, y: 0, width: 0, height: 0 };
        HitMap {
            repos: nowhere,
            files: nowhere,
            diff: nowhere,
            repos_offset: 0,
            files_offset: 0,
        }
    }
}

impl Default for HitMap {
    fn default() -> (r: Self)
        ensures
            r == HitMap::unset(),
    {
        HitMap {
            repos: Rect::default(),
            files: Rect::default(),
            diff: Rect::default(),
            repos_offset: 0,
            files_offset: 0,
        }
    }
}

/// Rows moved per mouse wheel notch in the diff.
pub const WHEEL_ROWS: isize = 3;

/// Columns moved per horizontal wheel notch.
pub const WHEEL_COLS: isize = 8;

/// Side effects the main loop must perform after handling input.
#[derive(Debug, PartialEq, Eq)]
pub enum Action {
    /// There is nothing to do.
    Nothing,
    Quit,
    Refresh,
    LoadDiff,
    FocusPane(String),
    OpenEditor { path: String, line: Option<u32> },
    /// Run a git write in the worker.
    Git { root: String, op: GitOp },
    /// Suspend the TUI and run an interactive `git commit` (editor, signing prompts).
    ExternalCommit { root: String },
}

/// The inline commit message editor.
#[derive(Debug, PartialEq, Eq)]
pub struct CommitBox {
    pub root: String,
    pub message: String,
    /// Waiting for `git commit` (hooks can take a while).
    pub busy: bool,
}

/// A modal message, for errors and hook output that don't fit the status bar.
#[derive(Debug, PartialEq, Eq)]
pub struct Notice {
    pub title: String,
    pub body: String,
}

pub struct App {
    pub mode: Mode,
    pub groups: Vec<RepoGroup>,
    pub non_repo_panes: usize,
    pub herdr_error: Option<String>,
    pub repo_idx: usize,
    pub file_idx: usize,
    pub focus: Focus,
    pub diff: Option<DiffView>,
    pub last_refresh: Option<std::time::Instant>,
    pub loading: bool,
    pub show_help: bool,
    pub message: Option<(String, std::time::Instant)>,
    /// Height of the diff viewport, set by the renderer (for paging).
    pub diff_height: usize,
    /// Inner width of the diff panel, set by the renderer (for `View::Auto`).
    pub diff_width: usize,
    pub view: View,
    pub scope: Scope,
    /// Resolved scope of the data on screen; `None` until the first refresh.
    pub target: Option<Target>,
    /// Whether `Scope::Here` makes sense (herdiff runs inside a herdr pane).
    pub here_available: bool,
    /// Agent panes of the repo that were jumped to so far.
    pub agent_cycle: usize,
    /// Selections by the key of their target.
    pub saved: StringHashMap<Saved>,
    /// Scroll to restore once the diff of a remembered file arrives.
    pub pending_scroll: Option<Saved>,
    /// Set by the renderer every frame.
    pub hit: HitMap,
    /// Started with `--read-only`: no staging or committing.
    pub read_only: bool,
    pub commit: Option<CommitBox>,
    pub notice: Option<Notice>,
}

/// `new` is `old` with a message to show.
pub open spec fn flashed(old: App, new: App, msg: Seq<char>) -> bool {
    &&& new == App { message: new.message, ..old }
    &&& new.message matches Some(m) && m.0@ == msg
}

impl App {
    pub fn new(mode: Mode, view: View) -> (r: Self)
        ensures
            r.mode == mode,
            r.view == view,
            r.groups@.len() == 0,
            r.non_repo_panes == 0,
            r.herdr_error is None,
            r.repo_idx == 0,
            r.file_idx == 0,
            r.focus == Focus::Repos,
            r.diff is None,
            r.last_refresh is None,
            r.loading,
            !r.show_help,
            r.message is None,
            r.diff_height == 20,
            r.diff_width == 80,
            r.scope == Scope::All,
            r.target is None,
            !r.here_available,
            r.agent_cycle == 0,
            r.saved@ == Map::<Seq<char>, Saved>::empty(),
            r.pending_scroll is None,
            r.hit == HitMap::unset(),
            !r.read_only,
            r.commit is None,
            r.notice is None,
            r.wf(),
    {
        App {
            mode,
            groups: Vec::new(),
            non_repo_panes: 0,
            herdr_error: None,
            repo_idx: 0,
            file_idx: 0,
            focus: Focus::Repos,
            diff: None,
            last_refresh: None,
            loading: true,
            show_help: false,
            message: None,
            diff_height: 20,
            diff_width: 80,
            view,
            scope: Scope::All,
            target: None,
            here_available: false,
            agent_cycle: 0,
            saved: StringHashMap::new(),
            pending_scroll: None,
            hit: HitMap::default(),
            read_only: false,
            commit: None,
            notice: None,
        }
    }

    pub fn with_scope(self, scope: Scope, here_available: bool) -> (r: Self)
        ensures
            r == (App { scope, here_available, ..self }),
    {
        let mut app = self;
        app.scope = scope;
        app.here_available = here_available;
        app
    }

    /// The selections are in range, and the diff on screen is well-formed.
    pub open spec fn wf(self) -> bool {
        &&& self.repo_idx < self.groups@.len() || self.repo_idx == 0
        &&& self.file_idx < self.file_list().len() || self.file_idx == 0
        &&& self.diff matches Some(v) ==> v.wf()
    }

    /// The selected repo.
    pub open spec fn selected_repo(self) -> Option<RepoGroup> {
        if self.repo_idx < self.groups@.len() {
            Some(self.groups@[self.repo_idx as int])
        } else {
            None
        }
    }

    /// The state of the selected repo, where git could tell it.
    pub open spec fn selected_stats(self) -> Option<RepoStats> {
        match self.selected_repo() {
            Some(g) => match g.stats {
                Ok(s) => Some(s),
                Err(_) => None,
            },
            None => None,
        }
    }

    /// The changed files of the selected repo.
    pub open spec fn file_list(self) -> Seq<FileChange> {
        match self.selected_stats() {
            Some(s) => s.files@,
            None => Seq::empty(),
        }
    }

    /// The selected file.
    pub open spec fn selected_file(self) -> Option<FileChange> {
        if self.file_idx < self.file_list().len() {
            Some(self.file_list()[self.file_idx as int])
        } else {
            None
        }
    }

    pub fn repo(&self) -> (r: Option<&RepoGroup>)
        ensures
            match r {
                Some(g) => self.selected_repo() == Some(*g),
                None => self.selected_repo() is None,
            },
    {
        if self.repo_idx < self.groups.len() {
            Some(&self.groups[self.repo_idx])
        } else {
            None
        }
    }

    pub fn files(&self) -> (r: &[FileChange])
        ensures
            r@ == self.file_list(),
    {
        match self.repo() {
            Some(g) => match &g.stats {
                Ok(s) => s.files.as_slice(),
                Err(_) => &[],
            },
            None => &[],
        }
    }

    pub fn file(&self) -> (r: Option<&FileChange>)
        ensures
            match r {
                Some(f) => self.selected_file() == Some(*f),
                None => self.selected_file() is None,
            },
    {
        let files = self.files();
        if self.file_idx < files.len() {
            Some(&files[self.file_idx])
        } else {
            None
        }
    }

    /// The side-by-side layout is in use.
    pub open spec fn is_split(self) -> bool {
        match self.view {
            View::Split => true,
            View::Unified => false,
            View::Auto => self.diff_width >= AUTO_SPLIT_WIDTH,
        }
    }

    pub fn split_active(&self) -> (r: bool)
        ensures
            r == self.is_split(),
    {
        match self.view {
            View::Split => true,
            View::Unified => false,
            View::Auto => self.diff_width >= AUTO_SPLIT_WIDTH,
        }
    }

    /// Show a message for a while.
    pub fn flash(&mut self, msg: &str)
        ensures
            flashed(*old(self), *final(self), msg@),
    {
        self.message = Some((msg.to_owned(), now()));
    }

    /// Number of files of the selected repo with something in the index.
    pub fn staged_count(&self) -> (r: usize)
        ensures
            r == (match self.selected_stats() {
                Some(s) => s.staged,
                None => 0,
            }),
    {
        match self.repo() {
            Some(g) => match &g.stats {
                Ok(s) => s.staged,
                Err(_) => 0,
            },
            None => 0,
        }
    }

    /// Agents currently working in the selected repo, for the commit warning.
    pub fn working_agents(&self) -> (r: Vec<String>)
        ensures
            views(r@) == (match self.selected_repo() {
                Some(g) => working(g.panes@),
                None => Seq::empty(),
            }),
    {
        let mut out: Vec<String> = Vec::new();
        if let Some(g) = self.repo() {
            let mut i: usize = 0;
            while i < g.panes.len()
                invariant
                    i <= g.panes.len(),
                    views(out@) == working(g.panes@.take(i as int)),
                decreases g.panes.len() - i,
            {
                let p = &g.panes[i];
                let ghost seen = out@;
                assert(g.panes@.take(i + 1).drop_last() =~= g.panes@.take(i as int));
                let is_working = match &p.status {
                    Some(s) => same_text(s.as_str(), "working"),
                    None => false,
                };
                if is_working {
                    if let Some(a) = &p.agent {
                        out.push(a.clone());
                        assert(views(out@) =~= views(seen).push(a@));
                    }
                }
                i += 1;
            }
            assert(g.panes@.take(i as int) =~= g.panes@);
        }
        assert(self.selected_repo() is None ==> views(out@) =~= Seq::<Seq<char>>::empty());
        out
    }
}

/// The agents of the panes that are at work.
pub open spec fn working(panes: Seq<PaneRef>) -> Seq<Seq<char>>
    decreases panes.len(),
{
    if panes.len() == 0 {
        Seq::empty()
    } else {
        let rest = working(panes.drop_last());
        let p = panes.last();
        if opt_view(p.status) == Some("working"@) && p.agent is Some {
            rest.push(p.agent->0@)
        } else {
            rest
        }
    }
}

// ---------------------------------------------------------------------------------------
// Results from the worker

/// Index of the first repo at `root`.
pub open spec fn repo_position(groups: Seq<RepoGroup>, root: Seq<char>) -> Option<int>
    decreases groups.len(),
{
    if groups.len() == 0 {
        None
    } else {
        match repo_position(groups.drop_last(), root) {
            Some(i) => Some(i),
            None => if groups.last().root@ == root {
                Some(groups.len() - 1)
            } else {
                None
            },
        }
    }
}

/// Index of the first file at `path`.
pub open spec fn file_position(files: Seq<FileChange>, path: Seq<char>) -> Option<int>
    decreases files.len(),
{
    if files.len() == 0 {
        None
    } else {
        match file_position(files.drop_last(), path) {
            Some(i) => Some(i),
            None => if files.last().path@ == path {
                Some(files.len() - 1)
            } else {
                None
            },
        }
    }
}

/// Find a repo.
fn find_repo(groups: &Vec<RepoGroup>, root: &str) -> (r: Option<usize>)
    ensures
        match r {
            Some(i) => repo_position(groups@, root@) == Some(i as int) && i < groups@.len(),
            None => repo_position(groups@, root@) is None,
        },
{
    let mut i: usize = 0;
    while i < groups.len()
        invariant
            i <= groups.len(),
            repo_position(groups@.take(i as int), root@) is None,
        decreases groups.len() - i,
    {
        assert(groups@.take(i + 1).drop_last() =~= groups@.take(i as int));
        if same_text(groups[i].root.as_str(), root) {
            proof {
                lemma_repo_position_prefix(groups@, root@, i + 1);
            }
            return Some(i);
        }
        i += 1;
    }
    assert(groups@.take(i as int) =~= groups@);
    None
}

proof fn lemma_repo_position_prefix(groups: Seq<RepoGroup>, root: Seq<char>, n: int)
    requires
        0 <= n <= groups.len(),
        repo_position(groups.take(n), root) is Some,
    ensures
        repo_position(groups, root) == repo_position(groups.take(n), root),
    decreases groups.len() - n,
{
    if n < groups.len() {
        assert(groups.take(n + 1).drop_last() =~= groups.take(n));
        lemma_repo_position_prefix(groups, root, n + 1);
    } else {
        assert(groups.take(n) =~= groups);
    }
}

/// Find a file.
fn find_file(files: &[FileChange], path: &str) -> (r: Option<usize>)
    ensures
        match r {
            Some(i) => file_position(files@, path@) == Some(i as int) && i < files@.len(),
            None => file_position(files@, path@) is None,
        },
{
    let mut i: usize = 0;
    while i < files.len()
        invariant
            i <= files.len(),
            file_position(files@.take(i as int), path@) is None,
        decreases files.len() - i,
    {
        assert(files@.take(i + 1).drop_last() =~= files@.take(i as int));
        if same_text(files[i].path.as_str(), path) {
            proof {
                lemma_file_position_prefix(files@, path@, i + 1);
            }
            return Some(i);
        }
        i += 1;
    }
    assert(files@.take(i as int) =~= files@);
    None
}

proof fn lemma_file_position_prefix(files: Seq<FileChange>, path: Seq<char>, n: int)
    requires
        0 <= n <= files.len(),
        file_position(files.take(n), path) is Some,
    ensures
        file_position(files, path) == file_position(files.take(n), path),
    decreases files.len() - n,
{
    if n < files.len() {
        assert(files.take(n + 1).drop_last() =~= files.take(n));
        lemma_file_position_prefix(files, path, n + 1);
    } else {
        assert(files.take(n) =~= files);
    }
}

/// An index that was looked up, or else the one from before, held to a list of `len`.
pub open spec fn kept(found: Option<int>, otherwise: int, len: nat) -> int {
    match found {
        Some(i) => clamped(i, len),
        None => clamped(otherwise, len),
    }
}

impl App {
    /// Root of the selected repo.
    pub open spec fn selected_root(self) -> Option<String> {
        match self.selected_repo() {
            Some(g) => Some(g.root),
            None => None,
        }
    }

    /// Path of the selected file.
    pub open spec fn selected_path(self) -> Option<String> {
        match self.selected_file() {
            Some(f) => Some(f.path),
            None => None,
        }
    }

    /// The result is for another mode or scope than the one on screen.
    pub open spec fn outdates(self, r: Refreshed) -> bool {
        r.mode != self.mode || r.target.scope != self.scope
    }

    /// The result is for another target than the data on screen.
    pub open spec fn moves_to(self, target: Target) -> bool {
        match self.target {
            Some(t) => t.slot() != target.slot(),
            None => true,
        }
    }

    /// Where the selected file is scrolled to: in the diff on screen if that is the file's, in
    /// the position to restore if its diff is still to come.
    pub open spec fn position(self) -> (usize, usize) {
        let root = opt_view(self.selected_root());
        let path = opt_view(self.selected_path());
        match self.diff {
            Some(v) if Some(v.root@) == root && Some(v.path@) == path => (v.scroll, v.hscroll),
            _ => match self.pending_scroll {
                Some(p) if Some(p.root@) == root && opt_view(p.path) == path => (
                    p.scroll,
                    p.hscroll,
                ),
                _ => (0, 0),
            },
        }
    }

    /// The selection, to be remembered.
    pub open spec fn selection(self) -> Option<Saved> {
        match self.selected_root() {
            Some(root) => Some(
                Saved {
                    root,
                    path: self.selected_path(),
                    scroll: self.position().0,
                    hscroll: self.position().1,
                },
            ),
            None => None,
        }
    }

    /// The remembered selections once the view moves to another target.
    pub open spec fn parked(self) -> Map<Seq<char>, Saved> {
        match (self.target, self.selection()) {
            (Some(t), Some(sel)) => self.saved@.insert(t.slot(), sel),
            _ => self.saved@,
        }
    }

    /// The selection that is remembered for a target the view moves to.
    pub open spec fn restored(self, target: Target) -> Option<Saved> {
        if self.parked().contains_key(target.slot()) {
            Some(self.parked()[target.slot()])
        } else {
            None
        }
    }
}

/// `new` is what `old` becomes when `r` arrives, and `load` tells whether the selected file's
/// diff should be loaded.
pub open spec fn refreshed(old: App, r: Refreshed, new: App, load: bool) -> bool {
    if old.outdates(r) {
        new == old && !load
    } else {
        let moved = old.moves_to(r.target);
        let back = old.restored(r.target);
        let root = if moved {
            match back {
                Some(s) => Some(s.root@),
                None => None,
            }
        } else {
            opt_view(old.selected_root())
        };
        let path = if moved {
            match back {
                Some(s) => opt_view(s.path),
                None => None,
            }
        } else {
            opt_view(old.selected_path())
        };
        let found = match root {
            Some(x) => repo_position(r.groups@, x),
            None => None,
        };
        let repo_idx = kept(found, if moved { 0 } else { old.repo_idx as int }, r.groups@.len());
        let files = (App { groups: r.groups, repo_idx: repo_idx as usize, ..old }).file_list();
        let found_file = match path {
            Some(x) => file_position(files, x),
            None => None,
        };
        let file_idx = kept(found_file, if moved { 0 } else { old.file_idx as int }, files.len());
        &&& new == App {
            target: Some(r.target),
            groups: r.groups,
            non_repo_panes: r.non_repo_panes,
            herdr_error: r.herdr_error,
            last_refresh: new.last_refresh,
            loading: false,
            repo_idx: repo_idx as usize,
            file_idx: file_idx as usize,
            diff: if moved || files.len() == 0 { None } else { old.diff },
            agent_cycle: if moved { 0 } else { old.agent_cycle },
            saved: new.saved,
            pending_scroll: if moved { back } else { old.pending_scroll },
            ..old
        }
        &&& new.last_refresh is Some
        &&& new.saved@ == (if moved { old.parked() } else { old.saved@ })
        &&& load == (files.len() > 0)
    }
}

impl App {
    /// Where the selected file is scrolled to.
    fn current_position(&self) -> (r: (usize, usize))
        ensures
            r == self.position(),
    {
        let root = match self.repo() {
            Some(g) => Some(g.root.clone()),
            None => None,
        };
        let path = match self.file() {
            Some(f) => Some(f.path.clone()),
            None => None,
        };
        assert(opt_view(root) == opt_view(self.selected_root()));
        assert(opt_view(path) == opt_view(self.selected_path()));
        if let (Some(r), Some(p), Some(v)) = (&root, &path, &self.diff) {
            if same_text(v.root.as_str(), r.as_str()) && same_text(v.path.as_str(), p.as_str()) {
                return (v.scroll, v.hscroll);
            }
        }
        if let (Some(r), Some(p)) = (&root, &self.pending_scroll) {
            if same_text(p.root.as_str(), r.as_str()) && same_opt_text(&p.path, &path) {
                return (p.scroll, p.hscroll);
            }
        }
        (0, 0)
    }

    /// Remember the selection under the target it was made for.
    fn park(&mut self)
        ensures
            *final(self) == (App { saved: final(self).saved, ..*old(self) }),
            final(self).saved@ == old(self).parked(),
    {
        let (scroll, hscroll) = self.current_position();
        let path = match self.file() {
            Some(f) => Some(f.path.clone()),
            None => None,
        };
        let entry = match (&self.target, self.repo()) {
            (Some(t), Some(g)) => Some(
                (t.key(), Saved { root: g.root.clone(), path, scroll, hscroll }),
            ),
            _ => None,
        };
        if let Some((key, sel)) = entry {
            assert(old(self).selection() == Some(sel));
            self.saved.insert(key, sel);
        }
    }

    /// Apply refreshed data, preserving selection by repo root and file path.
    /// Returns true when the selected file's diff should be (re)loaded.
    #[verifier::rlimit(60)]
    #[verifier::spinoff_prover]
    pub fn apply_refresh(&mut self, r: Refreshed) -> (load: bool)
        ensures
            refreshed(*old(self), r, *final(self), load),
            old(self).wf() ==> final(self).wf(),
    {
        if r.mode != self.mode || r.target.scope != self.scope {
            return false;  // stale result from before a mode or scope switch
        }
        let mut prev_root = match self.repo() {
            Some(g) => Some(g.root.clone()),
            None => None,
        };
        let mut prev_path = match self.file() {
            Some(f) => Some(f.path.clone()),
            None => None,
        };
        let new_key = r.target.key();
        let moved = match &self.target {
            Some(t) => !same_text(t.key().as_str(), new_key.as_str()),
            None => true,
        };
        if moved {
            // Scope moved to another workspace: park this selection, restore that one's.
            self.park();
            let back = match self.saved.get(new_key.as_str()) {
                Some(s) => Some(s.clone()),
                None => None,
            };
            assert(back == old(self).restored(r.target));
            prev_root = match &back {
                Some(s) => Some(s.root.clone()),
                None => None,
            };
            prev_path = match &back {
                Some(s) => opt_clone(&s.path),
                None => None,
            };
            self.pending_scroll = back;
            self.diff = None;
            self.repo_idx = 0;
            self.file_idx = 0;
            self.agent_cycle = 0;
        }
        self.target = Some(r.target);
        self.groups = r.groups;
        self.non_repo_panes = r.non_repo_panes;
        self.herdr_error = r.herdr_error;
        self.last_refresh = Some(now());
        self.loading = false;
        let found = match &prev_root {
            Some(root) => find_repo(&self.groups, root.as_str()),
            None => None,
        };
        self.repo_idx = held(found, self.repo_idx, self.groups.len());
        let found_file = match &prev_path {
            Some(path) => find_file(self.files(), path.as_str()),
            None => None,
        };
        self.file_idx = held(found_file, self.file_idx, self.files().len());
        // Always reload the selected file's diff: its content may have changed
        // even when +/- counts did not.
        if self.file().is_none() {
            self.diff = None;
            return false;
        }
        true
    }
}

/// An index that was looked up, or else the one from before, held to a list of `len`.
fn held(found: Option<usize>, otherwise: usize, len: usize) -> (r: usize)
    ensures
        r == kept(
            match found {
                Some(i) => Some(i as int),
                None => None,
            },
            otherwise as int,
            len as nat,
        ),
{
    let n: usize = match found {
        Some(i) => i,
        None => otherwise,
    };
    if len == 0 {
        0
    } else if n >= len {
        len - 1
    } else {
        n
    }
}

/// Where a diff that is shown for the first time is scrolled to: its first hunk.
pub open spec fn first_line(lines: Result<Vec<DiffLine>, String>) -> int {
    match lines {
        Ok(l) => match next_hunk(l@, 0) {
            Some(i) => i,
            None => 0,
        },
        Err(_) => 0,
    }
}

fn first_change(lines: &Result<Vec<DiffLine>, String>) -> (r: usize)
    ensures
        r == first_line(*lines),
        r == 0 || (lines matches Ok(l) && r < l@.len()),
{
    match lines {
        Ok(l) => match hunk_from(l, 0) {
            Some(i) => i,
            None => 0,
        },
        Err(_) => 0,
    }
}

/// Number of lines of a diff.
pub open spec fn line_total(lines: Result<Vec<DiffLine>, String>) -> nat {
    match lines {
        Ok(l) => l@.len(),
        Err(_) => 0,
    }
}

impl App {
    /// The diff is the one of the selected file.
    pub open spec fn expects(self, d: DiffResult) -> bool {
        &&& opt_view(self.selected_root()) == Some(d.root@)
        &&& opt_view(self.selected_path()) == Some(d.path@)
        &&& d.mode == self.mode
    }

    /// A scroll position to go back to when the diff of a file arrives: that of the diff of
    /// this file on screen, else the one that is remembered for it.
    pub open spec fn scroll_for(self, d: DiffResult) -> Option<(usize, usize)> {
        match self.diff {
            Some(v) if v.root@ == d.root@ && v.path@ == d.path@ && v.mode == d.mode => Some(
                (v.scroll, v.hscroll),
            ),
            _ => match self.pending_scroll {
                Some(p) if p.root@ == d.root@ && opt_view(p.path) == Some(d.path@) => Some(
                    (p.scroll, p.hscroll),
                ),
                _ => None,
            },
        }
    }
}

/// The layouts of a view are those of its lines.
pub open spec fn laid_out(v: DiffView) -> bool {
    match v.lines {
        Ok(l) => {
            &&& v.unified.rows@ == Seq::new(l@.len(), |i: int| Row::Full(i as usize))
            &&& v.split.rows@ == split_rows(kinds(l@), 0)
            &&& lays_out(v.unified.rows@, v.unified.line_row@, l@.len() as int)
            &&& lays_out(v.split.rows@, v.split.line_row@, l@.len() as int)
        },
        Err(_) => {
            &&& v.unified.rows@.len() == 0
            &&& v.unified.line_row@.len() == 0
            &&& v.split.rows@.len() == 0
            &&& v.split.line_row@.len() == 0
        },
    }
}

/// `new` is what `old` becomes when `d` arrives.
pub open spec fn diff_arrived(old: App, d: DiffResult, new: App) -> bool {
    if !old.expects(d) {
        new == old
    } else {
        let (scroll, hscroll) = match old.scroll_for(d) {
            Some((s, h)) => (clamped(s as int, line_total(d.lines)), h),
            None => (first_line(d.lines), 0),
        };
        &&& new == App { diff: new.diff, pending_scroll: None, ..old }
        &&& new.diff matches Some(v) && v == (DiffView {
            root: d.root,
            path: d.path,
            mode: d.mode,
            lines: d.lines,
            highlights: d.highlights,
            unified: v.unified,
            split: v.split,
            scroll: scroll as usize,
            hscroll,
        }) && laid_out(v)
    }
}

impl App {
    /// Show the diff of the selected file.
    pub fn apply_diff(&mut self, d: DiffResult)
        ensures
            diff_arrived(*old(self), d, *final(self)),
            old(self).wf() ==> final(self).wf(),
    {
        let wanted = match (self.repo(), self.file()) {
            (Some(g), Some(f)) => same_text(g.root.as_str(), d.root.as_str()) && same_text(
                f.path.as_str(),
                d.path.as_str(),
            ) && d.mode == self.mode,
            _ => false,
        };
        if !wanted {
            return ;  // selection moved on
        }
        let (unified, split) = match &d.lines {
            Ok(l) => (Rows::unified(l.as_slice()), Rows::split(l.as_slice())),
            Err(_) => (Rows::empty(), Rows::empty()),
        };
        let line_count: usize = match &d.lines {
            Ok(l) => l.len(),
            Err(_) => 0,
        };
        let mut back: Option<(usize, usize)> = None;
        if let Some(p) = &self.pending_scroll {
            if let Some(path) = &p.path {
                if same_text(p.root.as_str(), d.root.as_str()) && same_text(
                    path.as_str(),
                    d.path.as_str(),
                ) {
                    back = Some((p.scroll, p.hscroll));
                }
            }
        }
        if let Some(v) = &self.diff {
            if same_text(v.root.as_str(), d.root.as_str()) && same_text(
                v.path.as_str(),
                d.path.as_str(),
            ) && v.mode == d.mode {
                back = Some((v.scroll, v.hscroll));
            }
        }
        assert(back == self.scroll_for(d));
        self.pending_scroll = None;
        let (scroll, hscroll) = match back {
            Some((s, h)) => (held(Some(s), 0, line_count), h),
            None => (first_change(&d.lines), 0),
        };
        self.diff = Some(
            DiffView {
                root: d.root,
                path: d.path,
                mode: d.mode,
                lines: d.lines,
                highlights: d.highlights,
                unified,
                split,
                scroll,
                hscroll,
            },
        );
    }
}

/// What `op` is called when it fails.
pub open spec fn op_title(op: GitOp) -> Seq<char> {
    match op {
        GitOp::Stage(_) => "git add"@,
        GitOp::StageAll => "git add"@,
        GitOp::Unstage(_) => "unstage"@,
        GitOp::UnstageAll => "unstage"@,
        GitOp::ApplyHunk { .. } => "git apply"@,
        GitOp::Commit { .. } => "git commit"@,
    }
}

fn op_name(op: &GitOp) -> (r: &'static str)
    ensures
        r@ == op_title(*op),
{
    match op {
        GitOp::Stage(_) | GitOp::StageAll => "git add",
        GitOp::Unstage(_) | GitOp::UnstageAll => "unstage",
        GitOp::ApplyHunk { .. } => "git apply",
        GitOp::Commit { .. } => "git commit",
    }
}

/// `new` is what `old` becomes when a git write is done. Only a commit that worked closes the
/// commit box; one that failed leaves it open with its message, ready for another try.
pub open spec fn write_done(old: App, done: GitDone, new: App) -> bool {
    match done.result {
        Ok(summary) => flashed(
            if done.op is Commit {
                App { commit: None, ..old }
            } else {
                old
            },
            new,
            summary@,
        ),
        Err(err) => {
            &&& new == App {
                commit: match old.commit {
                    Some(c) if done.op is Commit => Some(CommitBox { busy: false, ..c }),
                    _ => old.commit,
                },
                notice: new.notice,
                ..old
            }
            &&& new.notice matches Some(n) && n.title@ == op_title(done.op) + " failed"@ && n.body
                == err
        },
    }
}

impl App {
    /// A git write finished. The caller refreshes either way.
    pub fn apply_git_done(&mut self, done: GitDone)
        ensures
            write_done(*old(self), done, *final(self)),
            old(self).wf() ==> final(self).wf(),
    {
        let is_commit = match &done.op {
            GitOp::Commit { .. } => true,
            _ => false,
        };
        let mut title = op_name(&done.op).to_owned();
        title.append(" failed");
        match done.result {
            Ok(summary) => {
                if is_commit {
                    self.commit = None;
                }
                self.flash(summary.as_str());
            },
            Err(err) => {
                if is_commit {
                    if let Some(c) = self.commit.take() {
                        // keep the message so a failed hook doesn't lose it
                        self.commit = Some(CommitBox { busy: false, ..c });
                    }
                }
                self.notice = Some(Notice { title, body: err });
            },
        }
    }
}

} // verus!
