//! Git access by way of the `git` CLI: what a repo is compared with, what changed in it, and
//! what can be done about it.

use vstd::prelude::*;
use vstd::string::*;

pub use crate::git_run::{file_diff, repo_root, repo_stats};
use crate::text::chars_of;

verus! {

/// Tree without entries, the base of a repo that has no commits yet.
pub const EMPTY_TREE: &'static str = "4b825dc642cb6eb9a060e54bf8d69288fbee4904";

/// Untracked files larger than this are not counted.
pub const MAX_UNTRACKED_BYTES: u64 = 2 * 1024 * 1024;

#[derive(Debug, Clone, Copy, PartialEq, Eq, Structural)]
pub enum Mode {
    /// Working tree, untracked files too, vs HEAD.
    Uncommitted,
    /// Working tree vs index.
    Unstaged,
    /// Index vs HEAD.
    Staged,
    /// Working tree vs merge-base with the default branch.
    Branch,
}

impl Mode {
    /// The name of the mode.
    pub open spec fn name(self) -> Seq<char> {
        match self {
            Mode::Uncommitted => "uncommitted"@,
            Mode::Unstaged => "unstaged"@,
            Mode::Staged => "staged"@,
            Mode::Branch => "branch"@,
        }
    }

    pub fn label(self) -> (r: &'static str)
        ensures
            r@ == self.name(),
    {
        match self {
            Mode::Uncommitted => "uncommitted",
            Mode::Unstaged => "unstaged",
            Mode::Staged => "staged",
            Mode::Branch => "branch",
        }
    }

    /// The mode after this one.
    pub open spec fn successor(self) -> Mode {
        match self {
            Mode::Uncommitted => Mode::Unstaged,
            Mode::Unstaged => Mode::Staged,
            Mode::Staged => Mode::Branch,
            Mode::Branch => Mode::Uncommitted,
        }
    }

    pub fn next(self) -> (r: Mode)
        ensures
            r == self.successor(),
    {
        match self {
            Mode::Uncommitted => Mode::Unstaged,
            Mode::Unstaged => Mode::Staged,
            Mode::Staged => Mode::Branch,
            Mode::Branch => Mode::Uncommitted,
        }
    }

    pub fn includes_untracked(self) -> (r: bool)
        ensures
            r == (self != Mode::Staged),
    {
        self != Mode::Staged
    }
}

#[derive(Debug, Clone, Copy, PartialEq, Eq, Structural)]
pub enum Status {
    Added,
    Modified,
    Deleted,
    TypeChanged,
    Untracked,
    Other(char),
}

impl Status {
    /// The letter that stands for the status.
    pub open spec fn code(self) -> char {
        match self {
            Status::Added => 'A',
            Status::Modified => 'M',
            Status::Deleted => 'D',
            Status::TypeChanged => 'T',
            Status::Untracked => '?',
            Status::Other(c) => c,
        }
    }

    pub fn letter(self) -> (r: char)
        ensures
            r == self.code(),
    {
        match self {
            Status::Added => 'A',
            Status::Modified => 'M',
            Status::Deleted => 'D',
            Status::TypeChanged => 'T',
            Status::Untracked => '?',
            Status::Other(c) => c,
        }
    }

    /// The status that git writes as `c`.
    pub open spec fn of(c: char) -> Status {
        if c == 'A' {
            Status::Added
        } else if c == 'M' {
            Status::Modified
        } else if c == 'D' {
            Status::Deleted
        } else if c == 'T' {
            Status::TypeChanged
        } else {
            Status::Other(c)
        }
    }

    pub fn from_letter(c: char) -> (r: Status)
        ensures
            r == Status::of(c),
    {
        match c {
            'A' => Status::Added,
            'M' => Status::Modified,
            'D' => Status::Deleted,
            'T' => Status::TypeChanged,
            other => Status::Other(other),
        }
    }
}

#[derive(Debug, PartialEq, Eq)]
pub struct FileChange {
    pub path: String,
    pub status: Status,
    /// `None` for binary files.
    pub added: Option<u32>,
    pub removed: Option<u32>,
    /// State in the index, as `git status` writes it; a space when unchanged.
    pub index: char,
    /// State in the working tree, as `git status` writes it; a space when unchanged.
    pub worktree: char,
}

/// A changed file as a value.
pub struct ChangeView {
    pub path: Seq<char>,
    pub status: Status,
    pub added: Option<u32>,
    pub removed: Option<u32>,
    pub index: char,
    pub worktree: char,
}

impl View for FileChange {
    type V = ChangeView;

    open spec fn view(&self) -> ChangeView {
        ChangeView {
            path: self.path@,
            status: self.status,
            added: self.added,
            removed: self.removed,
            index: self.index,
            worktree: self.worktree,
        }
    }
}

impl Clone for FileChange {
    fn clone(&self) -> (r: Self)
        ensures
            r == *self,
    {
        FileChange {
            path: self.path.clone(),
            status: self.status,
            added: self.added,
            removed: self.removed,
            index: self.index,
            worktree: self.worktree,
        }
    }
}

impl FileChange {
    /// Untracked nested repos are listed by git as `dir/`.
    pub open spec fn names_dir(self) -> bool {
        self.path@.len() > 0 && self.path@.last() == '/'
    }

    /// Untracked nested repos are listed by git as `dir/`.
    pub fn is_dir(&self) -> (r: bool)
        ensures
            r == self.names_dir(),
    {
        let v = chars_of(self.path.as_str());
        v.len() > 0 && v[v.len() - 1] == '/'
    }

    /// Part of the change is in the index.
    pub open spec fn staged(self) -> bool {
        self.index != ' ' && self.index != '?'
    }

    /// Part of the change is in the index.
    pub fn has_staged(&self) -> (r: bool)
        ensures
            r == self.staged(),
    {
        self.index != ' ' && self.index != '?'
    }

    /// Part of the change is not in the index.
    pub fn has_unstaged(&self) -> (r: bool)
        ensures
            r == (self.worktree != ' '),
    {
        self.worktree != ' '
    }
}

#[derive(Debug)]
pub struct RepoStats {
    pub branch: String,
    /// Human description of the diff base (e.g. `HEAD`, `main@abc1234`).
    pub base: String,
    pub files: Vec<FileChange>,
    /// Number of files with something in the index.
    pub staged: usize,
}

impl Default for RepoStats {
    fn default() -> (r: Self)
        ensures
            r.branch@ == Seq::<char>::empty(),
            r.base@ == Seq::<char>::empty(),
            r.files@.len() == 0,
            r.staged == 0,
    {
        RepoStats { branch: String::new(), base: String::new(), files: Vec::new(), staged: 0 }
    }
}

/// Lines added over all files; a binary file adds none.
pub open spec fn added_lines(files: Seq<FileChange>) -> nat
    decreases files.len(),
{
    if files.len() == 0 {
        0
    } else {
        added_lines(files.drop_last()) + count_or_zero(files.last().added)
    }
}

/// Lines removed over all files; a binary file removes none.
pub open spec fn removed_lines(files: Seq<FileChange>) -> nat
    decreases files.len(),
{
    if files.len() == 0 {
        0
    } else {
        removed_lines(files.drop_last()) + count_or_zero(files.last().removed)
    }
}

/// A count, or zero where there is none.
pub open spec fn count_or_zero(n: Option<u32>) -> nat {
    match n {
        Some(k) => k as nat,
        None => 0,
    }
}

impl RepoStats {
    /// Lines added and removed over all files. Sums wrap around past the largest `u32`.
    pub fn totals(&self) -> (r: (u32, u32))
        ensures
            r.0 == added_lines(self.files@) % 0x1_0000_0000,
            r.1 == removed_lines(self.files@) % 0x1_0000_0000,
    {
        let mut a: u32 = 0;
        let mut d: u32 = 0;
        let mut i: usize = 0;
        while i < self.files.len()
            invariant
                i <= self.files.len(),
                a == added_lines(self.files@.take(i as int)) % 0x1_0000_0000,
                d == removed_lines(self.files@.take(i as int)) % 0x1_0000_0000,
            decreases self.files.len() - i,
        {
            proof {
                assert(self.files@.take(i + 1).drop_last() =~= self.files@.take(i as int));
            }
            a = a.wrapping_add(self.files[i].added.unwrap_or(0));
            d = d.wrapping_add(self.files[i].removed.unwrap_or(0));
            i += 1;
        }
        proof {
            assert(self.files@.take(i as int) =~= self.files@);
        }
        (a, d)
    }
}

/// A git write the user asked for.
#[derive(Debug, Clone, PartialEq, Eq)]
pub enum GitOp {
    Stage(Vec<String>),
    StageAll,
    Unstage(Vec<String>),
    UnstageAll,
    /// Stage one hunk of a file's diff, or unstage it when `reverse` is set.
    ApplyHunk { path: String, hunk: usize, header: String, reverse: bool },
    Commit { message: String },
}

/// What came of running git: the exit code, unless it was killed, and what it printed.
#[derive(Debug)]
pub struct Output {
    pub code: Option<i32>,
    pub stdout: Vec<u8>,
    pub stderr: Vec<u8>,
}

/// Why a git command gave no answer.
#[derive(Debug)]
pub enum GitError {
    /// It could not be started.
    Spawn { command: String, cause: String },
    /// It failed, with what it said.
    Failed(String),
}

impl GitError {
    /// What happened.
    pub open spec fn summary(self) -> Seq<char> {
        match self {
            GitError::Spawn { command, .. } => "spawn git "@ + command@,
            GitError::Failed(msg) => msg@,
        }
    }

    /// What happened, without its cause.
    pub fn message(&self) -> (r: String)
        ensures
            r@ == self.summary(),
    {
        match self {
            GitError::Spawn { command, .. } => {
                let mut s = "spawn git ".to_owned();
                s.append(command.as_str());
                s
            },
            GitError::Failed(msg) => msg.clone(),
        }
    }

    /// What happened and why.
    pub open spec fn whole(self) -> Seq<char> {
        match self {
            GitError::Spawn { cause, .. } => self.summary() + ": "@ + cause@,
            GitError::Failed(msg) => msg@,
        }
    }

    /// What happened and why.
    pub fn full(&self) -> (r: String)
        ensures
            r@ == self.whole(),
    {
        let mut s = self.message();
        if let GitError::Spawn { cause, .. } = self {
            s.append(": ");
            s.append(cause.as_str());
        }
        s
    }
}

} // verus!
