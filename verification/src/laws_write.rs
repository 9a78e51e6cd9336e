//! What holds of what is asked of git when the index is written, and of the rules on files and
//! modes.

use vstd::prelude::*;
use vstd::string::*;

use crate::diff::expanded;
use crate::git::{FileChange, GitError, GitOp, Mode, Output, RepoStats, Status};
use crate::git_output::lossy_text;
use crate::git_run::{base_found, env_views, invocation, patch_argv, ran, success, Invocation};
use crate::git_write::{
    done_text, hunk_source, input_found, nth_hunk, patch_of, starts_hunk, write_argv, write_result,
};
use crate::laws_repo::{
    answers_as, head_or_empty, law_exit_codes_decide, law_modes_compare_what_they_say,
    law_modes_have_their_base, says_failed, succeeds,
};
use crate::text::{join, lines, split, views};

verus! {

// ---------------------------------------------------------------------------------------
// One hunk as a patch

/// How many of these lines start a hunk.
pub open spec fn hunk_count(ls: Seq<Seq<char>>) -> nat {
    ls.filter(|l: Seq<char>| "@@"@.is_prefix_of(l)).len()
}

proof fn lemma_count_grows(ls: Seq<Seq<char>>, n: int)
    requires
        0 <= n < ls.len(),
    ensures
        hunk_count(ls.take(n + 1)) == hunk_count(ls.take(n)) + (if starts_hunk(ls[n]) {
            1nat
        } else {
            0nat
        }),
{
    reveal(Seq::filter);
    assert(ls.take(n + 1).drop_last() =~= ls.take(n));
    assert(ls.take(n + 1).last() == ls[n]);
}

proof fn lemma_count_none(ls: Seq<Seq<char>>)
    ensures
        hunk_count(ls.take(0)) == 0,
{
    reveal(Seq::filter);
}

proof fn lemma_nth(ls: Seq<Seq<char>>, k: int, i: int, at: int)
    requires
        0 <= i <= at < ls.len(),
        starts_hunk(ls[at]),
        k == hunk_count(ls.take(at)) - hunk_count(ls.take(i)),
    ensures
        k >= 0,
        nth_hunk(ls, k, i) == Some(at),
    decreases at - i,
{
    if i < at {
        lemma_count_grows(ls, i);
        lemma_nth(ls, k - (if starts_hunk(ls[i]) {
            1int
        } else {
            0int
        }), i + 1, at);
    }
}

proof fn lemma_nth_none(ls: Seq<Seq<char>>, k: int, i: int)
    requires
        0 <= i <= ls.len(),
        k >= hunk_count(ls.take(ls.len() as int)) - hunk_count(ls.take(i)),
    ensures
        nth_hunk(ls, k, i) is None,
    decreases ls.len() - i,
{
    if i < ls.len() {
        lemma_count_grows(ls, i);
        lemma_count_mono(ls, i + 1, ls.len() as int);
        lemma_nth_none(ls, k - (if starts_hunk(ls[i]) {
            1int
        } else {
            0int
        }), i + 1);
    }
}

proof fn lemma_count_mono(ls: Seq<Seq<char>>, i: int, j: int)
    requires
        0 <= i <= j <= ls.len(),
    ensures
        hunk_count(ls.take(i)) <= hunk_count(ls.take(j)),
    decreases j - i,
{
    if i < j {
        lemma_count_grows(ls, j - 1);
        lemma_count_mono(ls, i, j - 1);
    }
}

proof fn lemma_count_flat(ls: Seq<Seq<char>>, i: int, j: int)
    requires
        0 <= i <= j <= ls.len(),
        forall|q: int| i <= q < j ==> !starts_hunk(#[trigger] ls[q]),
    ensures
        hunk_count(ls.take(i)) == hunk_count(ls.take(j)),
    decreases j - i,
{
    if i < j {
        lemma_count_grows(ls, j - 1);
        lemma_count_flat(ls, i, j - 1);
    }
}

/// The patch of a hunk is what stands above the first hunk of the diff, and the hunk from its
/// header up to the next header, to the character, with a newline at the end. `top` is the
/// first header, `at` the one of the hunk, and `end` the next one, or the end of the diff.
pub proof fn law_patch_is_the_head_and_the_hunk(
    diff: Seq<char>,
    header: Seq<char>,
    top: int,
    at: int,
    end: int,
)
    requires
        0 <= top <= at < end,
        at < lines(diff).len(),
        "@@"@.is_prefix_of(lines(diff)[top]),
        "@@"@.is_prefix_of(lines(diff)[at]),
        expanded(lines(diff)[at]) == header,
        forall|q: int| 0 <= q < top ==> !("@@"@.is_prefix_of(#[trigger] lines(diff)[q])),
        forall|q: int|
            at < q < end && q < lines(diff).len() ==> !("@@"@.is_prefix_of(
                #[trigger] lines(diff)[q],
            )),
        if end < lines(diff).len() {
            "@@"@.is_prefix_of(lines(diff)[end])
        } else {
            end == split(diff, '\n').len()
        },
    ensures
        ({
            let pieces = split(diff, '\n');
            let body = join(pieces.take(top) + pieces.subrange(at, end), "\n"@);
            patch_of(diff, hunk_count(lines(diff).take(at)) as int, header) == Some(
                if body.len() > 0 && body.last() == '\n' {
                    body
                } else {
                    body + seq!['\n']
                },
            )
        }),
{
    let ls = lines(diff);
    lemma_count_none(ls);
    lemma_nth(ls, hunk_count(ls.take(at)) as int, 0, at);
    assert forall|q: int| 0 <= q < top implies !starts_hunk(#[trigger] ls[q]) by {}
    lemma_count_flat(ls, 0, top);
    lemma_nth(ls, 0, 0, top);
    if end < ls.len() {
        assert forall|q: int| at + 1 <= q < end implies !starts_hunk(#[trigger] ls[q]) by {}
        lemma_count_flat(ls, at + 1, end);
        lemma_nth(ls, 0, at + 1, end);
    } else {
        assert forall|q: int| at + 1 <= q < ls.len() implies !starts_hunk(#[trigger] ls[q]) by {}
        lemma_count_flat(ls, at + 1, ls.len() as int);
        lemma_nth_none(ls, 0, at + 1);
    }
    let pieces = split(diff, '\n');
    let body = join(pieces.take(top) + pieces.subrange(at, end), "\n"@);
    assert(body.push('\n') =~= body + seq!['\n']);
}

/// There is no patch where the diff has no hunk of that number, or where its header is another
/// one.
pub proof fn law_changed_diffs_give_no_patch(diff: Seq<char>, k: nat, header: Seq<char>, at: int)
    requires
        ({
            ||| k >= hunk_count(lines(diff).take(lines(diff).len() as int))
            ||| {
                &&& 0 <= at < lines(diff).len()
                &&& "@@"@.is_prefix_of(lines(diff)[at])
                &&& k == hunk_count(lines(diff).take(at))
                &&& expanded(lines(diff)[at]) != header
            }
        }),
    ensures
        patch_of(diff, k as int, header) is None,
{
    let ls = lines(diff);
    lemma_count_none(ls);
    if k >= hunk_count(ls.take(ls.len() as int)) {
        lemma_nth_none(ls, k as int, 0);
    } else {
        lemma_nth(ls, k as int, 0, at);
    }
}

// ---------------------------------------------------------------------------------------
// Commands

/// What git is asked for each write.
pub proof fn law_writes_ask_what_they_say(op: GitOp)
    ensures
        op matches GitOp::Stage(paths) ==> write_argv(op) == seq!["add"@, "--"@] + views(paths@),
        op is StageAll ==> write_argv(op) == seq!["add"@, "-A"@],
        op matches GitOp::Unstage(paths) ==> write_argv(op) == seq!["reset"@, "-q"@, "--"@] + views(
            paths@,
        ),
        op is UnstageAll ==> write_argv(op) == seq!["reset"@, "-q"@],
        op matches GitOp::ApplyHunk { reverse, .. } ==> write_argv(op) == (if reverse {
            seq!["apply"@, "--cached"@, "--reverse"@, "-"@]
        } else {
            seq!["apply"@, "--cached"@, "-"@]
        }),
        op matches GitOp::Commit { message } ==> write_argv(op) == seq!["commit"@, "-m"@, message@],
{
}

/// What is said of a write that is done; of a commit, the first line that git printed.
pub proof fn law_writes_say_what_they_did(op: GitOp, first: Seq<char>, rest: Seq<char>)
    requires
        !first.contains('\n'),
        first.len() == 0 || first.last() != '\r',
    ensures
        op matches GitOp::Stage(paths) ==> done_text(op, rest) == "staged "@ + join(
            views(paths@),
            ", "@,
        ),
        op is StageAll ==> done_text(op, rest) == "staged everything"@,
        op matches GitOp::Unstage(paths) ==> done_text(op, rest) == "unstaged "@ + join(
            views(paths@),
            ", "@,
        ),
        op is UnstageAll ==> done_text(op, rest) == "unstaged everything"@,
        op matches GitOp::ApplyHunk { path, reverse, .. } ==> done_text(op, rest) == (if reverse {
            "unstaged a hunk of "@
        } else {
            "staged a hunk of "@
        }) + path@,
        op is Commit ==> done_text(op, first + seq!['\n'] + rest) == first && done_text(op, first)
            == first,
{
    crate::laws_text::law_lines_end_at_newlines(first, rest);
    if op is Commit {
        assert(lines(first + seq!['\n'] + rest)[0] == first);
        if first.len() == 0 {
            assert(first =~= Seq::<char>::empty());
        } else {
            assert(lines(first)[0] == first);
        }
    }
}

/// A hunk is staged as a patch from what is not staged, and unstaged as one from what is; the
/// patch is that of the hunk in the diff as git prints it now.
pub proof fn law_hunks_are_taken_from_the_diff_as_it_is<
    F: Fn(&Vec<String>) -> Result<Output, String>,
>(
    git: F,
    script: spec_fn(Seq<Seq<char>>) -> Output,
    path: String,
    hunk: usize,
    header: String,
    reverse: bool,
    r: Result<Option<String>, String>,
)
    requires
        answers_as(git, script),
        input_found(git, GitOp::ApplyHunk { path, hunk, header, reverse }, r),
    ensures
        ({
            let args = if reverse {
                seq![
                    "diff"@,
                    "--no-ext-diff"@,
                    "--no-renames"@,
                    "--cached"@,
                    head_or_empty(script).0,
                    "--"@,
                    path@,
                ]
            } else {
                seq!["diff"@, "--no-ext-diff"@, "--no-renames"@, "--"@, path@]
            };
            let diff = lossy_text(script(args).stdout@);
            &&& !succeeds(script, args) ==> (r matches Err(msg) && says_failed(
                GitError::Failed(msg),
                script,
                args,
            ))
            &&& succeeds(script, args) ==> match patch_of(diff, hunk as int, header@) {
                Some(p) => r matches Ok(Some(s)) && s@ == p,
                None => r matches Err(msg) && msg@
                    == "the diff has changed since this hunk was loaded"@,
            }
        }),
{
    let mode = if reverse {
        Mode::Staged
    } else {
        Mode::Unstaged
    };
    let o = choose|o: Result<String, GitError>| #[trigger]
        hunk_source(git, path@, reverse, o) && match o {
            Err(e) => r matches Err(msg) && msg@ == e.whole(),
            Ok(diff) => match patch_of(diff@, hunk as int, header@) {
                Some(p) => r matches Ok(Some(s)) && s@ == p,
                None => r matches Err(msg) && msg@
                    == "the diff has changed since this hunk was loaded"@,
            },
        };
    let base = choose|base: (Option<Seq<char>>, Seq<char>)| #[trigger]
        base_found(git, mode, base) && crate::git_run::shown(
            git,
            patch_argv(mode, base.0, path@),
            success(),
            o,
        );
    law_modes_have_their_base(git, script, mode, base);
    law_modes_compare_what_they_say(mode, head_or_empty(script).0, path@);
    let args = patch_argv(mode, base.0, path@);
    let x = choose|x: Result<Vec<u8>, GitError>| #[trigger]
        ran(git, args, success(), x) && match x {
            Ok(bytes) => o matches Ok(s) && s@ == lossy_text(bytes@),
            Err(e) => o == Err::<String, GitError>(e),
        };
    law_exit_codes_decide(git, script, args, success(), x);
    assert(success()[0] == 0i32);
}

/// Only a hunk needs anything on the standard input.
pub proof fn law_other_writes_take_no_input<F: Fn(&Vec<String>) -> Result<Output, String>>(
    git: F,
    op: GitOp,
    r: Result<Option<String>, String>,
)
    requires
        input_found(git, op, r),
        !(op is ApplyHunk),
    ensures
        r == Ok::<Option<String>, String>(None),
{
}

/// Every command of git is run without optional locks and without prompts, with paths as they
/// are and without colors.
pub proof fn law_commands_take_no_locks(args: &[String], r: Invocation)
    requires
        call_ensures(invocation, (args,), r),
    ensures
        views(r.args@) == seq!["-c"@, "core.quotepath=off"@, "-c"@, "color.ui=false"@] + views(
            args@,
        ),
        env_views(r.env@) == seq![
            ("GIT_OPTIONAL_LOCKS"@, "0"@),
            ("GIT_TERMINAL_PROMPT"@, "0"@),
        ],
{
}

/// What came of a write is what is said of it where git succeeded, else the whole error.
pub proof fn law_failed_writes_say_why(
    op: GitOp,
    out: Result<Vec<u8>, GitError>,
    r: Result<String, String>,
)
    requires
        call_ensures(write_result, (&op, &out), r),
    ensures
        out matches Ok(bytes) ==> (r matches Ok(s) && s@ == done_text(op, lossy_text(bytes@))),
        out matches Err(GitError::Failed(msg)) ==> (r matches Err(e) && e@ == msg@),
        out matches Err(GitError::Spawn { command, cause }) ==> (r matches Err(e) && e@
            == "spawn git "@ + command@ + ": "@ + cause@),
{
}

// ---------------------------------------------------------------------------------------
// Files and modes

/// A file is partly in the index where git gives it a state there, and partly not where it gives
/// it one in the working tree. An untracked file is not in the index.
pub proof fn law_states_tell_what_is_staged(f: FileChange, staged: bool, unstaged: bool, dir: bool)
    requires
        call_ensures(FileChange::has_staged, (&f,), staged),
        call_ensures(FileChange::has_unstaged, (&f,), unstaged),
        call_ensures(FileChange::is_dir, (&f,), dir),
    ensures
        staged <==> f.index != ' ' && f.index != '?',
        unstaged <==> f.worktree != ' ',
        dir <==> f.path@.len() > 0 && f.path@.last() == '/',
{
}

/// The modes, their names, and the order in which they follow one another.
pub proof fn law_modes_follow_one_another(m: Mode, n: Mode, name: &'static str, untracked: bool)
    requires
        call_ensures(Mode::next, (m,), n),
        call_ensures(Mode::label, (m,), name),
        call_ensures(Mode::includes_untracked, (m,), untracked),
    ensures
        m == Mode::Uncommitted ==> n == Mode::Unstaged && name@ == "uncommitted"@ && untracked,
        m == Mode::Unstaged ==> n == Mode::Staged && name@ == "unstaged"@ && untracked,
        m == Mode::Staged ==> n == Mode::Branch && name@ == "staged"@ && !untracked,
        m == Mode::Branch ==> n == Mode::Uncommitted && name@ == "branch"@ && untracked,
{
}

/// A letter stands for a status, and the status for that letter.
pub proof fn law_letters_and_statuses(c: char, s: Status, letter: char)
    requires
        call_ensures(Status::from_letter, (c,), s),
        call_ensures(Status::letter, (s,), letter),
    ensures
        letter == c,
        c == 'A' ==> s == Status::Added,
        c == 'M' ==> s == Status::Modified,
        c == 'D' ==> s == Status::Deleted,
        c == 'T' ==> s == Status::TypeChanged,
        c != 'A' && c != 'M' && c != 'D' && c != 'T' ==> s == Status::Other(c),
{
}

/// The totals of a repo are the sums over its files, modulo two to the power of 32.
pub proof fn law_totals_of_a_repo(stats: RepoStats, head: Seq<FileChange>, f: FileChange, r: (u32, u32))
    requires
        call_ensures(RepoStats::totals, (&stats,), r),
        stats.files@ == head.push(f),
    ensures
        r.0 == (crate::git::added_lines(head) + (match f.added {
            Some(n) => n as int,
            None => 0,
        })) % 0x1_0000_0000,
        r.1 == (crate::git::removed_lines(head) + (match f.removed {
            Some(n) => n as int,
            None => 0,
        })) % 0x1_0000_0000,
{
    assert(head.push(f).drop_last() =~= head);
}

} // verus!
