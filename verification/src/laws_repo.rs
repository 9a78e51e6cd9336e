//! What holds of what git is asked about a repo, for each comparison mode.

use vstd::prelude::*;
use vstd::string::*;

use crate::git::{FileChange, GitError, Mode, Output, RepoStats, Status};
use crate::git_output::{
    lossy_text, name_statuses, numstats, records, staged_entries, states, table, tabulates,
};
use crate::git_run::{
    base_found, branch_argv, branch_base_found, branch_fallback, branch_found, checked, commit_argv,
    commit_found, compared, counts_found, default_found, diff_argv, diff_found, first_known,
    fork_found, line_counts, listing_found, merge_base_argv, name_status_argv, names_found,
    new_file_argv, numstat_argv, patch_argv, printed, ran, remote_head_argv, root_found, said,
    shown, spoken, stats_found, status_argv, success, toplevel_argv, untracked_argv,
    untracked_found, usual_branches, verified, verify_argv,
};
use crate::laws_git::adds_up;
use crate::text::{integer, join, trim, views};

verus! {

// ---------------------------------------------------------------------------------------
// Answers

/// `git` answers as `script` says, whatever it is asked.
pub open spec fn answers_as<F: Fn(&Vec<String>) -> Result<Output, String>>(
    git: F,
    script: spec_fn(Seq<Seq<char>>) -> Output,
) -> bool {
    forall|a: Vec<String>, out: Result<Output, String>| #[trigger]
        call_ensures(git, (&a,), out) ==> out == Ok::<Output, String>(script(views(a@)))
}

/// The command ends with the exit code of success.
pub open spec fn succeeds(script: spec_fn(Seq<Seq<char>>) -> Output, args: Seq<Seq<char>>) -> bool {
    script(args).code == Some(0i32)
}

/// What the command prints, without the white space around it.
pub open spec fn prints(script: spec_fn(Seq<Seq<char>>) -> Output, args: Seq<Seq<char>>) -> Seq<
    char,
> {
    trim(lossy_text(script(args).stdout@))
}

/// What the command prints where it succeeds and prints anything.
pub open spec fn reply(script: spec_fn(Seq<Seq<char>>) -> Output, args: Seq<Seq<char>>) -> Option<
    Seq<char>,
> {
    if succeeds(script, args) && prints(script, args).len() > 0 {
        Some(prints(script, args))
    } else {
        None
    }
}

/// The repo has a revision of that name.
pub open spec fn has_revision(
    script: spec_fn(Seq<Seq<char>>) -> Output,
    name: Seq<char>,
) -> bool {
    succeeds(script, seq!["rev-parse"@, "--verify"@, "-q"@, name])
}

/// The exit code; -1 where the command was killed.
pub open spec fn code_of(o: Output) -> i32 {
    match o.code {
        Some(c) => c,
        None => -1i32,
    }
}

/// The error is that the command failed: it names the command and the code, and says what git
/// complained about.
pub open spec fn says_failed(
    e: GitError,
    script: spec_fn(Seq<Seq<char>>) -> Output,
    args: Seq<Seq<char>>,
) -> bool {
    &&& e is Failed
    &&& e->Failed_0@ == "git "@ + join(args, " "@) + " failed ("@ + integer(
        code_of(script(args)) as int,
    ) + "): "@ + trim(lossy_text(script(args).stderr@))
}

/// A command that cannot be started fails with its words and the cause.
pub proof fn law_unstarted_commands_say_why<F: Fn(&Vec<String>) -> Result<Output, String>>(
    git: F,
    cause: String,
    args: Seq<Seq<char>>,
    ok: Seq<i32>,
    r: Result<Vec<u8>, GitError>,
)
    requires
        forall|a: Vec<String>, out: Result<Output, String>| #[trigger]
            call_ensures(git, (&a,), out) ==> out == Err::<Output, String>(cause),
        ran(git, args, ok, r),
    ensures
        r matches Err(GitError::Spawn { command, cause: c }) && command@ == join(args, " "@) && c
            == cause,
{
}

/// A command counts as done just where its exit code is one of those that are expected; what
/// it printed is the result then. Else the error names the command, the code and what it
/// complained about.
pub proof fn law_exit_codes_decide<F: Fn(&Vec<String>) -> Result<Output, String>>(
    git: F,
    script: spec_fn(Seq<Seq<char>>) -> Output,
    args: Seq<Seq<char>>,
    ok: Seq<i32>,
    r: Result<Vec<u8>, GitError>,
)
    requires
        answers_as(git, script),
        ran(git, args, ok, r),
    ensures
        r is Ok <==> ok.contains(code_of(script(args))),
        r matches Ok(out) ==> out == script(args).stdout,
        r matches Err(e) ==> says_failed(e, script, args),
{
}

proof fn lemma_success<F: Fn(&Vec<String>) -> Result<Output, String>>(
    git: F,
    script: spec_fn(Seq<Seq<char>>) -> Output,
    args: Seq<Seq<char>>,
    r: Result<Vec<u8>, GitError>,
)
    requires
        answers_as(git, script),
        ran(git, args, success(), r),
    ensures
        r is Ok <==> succeeds(script, args),
        r matches Ok(out) ==> out == script(args).stdout,
        r matches Err(e) ==> says_failed(e, script, args),
{
    law_exit_codes_decide(git, script, args, success(), r);
    assert(success()[0] == 0i32);
}

pub(crate) proof fn lemma_reply<F: Fn(&Vec<String>) -> Result<Output, String>>(
    git: F,
    script: spec_fn(Seq<Seq<char>>) -> Output,
    args: Seq<Seq<char>>,
    r: Result<String, GitError>,
)
    requires
        answers_as(git, script),
        said(git, args, r),
    ensures
        r is Ok <==> succeeds(script, args),
        r matches Ok(s) ==> s@ == prints(script, args),
        spoken(r) == reply(script, args),
{
    let o = choose|o: Result<Vec<u8>, GitError>| #[trigger]
        ran(git, args, success(), o) && match o {
            Ok(bytes) => r matches Ok(s) && s@ == trim(lossy_text(bytes@)),
            Err(e) => r == Err::<String, GitError>(e),
        };
    lemma_success(git, script, args, o);
}

pub(crate) proof fn lemma_verified<F: Fn(&Vec<String>) -> Result<Output, String>>(
    git: F,
    script: spec_fn(Seq<Seq<char>>) -> Output,
    name: Seq<char>,
    known: bool,
)
    requires
        answers_as(git, script),
        verified(git, name, known),
    ensures
        known == has_revision(script, name),
{
    let o = choose|o: Result<Vec<u8>, GitError>| #[trigger]
        ran(git, verify_argv(name), success(), o) && known == (o is Ok);
    lemma_success(git, script, verify_argv(name), o);
    assert(verify_argv(name) =~= seq!["rev-parse"@, "--verify"@, "-q"@, name]);
}

/// The root of a repo is what git prints as its top level.
pub proof fn law_root_is_the_top_level<F: Fn(&Vec<String>) -> Result<Output, String>>(
    git: F,
    script: spec_fn(Seq<Seq<char>>) -> Output,
    r: Option<Seq<char>>,
)
    requires
        answers_as(git, script),
        root_found(git, r),
    ensures
        r == reply(script, seq!["rev-parse"@, "--show-toplevel"@]),
{
    let o = choose|o: Result<String, GitError>| #[trigger]
        said(git, toplevel_argv(), o) && r == spoken(o);
    lemma_reply(git, script, toplevel_argv(), o);
    assert(toplevel_argv() =~= seq!["rev-parse"@, "--show-toplevel"@]);
}

/// The branch is the one that is checked out, else where HEAD is, else a repo without commits.
pub proof fn law_branch_is_what_is_checked_out<F: Fn(&Vec<String>) -> Result<Output, String>>(
    git: F,
    script: spec_fn(Seq<Seq<char>>) -> Output,
    r: Seq<char>,
)
    requires
        answers_as(git, script),
        branch_found(git, r),
    ensures
        r == (match reply(script, seq!["symbolic-ref"@, "--short"@, "-q"@, "HEAD"@]) {
            Some(name) => name,
            None => if succeeds(script, seq!["rev-parse"@, "--short"@, "HEAD"@]) {
                "detached@"@ + prints(script, seq!["rev-parse"@, "--short"@, "HEAD"@])
            } else {
                "(no commits)"@
            },
        }),
{
    assert(branch_argv() =~= seq!["symbolic-ref"@, "--short"@, "-q"@, "HEAD"@]);
    assert(commit_argv() =~= seq!["rev-parse"@, "--short"@, "HEAD"@]);
    let o = choose|o: Result<String, GitError>| #[trigger]
        said(git, branch_argv(), o) && match spoken(o) {
            Some(name) => r == name,
            None => commit_found(git, r),
        };
    lemma_reply(git, script, branch_argv(), o);
    if spoken(o) is None {
        let o2 = choose|o: Result<String, GitError>| #[trigger]
            said(git, commit_argv(), o) && match o {
                Ok(s) => r == "detached@"@ + s@,
                Err(_) => r == "(no commits)"@,
            };
        lemma_reply(git, script, commit_argv(), o2);
    }
}

// ---------------------------------------------------------------------------------------
// What a mode compares

/// What stands for HEAD in a comparison, and how it is called: the empty tree where there are
/// no commits.
pub open spec fn head_or_empty(script: spec_fn(Seq<Seq<char>>) -> Output) -> (Seq<char>, Seq<char>) {
    if has_revision(script, "HEAD"@) {
        ("HEAD"@, "HEAD"@)
    } else {
        ("4b825dc642cb6eb9a060e54bf8d69288fbee4904"@, "empty tree"@)
    }
}

/// The branch that others start from: the one that the remote names, else the first of the
/// usual ones that there is.
pub open spec fn main_branch(script: spec_fn(Seq<Seq<char>>) -> Output) -> Option<Seq<char>> {
    match reply(script, seq!["symbolic-ref"@, "-q"@, "--short"@, "refs/remotes/origin/HEAD"@]) {
        Some(name) => Some(name),
        None => if has_revision(script, "origin/main"@) {
            Some("origin/main"@)
        } else if has_revision(script, "origin/master"@) {
            Some("origin/master"@)
        } else if has_revision(script, "main"@) {
            Some("main"@)
        } else if has_revision(script, "master"@) {
            Some("master"@)
        } else {
            None
        },
    }
}

/// The default branch is the one that the remote names, else the first of `origin/main`,
/// `origin/master`, `main` and `master` that there is.
pub proof fn law_default_branch<F: Fn(&Vec<String>) -> Result<Output, String>>(
    git: F,
    script: spec_fn(Seq<Seq<char>>) -> Output,
    d: Option<Seq<char>>,
)
    requires
        answers_as(git, script),
        default_found(git, d),
    ensures
        d == main_branch(script),
{
    assert(remote_head_argv() =~= seq![
        "symbolic-ref"@,
        "-q"@,
        "--short"@,
        "refs/remotes/origin/HEAD"@,
    ]);
    let o = choose|o: Result<String, GitError>| #[trigger]
        said(git, remote_head_argv(), o) && match spoken(o) {
            Some(name) => d == Some(name),
            None => first_known(git, usual_branches(), d),
        };
    lemma_reply(git, script, remote_head_argv(), o);
    if spoken(o) is None {
        let n0 = usual_branches();
        let n1 = seq!["origin/master"@, "main"@, "master"@];
        let n2 = seq!["main"@, "master"@];
        let n3 = seq!["master"@];
        let n4 = Seq::<Seq<char>>::empty();
        assert(n0.skip(1) =~= n1);
        assert(n1.skip(1) =~= n2);
        assert(n2.skip(1) =~= n3);
        assert(n3.skip(1) =~= n4);
        lemma_first_known(git, script, n0, d);
        if !has_revision(script, "origin/main"@) {
            lemma_first_known(git, script, n1, d);
            if !has_revision(script, "origin/master"@) {
                lemma_first_known(git, script, n2, d);
                if !has_revision(script, "main"@) {
                    lemma_first_known(git, script, n3, d);
                }
            }
        }
    }
}

proof fn lemma_first_known<F: Fn(&Vec<String>) -> Result<Output, String>>(
    git: F,
    script: spec_fn(Seq<Seq<char>>) -> Output,
    names: Seq<Seq<char>>,
    d: Option<Seq<char>>,
)
    requires
        answers_as(git, script),
        first_known(git, names, d),
        names.len() > 0,
    ensures
        if has_revision(script, names[0]) {
            d == Some(names[0])
        } else {
            first_known(git, names.skip(1), d)
        },
{
    if verified(git, names[0], true) {
        lemma_verified(git, script, names[0], true);
    }
    if verified(git, names[0], false) {
        lemma_verified(git, script, names[0], false);
    }
}

/// What each mode compares with: HEAD where only commits are left out, the index for what is
/// not staged, and for a branch the commit where it left the default branch, described by that
/// branch and seven characters of the commit; HEAD where there is no such commit. Where there
/// are no commits the empty tree stands for HEAD.
pub proof fn law_modes_have_their_base<F: Fn(&Vec<String>) -> Result<Output, String>>(
    git: F,
    script: spec_fn(Seq<Seq<char>>) -> Output,
    mode: Mode,
    base: (Option<Seq<char>>, Seq<char>),
)
    requires
        answers_as(git, script),
        base_found(git, mode, base),
    ensures
        mode == Mode::Unstaged ==> base.0 is None && base.1 == "index"@,
        mode == Mode::Uncommitted || mode == Mode::Staged ==> base.0 == Some(
            head_or_empty(script).0,
        ) && base.1 == head_or_empty(script).1,
        mode == Mode::Branch ==> match main_branch(script) {
            Some(b) => match reply(script, seq!["merge-base"@, "HEAD"@, b]) {
                Some(c) => base.0 == Some(c) && (if c.len() >= 7 {
                    base.1 == b + "@"@ + c.take(7)
                } else {
                    base.1 == b + "@"@ + c
                }),
                None => base.0 == Some(head_or_empty(script).0) && base.1 == head_or_empty(script).1
                    + " (no default branch)"@,
            },
            None => base.0 == Some(head_or_empty(script).0) && base.1 == head_or_empty(script).1
                + " (no default branch)"@,
        },
{
    let head = choose|head: bool| #[trigger]
        verified(git, "HEAD"@, head) && match mode {
            Mode::Unstaged => base == (None::<Seq<char>>, "index"@),
            Mode::Uncommitted => base == (
                Some(crate::git_run::head_base(head).0),
                crate::git_run::head_base(head).1,
            ),
            Mode::Staged => base == (
                Some(crate::git_run::head_base(head).0),
                crate::git_run::head_base(head).1,
            ),
            Mode::Branch => branch_base_found(git, head, base),
        };
    lemma_verified(git, script, "HEAD"@, head);
    if mode == Mode::Branch {
        let d = choose|d: Option<Seq<char>>| #[trigger]
            default_found(git, d) && match d {
                None => base == branch_fallback(head),
                Some(b) => fork_found(git, head, b, base),
            };
        law_default_branch(git, script, d);
        if let Some(b) = d {
            let o = choose|o: Result<String, GitError>| #[trigger]
                said(git, merge_base_argv(b), o) && match spoken(o) {
                    Some(mb) => base == (
                        Some(mb),
                        b + "@"@ + crate::git_run::abbreviated(mb),
                    ),
                    None => base == branch_fallback(head),
                };
            lemma_reply(git, script, merge_base_argv(b), o);
            assert(merge_base_argv(b) =~= seq!["merge-base"@, "HEAD"@, b]);
            if let Some(c) = spoken(o) {
                if c.len() == 7 {
                    assert(c.take(7) =~= c);
                }
            }
        }
    }
}

/// What is asked of git in each mode: the working tree against the base, the working tree
/// against the index, the index against the base. Only in staged mode is the index what is
/// compared.
pub proof fn law_modes_compare_what_they_say(mode: Mode, b: Seq<char>, path: Seq<char>)
    ensures
        mode == Mode::Uncommitted || mode == Mode::Branch ==> {
            &&& name_status_argv(mode, Some(b)) == seq![
                "diff"@,
                "--no-ext-diff"@,
                "--no-renames"@,
                b,
                "--name-status"@,
                "-z"@,
            ]
            &&& numstat_argv(mode, Some(b)) == seq![
                "diff"@,
                "--no-ext-diff"@,
                "--no-renames"@,
                b,
                "--numstat"@,
                "-z"@,
            ]
            &&& patch_argv(mode, Some(b), path) == seq![
                "diff"@,
                "--no-ext-diff"@,
                "--no-renames"@,
                b,
                "--"@,
                path,
            ]
        },
        name_status_argv(Mode::Unstaged, None) == seq![
            "diff"@,
            "--no-ext-diff"@,
            "--no-renames"@,
            "--name-status"@,
            "-z"@,
        ],
        numstat_argv(Mode::Unstaged, None) == seq![
            "diff"@,
            "--no-ext-diff"@,
            "--no-renames"@,
            "--numstat"@,
            "-z"@,
        ],
        patch_argv(Mode::Unstaged, None, path) == seq![
            "diff"@,
            "--no-ext-diff"@,
            "--no-renames"@,
            "--"@,
            path,
        ],
        name_status_argv(Mode::Staged, Some(b)) == seq![
            "diff"@,
            "--no-ext-diff"@,
            "--no-renames"@,
            "--cached"@,
            b,
            "--name-status"@,
            "-z"@,
        ],
        numstat_argv(Mode::Staged, Some(b)) == seq![
            "diff"@,
            "--no-ext-diff"@,
            "--no-renames"@,
            "--cached"@,
            b,
            "--numstat"@,
            "-z"@,
        ],
        patch_argv(Mode::Staged, Some(b), path) == seq![
            "diff"@,
            "--no-ext-diff"@,
            "--no-renames"@,
            "--cached"@,
            b,
            "--"@,
            path,
        ],
{
    if mode == Mode::Uncommitted || mode == Mode::Branch {
        assert(diff_argv(mode, Some(b)) =~= seq!["diff"@, "--no-ext-diff"@, "--no-renames"@, b]);
    }
    assert(diff_argv(Mode::Unstaged, None) =~= seq!["diff"@, "--no-ext-diff"@, "--no-renames"@]);
    assert(diff_argv(Mode::Staged, Some(b)) =~= seq![
        "diff"@,
        "--no-ext-diff"@,
        "--no-renames"@,
        "--cached"@,
        b,
    ]);
}

/// The arguments that select what to compare, in each mode and for every base: `--cached`
/// stands there in staged mode and in no other.
pub proof fn law_only_staged_mode_reads_the_index(mode: Mode, base: Option<Seq<char>>)
    requires
        base != Some("--cached"@),
    ensures
        diff_argv(mode, base).contains("--cached"@) <==> mode == Mode::Staged,
        base is None ==> diff_argv(mode, base) == (if mode == Mode::Staged {
            seq!["diff"@, "--no-ext-diff"@, "--no-renames"@, "--cached"@]
        } else {
            seq!["diff"@, "--no-ext-diff"@, "--no-renames"@]
        }),
        base matches Some(b) ==> diff_argv(mode, base) == (if mode == Mode::Staged {
            seq!["diff"@, "--no-ext-diff"@, "--no-renames"@, "--cached"@, b]
        } else {
            seq!["diff"@, "--no-ext-diff"@, "--no-renames"@, b]
        }),
{
    reveal_strlit("diff");
    reveal_strlit("--no-ext-diff");
    reveal_strlit("--no-renames");
    reveal_strlit("--cached");
    let a = diff_argv(mode, base);
    assert("diff"@.len() != "--cached"@.len());
    assert("--no-ext-diff"@.len() != "--cached"@.len());
    assert("--no-renames"@.len() != "--cached"@.len());
    if mode == Mode::Staged {
        assert(a[3] == "--cached"@);
    }
}

// ---------------------------------------------------------------------------------------
// The state of a repo, and the diff of a file

/// `u` are the files that git lists as untracked, each with what `count` says of it.
pub open spec fn untracked_files<C: Fn(&String) -> Option<u32>>(
    script: spec_fn(Seq<Seq<char>>) -> Output,
    count: C,
    u: Seq<(Seq<char>, Option<u32>)>,
) -> bool {
    let paths = records(
        script(seq!["ls-files"@, "--others"@, "--exclude-standard"@, "-z"@]).stdout@,
    );
    &&& u.len() == paths.len()
    &&& forall|i: int|
        0 <= i < u.len() ==> (#[trigger] u[i]).0 == paths[i] && exists|s: String|
            s@ == paths[i] && #[trigger] call_ensures(count, (&s,), u[i].1)
}

/// What git says of the index and the working tree; nothing where it fails.
pub open spec fn status_text(script: spec_fn(Seq<Seq<char>>) -> Output) -> Seq<u8> {
    let args = seq!["status"@, "--porcelain"@, "-z"@, "--no-renames"@, "--untracked-files=all"@];
    if succeeds(script, args) {
        script(args).stdout@
    } else {
        Seq::empty()
    }
}

/// The file list adds up to what these outputs hold.
pub open spec fn adds_up_to(
    names: Seq<u8>,
    counts: Seq<u8>,
    u: Seq<(Seq<char>, Option<u32>)>,
    status: Seq<u8>,
    files: Seq<FileChange>,
) -> bool {
    adds_up(
        name_statuses(records(names)),
        numstats(records(counts)),
        u,
        states(records(status)),
        files,
    )
}

/// What the state of a repo is made of: what git prints of the files that differ, of their line
/// counts and of the index, and, in every mode but staged, of the untracked files. It fails
/// just where git fails at one of these, the state of the index aside.
pub proof fn law_stats_are_made_of_gits_answers<
    F: Fn(&Vec<String>) -> Result<Output, String>,
    C: Fn(&String) -> Option<u32>,
>(
    git: F,
    count: C,
    script: spec_fn(Seq<Seq<char>>) -> Output,
    mode: Mode,
    r: Result<RepoStats, GitError>,
) -> (w: ((Option<Seq<char>>, Seq<char>), Seq<(Seq<char>, Option<u32>)>))
    requires
        answers_as(git, script),
        stats_found(git, count, mode, r),
    ensures
        base_found(git, mode, w.0),
        r is Ok <==> {
            &&& succeeds(script, name_status_argv(mode, w.0.0))
            &&& succeeds(script, numstat_argv(mode, w.0.0))
            &&& mode == Mode::Staged || succeeds(
                script,
                seq!["ls-files"@, "--others"@, "--exclude-standard"@, "-z"@],
            )
        },
        r matches Err(e) ==> says_failed(
            e,
            script,
            if !succeeds(script, name_status_argv(mode, w.0.0)) {
                name_status_argv(mode, w.0.0)
            } else if !succeeds(script, numstat_argv(mode, w.0.0)) {
                numstat_argv(mode, w.0.0)
            } else {
                seq!["ls-files"@, "--others"@, "--exclude-standard"@, "-z"@]
            },
        ),
        r matches Ok(stats) ==> {
            &&& branch_found(git, stats.branch@)
            &&& stats.base@ == w.0.1
            &&& mode == Mode::Staged ==> w.1.len() == 0
            &&& mode != Mode::Staged ==> untracked_files(script, count, w.1)
            &&& adds_up_to(
                script(name_status_argv(mode, w.0.0)).stdout@,
                script(numstat_argv(mode, w.0.0)).stdout@,
                w.1,
                status_text(script),
                stats.files@,
            )
            &&& stats.staged == staged_entries(states(records(status_text(script))))
        },
{
    assert(untracked_argv() =~= seq!["ls-files"@, "--others"@, "--exclude-standard"@, "-z"@]);
    let base = choose|base: (Option<Seq<char>>, Seq<char>)| #[trigger]
        base_found(git, mode, base) && names_found(git, count, mode, base, r);
    let o1 = choose|o: Result<Vec<u8>, GitError>| #[trigger]
        ran(git, name_status_argv(mode, base.0), success(), o) && match o {
            Ok(names) => counts_found(git, count, mode, base, names@, r),
            Err(e) => r == Err::<RepoStats, GitError>(e),
        };
    lemma_success(git, script, name_status_argv(mode, base.0), o1);
    if let Ok(names) = o1 {
        let o2 = choose|o: Result<Vec<u8>, GitError>| #[trigger]
            ran(git, numstat_argv(mode, base.0), success(), o) && match o {
                Ok(counts) => if mode == Mode::Staged {
                    listing_found(git, base.1, names@, counts@, Seq::empty(), r)
                } else {
                    untracked_found(git, count, base.1, names@, counts@, r)
                },
                Err(e) => r == Err::<RepoStats, GitError>(e),
            };
        lemma_success(git, script, numstat_argv(mode, base.0), o2);
        if let Ok(counts) = o2 {
            if mode == Mode::Staged {
                lemma_listing(git, script, base.1, names@, counts@, Seq::empty(), r);
                (base, Seq::empty())
            } else {
                let o3 = choose|o: Result<Vec<u8>, GitError>| #[trigger]
                    ran(git, untracked_argv(), success(), o) && match o {
                        Ok(list) => exists|u: Seq<(Seq<char>, Option<u32>)>| #[trigger]
                            line_counts(count, records(list@), u) && listing_found(
                                git,
                                base.1,
                                names@,
                                counts@,
                                u,
                                r,
                            ),
                        Err(e) => r == Err::<RepoStats, GitError>(e),
                    };
                lemma_success(git, script, untracked_argv(), o3);
                if let Ok(list) = o3 {
                    let u = choose|u: Seq<(Seq<char>, Option<u32>)>| #[trigger]
                        line_counts(count, records(list@), u) && listing_found(
                            git,
                            base.1,
                            names@,
                            counts@,
                            u,
                            r,
                        );
                    lemma_listing(git, script, base.1, names@, counts@, u, r);
                    (base, u)
                } else {
                    (base, Seq::empty())
                }
            }
        } else {
            (base, Seq::empty())
        }
    } else {
        (base, Seq::empty())
    }
}

proof fn lemma_listing<F: Fn(&Vec<String>) -> Result<Output, String>>(
    git: F,
    script: spec_fn(Seq<Seq<char>>) -> Output,
    base: Seq<char>,
    names: Seq<u8>,
    counts: Seq<u8>,
    u: Seq<(Seq<char>, Option<u32>)>,
    r: Result<RepoStats, GitError>,
)
    requires
        answers_as(git, script),
        listing_found(git, base, names, counts, u, r),
    ensures
        r matches Ok(stats) && {
            &&& branch_found(git, stats.branch@)
            &&& stats.base@ == base
            &&& adds_up_to(names, counts, u, status_text(script), stats.files@)
            &&& stats.staged == staged_entries(states(records(status_text(script))))
        },
{
    assert(status_argv() =~= seq![
        "status"@,
        "--porcelain"@,
        "-z"@,
        "--no-renames"@,
        "--untracked-files=all"@,
    ]);
    let o = choose|o: Result<Vec<u8>, GitError>| #[trigger]
        ran(git, status_argv(), success(), o) && (r matches Ok(stats) && {
            &&& branch_found(git, stats.branch@)
            &&& stats.base@ == base
            &&& tabulates(stats.files@, table(names, counts, u, printed(o)))
            &&& stats.staged == staged_entries(states(records(printed(o))))
        });
    lemma_success(git, script, status_argv(), o);
}

/// The diff of a file is what git prints for it: an untracked file as a whole, where a
/// difference is no failure, any other against the base of the mode. For a nested repo git is
/// not asked.
pub proof fn law_diffs_are_what_git_prints<F: Fn(&Vec<String>) -> Result<Output, String>>(
    git: F,
    script: spec_fn(Seq<Seq<char>>) -> Output,
    mode: Mode,
    file: FileChange,
    r: Result<String, GitError>,
) -> (base: (Option<Seq<char>>, Seq<char>))
    requires
        answers_as(git, script),
        diff_found(git, mode, file, r),
    ensures
        ({
            let is_dir = file.path@.len() > 0 && file.path@.last() == '/';
            let new = seq![
                "diff"@,
                "--no-ext-diff"@,
                "--no-index"@,
                "--"@,
                "/dev/null"@,
                file.path@,
            ];
            let args = if file.status == Status::Untracked {
                new
            } else {
                patch_argv(mode, base.0, file.path@)
            };
            &&& is_dir ==> (r matches Ok(s) && s@ == "untracked directory (nested git repo): "@
                + file.path@ + "\n"@)
            &&& !is_dir && file.status != Status::Untracked ==> base_found(git, mode, base)
            &&& !is_dir ==> (r is Ok <==> succeeds(script, args) || (file.status
                == Status::Untracked && script(args).code == Some(1i32)))
            &&& !is_dir ==> (r matches Ok(s) ==> s@ == lossy_text(script(args).stdout@))
            &&& !is_dir ==> (r matches Err(e) ==> says_failed(e, script, args))
        }),
{
    let base = choose|base: (Option<Seq<char>>, Seq<char>)| #[trigger]
        base_found(git, mode, base) && shown(
            git,
            patch_argv(mode, base.0, file.path@),
            success(),
            r,
        );
    let new = seq!["diff"@, "--no-ext-diff"@, "--no-index"@, "--"@, "/dev/null"@, file.path@];
    assert(new_file_argv(file.path@) =~= new);
    if !file.names_dir() {
        if file.status == Status::Untracked {
            let o = choose|o: Result<Vec<u8>, GitError>| #[trigger]
                ran(git, new, compared(), o) && match o {
                    Ok(bytes) => r matches Ok(s) && s@ == lossy_text(bytes@),
                    Err(e) => r == Err::<String, GitError>(e),
                };
            law_exit_codes_decide(git, script, new, compared(), o);
            assert(compared()[0] == 0i32);
            assert(compared()[1] == 1i32);
        } else {
            let args = patch_argv(mode, base.0, file.path@);
            let o = choose|o: Result<Vec<u8>, GitError>| #[trigger]
                ran(git, args, success(), o) && match o {
                    Ok(bytes) => r matches Ok(s) && s@ == lossy_text(bytes@),
                    Err(e) => r == Err::<String, GitError>(e),
                };
            lemma_success(git, script, args, o);
        }
    }
    base
}

} // verus!
