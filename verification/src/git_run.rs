//! The git commands the viewer runs and what it concludes from them.
//!
//! Running a program is left to the caller: the functions here take `git`, which runs one
//! git command in the repo and hands back what came of it. Their contracts speak of every
//! answer that `git` may give.

use vstd::prelude::*;
use vstd::string::*;

use crate::git::{FileChange, GitError, Mode, Output, RepoStats, Status, EMPTY_TREE};
use crate::git_output::{
    count_staged, file_table, lossy, lossy_text, records, split_z, staged_entries, states, table,
    tabulates, untracked_views,
};
use crate::text::{chars_of, join, joined, opt_view, text_of, trim, trimmed, views};

verus! {

/// A git command: its arguments after the directory, and the environment it needs.
#[derive(Debug)]
pub struct Invocation {
    pub args: Vec<String>,
    pub env: Vec<(String, String)>,
}

/// The contents of a list of variables.
pub open spec fn env_views(v: Seq<(String, String)>) -> Seq<(Seq<char>, Seq<char>)> {
    v.map_values(|p: (String, String)| (p.0@, p.1@))
}

/// How every git command is run. No optional lock is ever taken: agents are committing in
/// these repos at the same time.
pub fn invocation(args: &[String]) -> (r: Invocation)
    ensures
        views(r.args@) == seq!["-c"@, "core.quotepath=off"@, "-c"@, "color.ui=false"@] + views(
            args@,
        ),
        env_views(r.env@) == seq![
            ("GIT_OPTIONAL_LOCKS"@, "0"@),
            ("GIT_TERMINAL_PROMPT"@, "0"@),
        ],
{
    let mut all = argv(&["-c", "core.quotepath=off", "-c", "color.ui=false"]);
    let ghost head = all@;
    let mut i: usize = 0;
    while i < args.len()
        invariant
            i <= args.len(),
            views(all@) == views(head) + views(args@).take(i as int),
        decreases args.len() - i,
    {
        let ghost before = all@;
        all.push(args[i].clone());
        assert(views(all@) =~= views(before).push(views(args@)[i as int]));
        assert(views(all@) =~= views(head) + views(args@).take(i + 1));
        i += 1;
    }
    assert(views(args@).take(i as int) =~= views(args@));
    let mut env: Vec<(String, String)> = Vec::new();
    env.push(("GIT_OPTIONAL_LOCKS".to_owned(), "0".to_owned()));
    env.push(("GIT_TERMINAL_PROMPT".to_owned(), "0".to_owned()));
    assert(env_views(env@) =~= seq![
        ("GIT_OPTIONAL_LOCKS"@, "0"@),
        ("GIT_TERMINAL_PROMPT"@, "0"@),
    ]);
    Invocation { args: all, env }
}

/// The contents of a list of literals.
pub open spec fn str_views(v: Seq<&str>) -> Seq<Seq<char>> {
    v.map_values(|s: &str| s@)
}

/// Owned copies of a list of arguments.
pub(crate) fn argv(list: &[&str]) -> (r: Vec<String>)
    ensures
        views(r@) == str_views(list@),
{
    let mut out: Vec<String> = Vec::new();
    let mut i: usize = 0;
    while i < list.len()
        invariant
            i <= list.len(),
            views(out@) == str_views(list@).take(i as int),
        decreases list.len() - i,
    {
        let ghost before = out@;
        out.push(list[i].to_owned());
        assert(views(out@) =~= views(before).push(list[i as int]@));
        assert(views(out@) =~= str_views(list@).take(i + 1));
        i += 1;
    }
    assert(str_views(list@).take(i as int) =~= str_views(list@));
    out
}

/// Asks for the root of the repo.
pub open spec fn toplevel_argv() -> Seq<Seq<char>> {
    seq!["rev-parse"@, "--show-toplevel"@]
}

/// Asks for the branch that is checked out.
pub open spec fn branch_argv() -> Seq<Seq<char>> {
    seq!["symbolic-ref"@, "--short"@, "-q"@, "HEAD"@]
}

/// Asks for the commit that is checked out.
pub open spec fn commit_argv() -> Seq<Seq<char>> {
    seq!["rev-parse"@, "--short"@, "HEAD"@]
}

/// Asks for the branch that the remote names as its default.
pub open spec fn remote_head_argv() -> Seq<Seq<char>> {
    seq!["symbolic-ref"@, "-q"@, "--short"@, "refs/remotes/origin/HEAD"@]
}

/// Asks whether the revision `name` is known.
pub open spec fn verify_argv(name: Seq<char>) -> Seq<Seq<char>> {
    seq!["rev-parse"@, "--verify"@, "-q"@, name]
}

/// Asks where the history of HEAD left that of `b`.
pub open spec fn merge_base_argv(b: Seq<char>) -> Seq<Seq<char>> {
    seq!["merge-base"@, "HEAD"@, b]
}

/// The exit code of a command that did what it was asked.
pub open spec fn success() -> Seq<i32> {
    seq![0i32]
}

/// `git` may answer `out` when it is run with `args`.
pub open spec fn answers<F: Fn(&Vec<String>) -> Result<Output, String>>(
    git: F,
    args: Seq<Seq<char>>,
    out: Result<Output, String>,
) -> bool {
    exists|a: Vec<String>| views(a@) == args && #[trigger] call_ensures(git, (&a,), out)
}

/// The exit code; -1 stands for a command that was killed.
pub open spec fn exit_code(out: Output) -> i32 {
    match out.code {
        Some(c) => c,
        None => -1i32,
    }
}

/// What a run amounts to: its output where the exit code is one of `ok`, else an error that
/// names the command.
pub open spec fn checked(
    args: Seq<Seq<char>>,
    ok: Seq<i32>,
    out: Result<Output, String>,
    r: Result<Vec<u8>, GitError>,
) -> bool {
    match out {
        Err(cause) => r matches Err(GitError::Spawn { command, cause: c }) && command@ == join(
            args,
            " "@,
        ) && c == cause,
        Ok(o) => if ok.contains(exit_code(o)) {
            r == Ok::<Vec<u8>, GitError>(o.stdout)
        } else {
            r matches Err(GitError::Failed(msg)) && msg@ == "git "@ + join(args, " "@)
                + " failed ("@ + crate::text::integer(exit_code(o) as int) + "): "@ + trim(
                lossy_text(o.stderr@),
            )
        },
    }
}

/// Running `args` may amount to `r`.
pub open spec fn ran<F: Fn(&Vec<String>) -> Result<Output, String>>(
    git: F,
    args: Seq<Seq<char>>,
    ok: Seq<i32>,
    r: Result<Vec<u8>, GitError>,
) -> bool {
    exists|out: Result<Output, String>|
        #[trigger] answers(git, args, out) && checked(args, ok, out, r)
}

/// Whether `code` is one of `codes`.
fn among(code: i32, codes: &[i32]) -> (r: bool)
    ensures
        r == codes@.contains(code),
{
    let mut i: usize = 0;
    while i < codes.len()
        invariant
            i <= codes.len(),
            forall|j: int| 0 <= j < i ==> codes[j] != code,
        decreases codes.len() - i,
    {
        if codes[i] == code {
            return true;
        }
        i += 1;
    }
    false
}

/// Run git; exit codes in `ok_codes` count as success.
pub fn run<F: Fn(&Vec<String>) -> Result<Output, String>>(
    git: &F,
    args: &Vec<String>,
    ok_codes: &[i32],
) -> (r: Result<Vec<u8>, GitError>)
    requires
        forall|a: Vec<String>| call_requires(*git, (&a,)),
    ensures
        ran(*git, views(args@), ok_codes@, r),
{
    let out = git(args);
    assert(answers(*git, views(args@), out));
    match out {
        Err(cause) => Err(GitError::Spawn { command: joined(args, " "), cause }),
        Ok(o) => {
            let code: i32 = match o.code {
                Some(c) => c,
                None => -1,
            };
            if among(code, ok_codes) {
                return Ok(o.stdout);
            }
            let mut msg = "git ".to_owned();
            msg.append(joined(args, " ").as_str());
            msg.append(" failed (");
            msg.append(crate::text::integer_of(code as i64).as_str());
            msg.append("): ");
            msg.append(trimmed(lossy(o.stderr.as_slice()).as_str()).as_str());
            let e: Result<Vec<u8>, GitError> = Err(GitError::Failed(msg));
            assert(checked(views(args@), ok_codes@, out, e));
            e
        },
    }
}

/// Running `args` successfully may print the text `r`, white space around it aside.
pub open spec fn said<F: Fn(&Vec<String>) -> Result<Output, String>>(
    git: F,
    args: Seq<Seq<char>>,
    r: Result<String, GitError>,
) -> bool {
    exists|o: Result<Vec<u8>, GitError>| #[trigger]
        ran(git, args, success(), o) && match o {
            Ok(bytes) => r matches Ok(s) && s@ == trim(lossy_text(bytes@)),
            Err(e) => r == Err::<String, GitError>(e),
        }
}

/// Run git and take its output as text.
pub fn run_str<F: Fn(&Vec<String>) -> Result<Output, String>>(git: &F, args: &Vec<String>) -> (r:
    Result<String, GitError>)
    requires
        forall|a: Vec<String>| call_requires(*git, (&a,)),
    ensures
        said(*git, views(args@), r),
{
    let codes: [i32; 1] = [0];
    let o = run(git, args, &codes);
    assert(codes@ =~= success());
    assert(ran(*git, views(args@), success(), o));
    match o {
        Ok(bytes) => Ok(trimmed(lossy(bytes.as_slice()).as_str())),
        Err(e) => Err(e),
    }
}

/// A text that was printed and is not empty.
pub open spec fn spoken(r: Result<String, GitError>) -> Option<Seq<char>> {
    match r {
        Ok(s) => if s@.len() > 0 {
            Some(s@)
        } else {
            None
        },
        Err(_) => None,
    }
}

/// The text, where one was printed that is not empty.
fn non_empty(r: Result<String, GitError>) -> (o: Option<String>)
    ensures
        opt_view(o) == spoken(r),
{
    match r {
        Ok(s) => if s.as_str().is_empty() {
            None
        } else {
            Some(s)
        },
        Err(_) => None,
    }
}

/// `r` may be the root of the repo that `git` runs in.
pub open spec fn root_found<F: Fn(&Vec<String>) -> Result<Output, String>>(
    git: F,
    r: Option<Seq<char>>,
) -> bool {
    exists|o: Result<String, GitError>| #[trigger]
        said(git, toplevel_argv(), o) && r == spoken(o)
}

/// Root of the repo that a directory is in; `git` runs in that directory.
pub fn repo_root<F: Fn(&Vec<String>) -> Result<Output, String>>(is_dir: bool, git: &F) -> (r:
    Option<String>)
    requires
        forall|a: Vec<String>| call_requires(*git, (&a,)),
    ensures
        !is_dir ==> r is None,
        is_dir ==> root_found(*git, opt_view(r)),
{
    if !is_dir {
        return None;
    }
    let args = argv(&["rev-parse", "--show-toplevel"]);
    let o = run_str(git, &args);
    assert(views(args@) =~= toplevel_argv());
    assert(said(*git, toplevel_argv(), o));
    non_empty(o)
}

/// `r` may be the name of the branch that is checked out.
pub open spec fn branch_found<F: Fn(&Vec<String>) -> Result<Output, String>>(
    git: F,
    r: Seq<char>,
) -> bool {
    exists|o: Result<String, GitError>| #[trigger]
        said(git, branch_argv(), o) && match spoken(o) {
            Some(name) => r == name,
            None => commit_found(git, r),
        }
}

/// `r` may describe the commit that is checked out without a branch.
pub open spec fn commit_found<F: Fn(&Vec<String>) -> Result<Output, String>>(
    git: F,
    r: Seq<char>,
) -> bool {
    exists|o: Result<String, GitError>| #[trigger]
        said(git, commit_argv(), o) && match o {
            Ok(s) => r == "detached@"@ + s@,
            Err(_) => r == "(no commits)"@,
        }
}

/// Name of the branch, or where a detached HEAD is.
pub fn branch_name<F: Fn(&Vec<String>) -> Result<Output, String>>(git: &F) -> (r: String)
    requires
        forall|a: Vec<String>| call_requires(*git, (&a,)),
    ensures
        branch_found(*git, r@),
{
    let args = argv(&["symbolic-ref", "--short", "-q", "HEAD"]);
    let o = run_str(git, &args);
    assert(views(args@) =~= branch_argv());
    assert(said(*git, branch_argv(), o));
    let ghost first = o;
    if let Some(name) = non_empty(o) {
        assert(spoken(first) == Some(name@));
        return name;
    }
    let args2 = argv(&["rev-parse", "--short", "HEAD"]);
    let o2 = run_str(git, &args2);
    assert(views(args2@) =~= commit_argv());
    assert(said(*git, commit_argv(), o2));
    let r = match &o2 {
        Ok(s) => {
            let mut d = "detached@".to_owned();
            d.append(s.as_str());
            d
        },
        Err(_) => "(no commits)".to_owned(),
    };
    assert(commit_found(*git, r@));
    assert(spoken(first) is None);
    r
}

/// Whether the revision `name` may be `known`.
pub open spec fn verified<F: Fn(&Vec<String>) -> Result<Output, String>>(
    git: F,
    name: Seq<char>,
    known: bool,
) -> bool {
    exists|o: Result<Vec<u8>, GitError>| #[trigger]
        ran(git, verify_argv(name), success(), o) && known == (o is Ok)
}

/// Whether the repo knows the revision `name`.
fn knows<F: Fn(&Vec<String>) -> Result<Output, String>>(git: &F, name: &str) -> (r: bool)
    requires
        forall|a: Vec<String>| call_requires(*git, (&a,)),
    ensures
        verified(*git, name@, r),
{
    let args = argv(&["rev-parse", "--verify", "-q", name]);
    let codes: [i32; 1] = [0];
    let o = run(git, &args, &codes);
    assert(views(args@) =~= verify_argv(name@));
    assert(codes@ =~= success());
    assert(ran(*git, verify_argv(name@), success(), o));
    o.is_ok()
}

/// Whether the repo has a commit.
pub fn has_head<F: Fn(&Vec<String>) -> Result<Output, String>>(git: &F) -> (r: bool)
    requires
        forall|a: Vec<String>| call_requires(*git, (&a,)),
    ensures
        verified(*git, "HEAD"@, r),
{
    knows(git, "HEAD")
}

/// The branches that stand in for a default branch that the remote does not name.
pub open spec fn usual_branches() -> Seq<Seq<char>> {
    seq!["origin/main"@, "origin/master"@, "main"@, "master"@]
}

/// `r` may be the first of `names` that the repo knows.
pub open spec fn first_known<F: Fn(&Vec<String>) -> Result<Output, String>>(
    git: F,
    names: Seq<Seq<char>>,
    r: Option<Seq<char>>,
) -> bool
    decreases names.len(),
{
    if names.len() == 0 {
        r is None
    } else {
        ||| verified(git, names[0], true) && r == Some(names[0])
        ||| verified(git, names[0], false) && first_known(git, names.skip(1), r)
    }
}

/// `r` may be the default branch.
pub open spec fn default_found<F: Fn(&Vec<String>) -> Result<Output, String>>(
    git: F,
    r: Option<Seq<char>>,
) -> bool {
    exists|o: Result<String, GitError>| #[trigger]
        said(git, remote_head_argv(), o)
            && match spoken(o) {
            Some(name) => r == Some(name),
            None => first_known(git, usual_branches(), r),
        }
}

/// The branch that others start from.
pub fn default_branch<F: Fn(&Vec<String>) -> Result<Output, String>>(git: &F) -> (r: Option<String>)
    requires
        forall|a: Vec<String>| call_requires(*git, (&a,)),
    ensures
        default_found(*git, opt_view(r)),
{
    let args = argv(&["symbolic-ref", "-q", "--short", "refs/remotes/origin/HEAD"]);
    let o = run_str(git, &args);
    assert(views(args@) =~= remote_head_argv());
    assert(said(
        *git,
        remote_head_argv(),
        o,
    ));
    let ghost reply = o;
    if let Some(name) = non_empty(o) {
        assert(spoken(reply) == Some(name@));
        return Some(name);
    }
    assert(spoken(reply) is None);
    let names = ["origin/main", "origin/master", "main", "master"];
    let ghost all = usual_branches();
    assert(names@.len() == 4);
    let mut i: usize = 0;
    assert(all.skip(0) =~= all);
    while i < 4
        invariant
            i <= 4,
            names@.len() == 4,
            all == usual_branches(),
            forall|k: int| 0 <= k < 4 ==> (#[trigger] names@[k])@ == all[k],
            forall|a: Vec<String>| call_requires(*git, (&a,)),
            forall|x: Option<Seq<char>>| #[trigger]
                first_known(*git, all.skip(i as int), x) ==> first_known(*git, all, x),
            said(
                *git,
                remote_head_argv(),
                reply,
            ),
            spoken(reply) is None,
        decreases 4 - i,
    {
        let known = knows(git, names[i]);
        proof {
            let rest = all.skip(i as int);
            assert(rest[0] == names@[i as int]@);
            assert(rest.skip(1) =~= all.skip(i + 1));
            assert forall|x: Option<Seq<char>>| !known && #[trigger] first_known(
                *git,
                all.skip(i + 1),
                x,
            ) implies first_known(*git, all, x) by {
                assert(first_known(*git, rest, x));
            }
        }
        if known {
            let r = names[i].to_owned();
            assert(first_known(*git, all.skip(i as int), Some(r@)));
            return Some(r);
        }
        i += 1;
    }
    assert(first_known(*git, all.skip(4), None));
    None
}

/// The revision that stands for HEAD, and how it is called.
pub open spec fn head_base(head: bool) -> (Seq<char>, Seq<char>) {
    if head {
        ("HEAD"@, "HEAD"@)
    } else {
        (EMPTY_TREE@, "empty tree"@)
    }
}

/// The start of a commit name.
pub open spec fn abbreviated(s: Seq<char>) -> Seq<char> {
    if s.len() > 7 { s.take(7) } else { s }
}

/// `r` may be the diff base of `mode`: the revision, none for the index, and its description.
pub open spec fn base_found<F: Fn(&Vec<String>) -> Result<Output, String>>(
    git: F,
    mode: Mode,
    r: (Option<Seq<char>>, Seq<char>),
) -> bool {
    exists|head: bool| #[trigger]
        verified(git, "HEAD"@, head) && match mode {
            Mode::Unstaged => r == (None::<Seq<char>>, "index"@),
            Mode::Uncommitted => r == (Some(head_base(head).0), head_base(head).1),
            Mode::Staged => r == (Some(head_base(head).0), head_base(head).1),
            Mode::Branch => branch_base_found(git, head, r),
        }
}

/// The base of a branch whose start is not known.
pub open spec fn branch_fallback(head: bool) -> (Option<Seq<char>>, Seq<char>) {
    (Some(head_base(head).0), head_base(head).1 + " (no default branch)"@)
}

/// `r` may be the diff base of a branch: where it left the default branch, or HEAD where that
/// is not known.
pub open spec fn branch_base_found<F: Fn(&Vec<String>) -> Result<Output, String>>(
    git: F,
    head: bool,
    r: (Option<Seq<char>>, Seq<char>),
) -> bool {
    exists|d: Option<Seq<char>>| #[trigger]
        default_found(git, d) && match d {
            None => r == branch_fallback(head),
            Some(b) => fork_found(git, head, b, r),
        }
}

/// `r` may be the diff base of a branch whose default branch is `b`.
pub open spec fn fork_found<F: Fn(&Vec<String>) -> Result<Output, String>>(
    git: F,
    head: bool,
    b: Seq<char>,
    r: (Option<Seq<char>>, Seq<char>),
) -> bool {
    exists|o: Result<String, GitError>| #[trigger]
        said(git, merge_base_argv(b), o) && match spoken(o) {
            Some(mb) => r == (Some(mb), b + "@"@ + abbreviated(mb)),
            None => r == branch_fallback(head),
        }
}

/// A repo without commits, and so without a HEAD that others could share history with, is
/// compared with the empty tree, unless it is with the index.
pub proof fn law_no_commits_means_empty_tree<F: Fn(&Vec<String>) -> Result<Output, String>>(
    git: F,
    mode: Mode,
    r: (Option<Seq<char>>, Seq<char>),
)
    requires
        base_found(git, mode, r),
        !verified(git, "HEAD"@, true),
        forall|b: Seq<char>, o: Result<String, GitError>| #[trigger]
            said(git, merge_base_argv(b), o) ==> spoken(o) is None,
    ensures
        r.0 == (if mode == Mode::Unstaged {
            None
        } else {
            Some(EMPTY_TREE@)
        }),
{
}

/// A base as a value.
pub open spec fn base_view(r: (Option<String>, String)) -> (Option<Seq<char>>, Seq<char>) {
    (opt_view(r.0), r.1@)
}

/// Resolve the diff base revision for a mode. `None` means the index.
pub fn base_rev<F: Fn(&Vec<String>) -> Result<Output, String>>(git: &F, mode: Mode) -> (r: (
    Option<String>,
    String,
))
    requires
        forall|a: Vec<String>| call_requires(*git, (&a,)),
    ensures
        base_found(*git, mode, base_view(r)),
{
    let head = has_head(git);
    let (rev, label) = if head {
        ("HEAD".to_owned(), "HEAD")
    } else {
        (EMPTY_TREE.to_owned(), "empty tree")
    };
    match mode {
        Mode::Unstaged => {
            let r = (None, "index".to_owned());
            assert(base_view(r) == (None::<Seq<char>>, "index"@));
            r
        },
        Mode::Uncommitted | Mode::Staged => (Some(rev), label.to_owned()),
        Mode::Branch => {
            let default = default_branch(git);
            let ghost d = opt_view(default);
            assert(default_found(*git, d));
            if let Some(b) = default {
                let args = argv(&["merge-base", "HEAD", b.as_str()]);
                let o = run_str(git, &args);
                assert(views(args@) =~= merge_base_argv(b@));
                assert(said(*git, merge_base_argv(b@), o));
                let ghost reply = o;
                if let Some(mb) = non_empty(o) {
                    assert(spoken(reply) == Some(mb@));
                    let v = chars_of(mb.as_str());
                    let n: usize = if v.len() > 7 { 7 } else { v.len() };
                    let short = text_of(&v, 0, n);
                    assert(short@ =~= abbreviated(mb@));
                    let mut desc = b.clone();
                    desc.append("@");
                    desc.append(short.as_str());
                    let r = (Some(mb), desc);
                    assert(fork_found(*git, head, b@, base_view(r)));
                    assert(branch_base_found(*git, head, base_view(r)));
                    return r;
                }
                assert(spoken(reply) is None);
            }
            let mut desc = label.to_owned();
            desc.append(" (no default branch)");
            let r = (Some(rev), desc);
            assert(branch_base_found(*git, head, base_view(r)));
            r
        },
    }
}

/// Arguments that select what to compare.
pub open spec fn diff_argv(mode: Mode, base: Option<Seq<char>>) -> Seq<Seq<char>> {
    seq!["diff"@, "--no-ext-diff"@, "--no-renames"@] + (if mode == Mode::Staged {
        seq!["--cached"@]
    } else {
        Seq::empty()
    }) + (match base {
        Some(b) => seq![b],
        None => Seq::empty(),
    })
}

/// Arguments selecting what to compare, shared by numstat/name-status/patch.
pub fn diff_args(mode: Mode, base: &Option<String>) -> (r: Vec<String>)
    ensures
        views(r@) == diff_argv(mode, opt_view(*base)),
{
    let mut args = argv(&["diff", "--no-ext-diff", "--no-renames"]);
    assert(views(args@) =~= seq!["diff"@, "--no-ext-diff"@, "--no-renames"@]);
    if mode == Mode::Staged {
        let ghost before = args@;
        args.push("--cached".to_owned());
        assert(views(args@) =~= views(before).push("--cached"@));
    }
    if let Some(b) = base {
        let ghost before = args@;
        args.push(b.clone());
        assert(views(args@) =~= views(before).push(b@));
    }
    assert(views(args@) =~= diff_argv(mode, opt_view(*base)));
    args
}

/// Asks for the files that differ and how.
pub open spec fn name_status_argv(mode: Mode, base: Option<Seq<char>>) -> Seq<Seq<char>> {
    diff_argv(mode, base) + seq!["--name-status"@, "-z"@]
}

/// Asks how many lines differ in each file.
pub open spec fn numstat_argv(mode: Mode, base: Option<Seq<char>>) -> Seq<Seq<char>> {
    diff_argv(mode, base) + seq!["--numstat"@, "-z"@]
}

/// Asks for the files that are not tracked.
pub open spec fn untracked_argv() -> Seq<Seq<char>> {
    seq!["ls-files"@, "--others"@, "--exclude-standard"@, "-z"@]
}

/// Asks which changes are in the index and which are not.
pub open spec fn status_argv() -> Seq<Seq<char>> {
    seq!["status"@, "--porcelain"@, "-z"@, "--no-renames"@, "--untracked-files=all"@]
}

/// `n` may be what `count` says of the file at `path`.
pub open spec fn line_count<C: Fn(&String) -> Option<u32>>(
    count: C,
    path: Seq<char>,
    n: Option<u32>,
) -> bool {
    exists|s: String| s@ == path && #[trigger] call_ensures(count, (&s,), n)
}

/// `u` pairs each of `paths` with what `count` may say of it.
pub open spec fn line_counts<C: Fn(&String) -> Option<u32>>(
    count: C,
    paths: Seq<Seq<char>>,
    u: Seq<(Seq<char>, Option<u32>)>,
) -> bool {
    &&& u.len() == paths.len()
    &&& forall|i: int|
        0 <= i < u.len() ==> (#[trigger] u[i]).0 == paths[i] && line_count(count, paths[i], u[i].1)
}

/// `r` may be the state of the repo in `mode`.
pub open spec fn stats_found<
    F: Fn(&Vec<String>) -> Result<Output, String>,
    C: Fn(&String) -> Option<u32>,
>(git: F, count: C, mode: Mode, r: Result<RepoStats, GitError>) -> bool {
    exists|base: (Option<Seq<char>>, Seq<char>)| #[trigger]
        base_found(git, mode, base) && names_found(git, count, mode, base, r)
}

/// `r` may be the state of the repo, once the diff base is known.
pub open spec fn names_found<
    F: Fn(&Vec<String>) -> Result<Output, String>,
    C: Fn(&String) -> Option<u32>,
>(
    git: F,
    count: C,
    mode: Mode,
    base: (Option<Seq<char>>, Seq<char>),
    r: Result<RepoStats, GitError>,
) -> bool {
    exists|o: Result<Vec<u8>, GitError>| #[trigger]
        ran(git, name_status_argv(mode, base.0), success(), o) && match o {
            Ok(names) => counts_found(git, count, mode, base, names@, r),
            Err(e) => r == Err::<RepoStats, GitError>(e),
        }
}

/// `r` may be the state of the repo, once it is known which files differ.
pub open spec fn counts_found<
    F: Fn(&Vec<String>) -> Result<Output, String>,
    C: Fn(&String) -> Option<u32>,
>(
    git: F,
    count: C,
    mode: Mode,
    base: (Option<Seq<char>>, Seq<char>),
    names: Seq<u8>,
    r: Result<RepoStats, GitError>,
) -> bool {
    exists|o: Result<Vec<u8>, GitError>| #[trigger]
        ran(git, numstat_argv(mode, base.0), success(), o) && match o {
            Ok(counts) => if mode == Mode::Staged {
                listing_found(git, base.1, names, counts@, Seq::empty(), r)
            } else {
                untracked_found(git, count, base.1, names, counts@, r)
            },
            Err(e) => r == Err::<RepoStats, GitError>(e),
        }
}

/// `r` may be the state of the repo, once it is known which files differ and how much.
pub open spec fn untracked_found<
    F: Fn(&Vec<String>) -> Result<Output, String>,
    C: Fn(&String) -> Option<u32>,
>(
    git: F,
    count: C,
    base: Seq<char>,
    names: Seq<u8>,
    counts: Seq<u8>,
    r: Result<RepoStats, GitError>,
) -> bool {
    exists|o: Result<Vec<u8>, GitError>| #[trigger]
        ran(git, untracked_argv(), success(), o) && match o {
            Ok(list) => exists|u: Seq<(Seq<char>, Option<u32>)>| #[trigger]
                line_counts(count, records(list@), u) && listing_found(
                    git,
                    base,
                    names,
                    counts,
                    u,
                    r,
                ),
            Err(e) => r == Err::<RepoStats, GitError>(e),
        }
}

/// What was printed; nothing where the command failed.
pub open spec fn printed(o: Result<Vec<u8>, GitError>) -> Seq<u8> {
    match o {
        Ok(bytes) => bytes@,
        Err(_) => Seq::empty(),
    }
}

/// `r` may be the state of the repo, once all its files are known.
pub open spec fn listing_found<F: Fn(&Vec<String>) -> Result<Output, String>>(
    git: F,
    base: Seq<char>,
    names: Seq<u8>,
    counts: Seq<u8>,
    untracked: Seq<(Seq<char>, Option<u32>)>,
    r: Result<RepoStats, GitError>,
) -> bool {
    exists|o: Result<Vec<u8>, GitError>| #[trigger]
        ran(git, status_argv(), success(), o) && (r matches Ok(stats) && {
            &&& branch_found(git, stats.branch@)
            &&& stats.base@ == base
            &&& tabulates(stats.files@, table(names, counts, untracked, printed(o)))
            &&& stats.staged == staged_entries(states(records(printed(o))))
        })
}

/// The state of the repo that `git` runs in. `count` tells how many lines the file at a path
/// of the repo has.
pub fn repo_stats<
    F: Fn(&Vec<String>) -> Result<Output, String>,
    C: Fn(&String) -> Option<u32>,
>(git: &F, count: &C, mode: Mode) -> (r: Result<RepoStats, GitError>)
    requires
        forall|a: Vec<String>| call_requires(*git, (&a,)),
        forall|p: String| call_requires(*count, (&p,)),
    ensures
        stats_found(*git, *count, mode, r),
{
    let codes: [i32; 1] = [0];
    assert(codes@ =~= success());
    let (base, label) = base_rev(git, mode);
    let ghost b = (opt_view(base), label@);
    assert(base_found(*git, mode, b));
    let args = diff_args(mode, &base);
    let name_args = extended(&args, &["--name-status", "-z"]);
    assert(views(name_args@) =~= name_status_argv(mode, b.0));
    let name_out = run(git, &name_args, &codes);
    assert(ran(*git, name_status_argv(mode, b.0), success(), name_out));
    let names = match name_out {
        Ok(n) => n,
        Err(e) => {
            let r: Result<RepoStats, GitError> = Err(e);
            assert(names_found(*git, *count, mode, b, r));
            return r;
        },
    };
    let num_args = extended(&args, &["--numstat", "-z"]);
    assert(views(num_args@) =~= numstat_argv(mode, b.0));
    let num_out = run(git, &num_args, &codes);
    assert(ran(*git, numstat_argv(mode, b.0), success(), num_out));
    let counts = match num_out {
        Ok(n) => n,
        Err(e) => {
            let r: Result<RepoStats, GitError> = Err(e);
            assert(counts_found(*git, *count, mode, b, names@, r));
            assert(names_found(*git, *count, mode, b, r));
            return r;
        },
    };
    let mut untracked: Vec<(String, Option<u32>)> = Vec::new();
    assert(untracked_views(untracked@) =~= Seq::empty());
    let ghost mut list_out: Result<Vec<u8>, GitError> = Ok(counts);
    if mode.includes_untracked() {
        let list_args = argv(&["ls-files", "--others", "--exclude-standard", "-z"]);
        assert(views(list_args@) =~= untracked_argv());
        let out = run(git, &list_args, &codes);
        assert(ran(*git, untracked_argv(), success(), out));
        proof {
            list_out = out;
        }
        match out {
            Ok(list) => {
                untracked = counted_files(count, list.as_slice());
            },
            Err(e) => {
                let r: Result<RepoStats, GitError> = Err(e);
                assert(untracked_found(*git, *count, b.1, names@, counts@, r));
                assert(counts_found(*git, *count, mode, b, names@, r));
                assert(names_found(*git, *count, mode, b, r));
                return r;
            },
        }
    }
    let ghost u = untracked_views(untracked@);
    let state_args = argv(
        &["status", "--porcelain", "-z", "--no-renames", "--untracked-files=all"],
    );
    assert(views(state_args@) =~= status_argv());
    let state_out = run(git, &state_args, &codes);
    assert(ran(*git, status_argv(), success(), state_out));
    let ghost so = state_out;
    let porcelain = match state_out {
        Ok(p) => p,
        Err(_) => Vec::new(),
    };
    assert(porcelain@ =~= printed(so));
    let files = file_table(
        names.as_slice(),
        counts.as_slice(),
        untracked.as_slice(),
        porcelain.as_slice(),
    );
    let stats = RepoStats {
        branch: branch_name(git),
        base: label,
        files,
        staged: count_staged(porcelain.as_slice()),
    };
    let r: Result<RepoStats, GitError> = Ok(stats);
    proof {
        assert(listing_found(*git, b.1, names@, counts@, u, r));
        if mode != Mode::Staged {
            assert(line_counts(*count, records(list_out->Ok_0@), u));
            assert(untracked_found(*git, *count, b.1, names@, counts@, r));
        }
        assert(counts_found(*git, *count, mode, b, names@, r));
        assert(names_found(*git, *count, mode, b, r));
    }
    r
}

/// `args` with `extra` behind them.
pub(crate) fn extended(args: &Vec<String>, extra: &[&str]) -> (r: Vec<String>)
    ensures
        views(r@) == views(args@) + str_views(extra@),
{
    let mut all: Vec<String> = Vec::new();
    let mut i: usize = 0;
    while i < args.len()
        invariant
            i <= args.len(),
            views(all@) == views(args@).take(i as int),
        decreases args.len() - i,
    {
        let ghost before = all@;
        all.push(args[i].clone());
        assert(views(all@) =~= views(before).push(views(args@)[i as int]));
        assert(views(all@) =~= views(args@).take(i + 1));
        i += 1;
    }
    assert(views(args@).take(i as int) =~= views(args@));
    let mut k: usize = 0;
    while k < extra.len()
        invariant
            k <= extra.len(),
            views(all@) == views(args@) + str_views(extra@).take(k as int),
        decreases extra.len() - k,
    {
        let ghost before = all@;
        all.push(extra[k].to_owned());
        assert(views(all@) =~= views(before).push(str_views(extra@)[k as int]));
        assert(views(all@) =~= views(args@) + str_views(extra@).take(k + 1));
        k += 1;
    }
    assert(str_views(extra@).take(k as int) =~= str_views(extra@));
    all
}

/// The files of a NUL-separated list with their line counts.
fn counted_files<C: Fn(&String) -> Option<u32>>(count: &C, list: &[u8]) -> (r: Vec<
    (String, Option<u32>),
>)
    requires
        forall|p: String| call_requires(*count, (&p,)),
    ensures
        line_counts(*count, records(list@), untracked_views(r@)),
{
    let paths = split_z(list);
    let mut out: Vec<(String, Option<u32>)> = Vec::new();
    let ghost recs = records(list@);
    let mut i: usize = 0;
    while i < paths.len()
        invariant
            i <= paths.len(),
            views(paths@) == recs,
            out@.len() == i,
            forall|p: String| call_requires(*count, (&p,)),
            line_counts(*count, recs.take(i as int), untracked_views(out@)),
        decreases paths.len() - i,
    {
        let ghost before = untracked_views(out@);
        let n = count(&paths[i]);
        assert(views(paths@)[i as int] == paths[i as int]@);
        assert(line_count(*count, recs[i as int], n));
        out.push((paths[i].clone(), n));
        assert(untracked_views(out@) =~= before.push((recs[i as int], n)));
        i += 1;
    }
    assert(recs.take(i as int) =~= recs);
    out
}

/// Asks for the diff of a file that is not tracked.
pub open spec fn new_file_argv(path: Seq<char>) -> Seq<Seq<char>> {
    seq!["diff"@, "--no-ext-diff"@, "--no-index"@, "--"@, "/dev/null"@, path]
}

/// Asks for the diff of a file.
pub open spec fn patch_argv(mode: Mode, base: Option<Seq<char>>, path: Seq<char>) -> Seq<
    Seq<char>,
> {
    diff_argv(mode, base) + seq!["--"@, path]
}

/// The exit codes of a comparison outside the repo: no difference, or one.
pub open spec fn compared() -> Seq<i32> {
    seq![0i32, 1i32]
}

/// `r` may be the text that running `args` printed.
pub open spec fn shown<F: Fn(&Vec<String>) -> Result<Output, String>>(
    git: F,
    args: Seq<Seq<char>>,
    ok: Seq<i32>,
    r: Result<String, GitError>,
) -> bool {
    exists|o: Result<Vec<u8>, GitError>| #[trigger]
        ran(git, args, ok, o) && match o {
            Ok(bytes) => r matches Ok(s) && s@ == lossy_text(bytes@),
            Err(e) => r == Err::<String, GitError>(e),
        }
}

/// `r` may be the diff of `file` in `mode`.
pub open spec fn diff_found<F: Fn(&Vec<String>) -> Result<Output, String>>(
    git: F,
    mode: Mode,
    file: FileChange,
    r: Result<String, GitError>,
) -> bool {
    if file.names_dir() {
        r matches Ok(s) && s@ == "untracked directory (nested git repo): "@ + file.path@ + "\n"@
    } else if file.status == Status::Untracked {
        shown(git, new_file_argv(file.path@), compared(), r)
    } else {
        exists|base: (Option<Seq<char>>, Seq<char>)| #[trigger]
            base_found(git, mode, base) && shown(
                git,
                patch_argv(mode, base.0, file.path@),
                success(),
                r,
            )
    }
}

/// Unified diff text for one file.
pub fn file_diff<F: Fn(&Vec<String>) -> Result<Output, String>>(
    git: &F,
    mode: Mode,
    file: &FileChange,
) -> (r: Result<String, GitError>)
    requires
        forall|a: Vec<String>| call_requires(*git, (&a,)),
    ensures
        diff_found(*git, mode, *file, r),
{
    if file.is_dir() {
        let mut s = "untracked directory (nested git repo): ".to_owned();
        s.append(file.path.as_str());
        s.append("\n");
        return Ok(s);
    }
    if file.status == Status::Untracked {
        let args = argv(
            &["diff", "--no-ext-diff", "--no-index", "--", "/dev/null", file.path.as_str()],
        );
        assert(views(args@) =~= new_file_argv(file.path@));
        let codes: [i32; 2] = [0, 1];
        assert(codes@ =~= compared());
        let out = run(git, &args, &codes);
        assert(ran(*git, new_file_argv(file.path@), compared(), out));
        return match out {
            Ok(bytes) => Ok(lossy(bytes.as_slice())),
            Err(e) => Err(e),
        };
    }
    let (base, label) = base_rev(git, mode);
    let ghost b = (opt_view(base), label@);
    assert(base_found(*git, mode, b));
    let args = extended(&diff_args(mode, &base), &["--", file.path.as_str()]);
    assert(views(args@) =~= patch_argv(mode, b.0, file.path@));
    let codes: [i32; 1] = [0];
    assert(codes@ =~= success());
    let out = run(git, &args, &codes);
    assert(ran(*git, patch_argv(mode, b.0, file.path@), success(), out));
    let r = match out {
        Ok(bytes) => Ok(lossy(bytes.as_slice())),
        Err(e) => Err(e),
    };
    assert(shown(*git, patch_argv(mode, b.0, file.path@), success(), r));
    r
}

} // verus!
