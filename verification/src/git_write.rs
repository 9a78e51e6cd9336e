//! The git commands behind staging, unstaging and committing.

use vstd::prelude::*;
use vstd::string::*;

use crate::diff::{expanded, hunks_above, is_hunk, line_views, parsed, DiffLine};
use crate::git::{GitError, GitOp, Mode, Output};
use crate::git_output::{lossy, lossy_text};
use crate::git_run::{
    argv, base_found, base_rev, diff_args, extended, patch_argv, ran, run, shown, success,
};
use crate::text::{
    chars_of, first, join, joined, lines, lines_of, opt_view, replace_from, same_text, split,
    split_at, starts_with, views,
};

verus! {

// ---------------------------------------------------------------------------------------
// One hunk as a patch

/// The line starts a hunk.
pub open spec fn starts_hunk(l: Seq<char>) -> bool {
    "@@"@.is_prefix_of(l)
}

/// Index of the line that starts hunk number `k`, counted from line `i` on.
pub open spec fn nth_hunk(ls: Seq<Seq<char>>, k: int, i: int) -> Option<int>
    decreases ls.len() - i,
{
    if i < 0 || i >= ls.len() {
        None
    } else if starts_hunk(ls[i]) {
        if k <= 0 {
            Some(i)
        } else {
            nth_hunk(ls, k - 1, i + 1)
        }
    } else {
        nth_hunk(ls, k, i + 1)
    }
}

/// `s` with a newline at its end.
pub open spec fn ended(s: Seq<char>) -> Seq<char> {
    if s.len() > 0 && s.last() == '\n' {
        s
    } else {
        s.push('\n')
    }
}

/// The part of a diff of one file that is its hunk number `k`: what stands above the first
/// hunk, and that hunk, character by character. Nothing where the diff has no such hunk or its
/// header is another one: then the diff has changed since the hunk was picked.
pub open spec fn patch_of(diff: Seq<char>, k: int, header: Seq<char>) -> Option<Seq<char>> {
    let shown = lines(diff);
    match (nth_hunk(shown, 0, 0), nth_hunk(shown, k, 0)) {
        (Some(first), Some(at)) => if expanded(shown[at]) == header {
            let ls = split(diff, '\n');
            let end = match nth_hunk(shown, 0, at + 1) {
                Some(next) => next,
                None => ls.len() as int,
            };
            Some(ended(join(ls.take(first) + ls.subrange(at, end), "\n"@)))
        } else {
            None
        },
        _ => None,
    }
}

/// A hunk that was picked on screen is found in the diff as long as that has not changed.
pub proof fn law_picked_hunk_is_found(diff: Seq<char>, ls: Seq<DiffLine>, at: int)
    requires
        line_views(ls) == parsed(diff),
        is_hunk(ls, at),
    ensures
        patch_of(diff, hunks_above(ls, at) as int, ls[at].text@) is Some,
{
    let raws = lines(diff);
    assert(ls.len() == line_views(ls).len());
    assert forall|i: int| 0 <= i < ls.len() implies #[trigger] is_hunk(ls, i) == starts_hunk(
        raws[i],
    ) by {
        assert(line_views(ls)[i] == ls[i]@);
    }
    assert(line_views(ls)[at] == ls[at]@);
    lemma_nth_hunk(raws, ls, 0, at);
    lemma_some_hunk(raws, 0, at);
}

proof fn lemma_nth_hunk(raws: Seq<Seq<char>>, ls: Seq<DiffLine>, i: int, at: int)
    requires
        raws.len() == ls.len(),
        0 <= i <= at < ls.len(),
        is_hunk(ls, at),
        forall|j: int| 0 <= j < ls.len() ==> #[trigger] is_hunk(ls, j) == starts_hunk(raws[j]),
    ensures
        hunks_above(ls, i) <= hunks_above(ls, at),
        nth_hunk(raws, hunks_above(ls, at) - hunks_above(ls, i), i) == Some(at),
    decreases at - i,
{
    if i < at {
        lemma_nth_hunk(raws, ls, i + 1, at);
        assert(hunks_above(ls, i + 1) == hunks_above(ls, i) + (if is_hunk(ls, i) {
            1nat
        } else {
            0nat
        }));
    }
    assert(is_hunk(ls, i) == starts_hunk(raws[i]));
}

proof fn lemma_some_hunk(raws: Seq<Seq<char>>, i: int, at: int)
    requires
        0 <= i <= at < raws.len(),
        starts_hunk(raws[at]),
    ensures
        nth_hunk(raws, 0, i) is Some,
    decreases at - i,
{
    if i < at && !starts_hunk(raws[i]) {
        lemma_some_hunk(raws, i + 1, at);
    }
}

/// A text has at least as many pieces between newlines as lines.
proof fn lemma_lines_in_split(s: Seq<char>)
    ensures
        lines(s).len() <= split(s, '\n').len(),
    decreases s.len(),
{
    let n = first(s, '\n') as int;
    if n < s.len() {
        lemma_lines_in_split(s.skip(n + 1));
    }
}

/// Find the line that starts hunk number `k`.
fn find_hunk(ls: &Vec<String>, k: usize, from: usize) -> (r: Option<usize>)
    ensures
        match r {
            Some(i) => nth_hunk(views(ls@), k as int, from as int) == Some(i as int) && from <= i
                < ls@.len(),
            None => nth_hunk(views(ls@), k as int, from as int) is None,
        },
{
    let ghost all = views(ls@);
    let mut left: usize = k;
    let mut i: usize = from;
    while i < ls.len()
        invariant
            from <= i,
            all == views(ls@),
            nth_hunk(all, k as int, from as int) == nth_hunk(all, left as int, i as int),
        decreases ls.len() - i,
    {
        let v = chars_of(ls[i].as_str());
        assert(all[i as int] == ls[i as int]@);
        if starts_with(&v, "@@") {
            if left == 0 {
                return Some(i);
            }
            left -= 1;
        }
        i += 1;
    }
    None
}

/// The part of a diff of one file that is its hunk number `k`, where its header is still
/// `header`.
pub fn hunk_patch(diff: &str, k: usize, header: &str) -> (r: Option<String>)
    ensures
        opt_view(r) == patch_of(diff@, k as int, header@),
{
    let v = chars_of(diff);
    let shown = lines_of(&v);
    let ls = split_at(&v, '\n');
    let ghost all = split(diff@, '\n');
    proof {
        lemma_lines_in_split(diff@);
        assert(shown@.len() == views(shown@).len());
        assert(ls@.len() == all.len());
    }
    let first: usize = match find_hunk(&shown, 0, 0) {
        Some(i) => i,
        None => {
            return None;
        },
    };
    let at: usize = match find_hunk(&shown, k, 0) {
        Some(i) => i,
        None => {
            return None;
        },
    };
    let raw = chars_of(shown[at].as_str());
    assert(raw@ == lines(diff@)[at as int]);
    assert(raw@.skip(0) =~= raw@);
    if !same_text(replace_from(&raw, 0, '\t', "    ").as_str(), header) {
        return None;
    }
    let end: usize = match find_hunk(&shown, 0, at + 1) {
        Some(i) => i,
        None => ls.len(),
    };
    let mut parts: Vec<String> = Vec::new();
    let mut i: usize = 0;
    assert(views(parts@) =~= all.take(0));
    while i < first
        invariant
            i <= first < ls.len(),
            all == views(ls@),
            views(parts@) == all.take(i as int),
        decreases first - i,
    {
        let ghost before = parts@;
        parts.push(ls[i].clone());
        assert(views(parts@) =~= views(before).push(all[i as int]));
        assert(views(parts@) =~= all.take(i + 1));
        i += 1;
    }
    let ghost head = all.take(first as int);
    let mut j: usize = at;
    assert(views(parts@) =~= head + all.subrange(at as int, at as int));
    while j < end
        invariant
            at <= j <= end <= ls.len(),
            all == views(ls@),
            views(parts@) == head + all.subrange(at as int, j as int),
        decreases end - j,
    {
        let ghost before = parts@;
        parts.push(ls[j].clone());
        assert(views(parts@) =~= views(before).push(all[j as int]));
        assert(views(parts@) =~= head + all.subrange(at as int, j + 1));
        j += 1;
    }
    let mut text = joined(&parts, "\n");
    let t = chars_of(text.as_str());
    if t.len() == 0 || t[t.len() - 1] != '\n' {
        text.push('\n');
    }
    Some(text)
}

// ---------------------------------------------------------------------------------------
// Commands

/// The command for a write. A hunk goes in as a patch on the standard input.
pub open spec fn write_argv(op: GitOp) -> Seq<Seq<char>> {
    match op {
        GitOp::Stage(paths) => seq!["add"@, "--"@] + views(paths@),
        GitOp::StageAll => seq!["add"@, "-A"@],
        GitOp::Unstage(paths) => seq!["reset"@, "-q"@, "--"@] + views(paths@),
        GitOp::UnstageAll => seq!["reset"@, "-q"@],
        GitOp::ApplyHunk { reverse, .. } => if reverse {
            seq!["apply"@, "--cached"@, "--reverse"@, "-"@]
        } else {
            seq!["apply"@, "--cached"@, "-"@]
        },
        GitOp::Commit { message } => seq!["commit"@, "-m"@, message@],
    }
}

/// `head` with `tail` behind it.
fn with_paths(head: Vec<String>, tail: &Vec<String>) -> (r: Vec<String>)
    ensures
        views(r@) == views(head@) + views(tail@),
{
    let mut all = head;
    let ghost start = views(all@);
    let mut i: usize = 0;
    assert(start + views(tail@).take(0) =~= start);
    while i < tail.len()
        invariant
            i <= tail.len(),
            views(all@) == start + views(tail@).take(i as int),
        decreases tail.len() - i,
    {
        let ghost before = all@;
        all.push(tail[i].clone());
        assert(views(all@) =~= views(before).push(views(tail@)[i as int]));
        assert(views(all@) =~= start + views(tail@).take(i + 1));
        i += 1;
    }
    assert(views(tail@).take(i as int) =~= views(tail@));
    all
}

/// The command for a write.
pub fn write_args(op: &GitOp) -> (r: Vec<String>)
    ensures
        views(r@) == write_argv(*op),
{
    let args = match op {
        GitOp::Stage(paths) => with_paths(argv(&["add", "--"]), paths),
        GitOp::StageAll => argv(&["add", "-A"]),
        GitOp::Unstage(paths) => with_paths(argv(&["reset", "-q", "--"]), paths),
        GitOp::UnstageAll => argv(&["reset", "-q"]),
        GitOp::ApplyHunk { reverse, .. } => if *reverse {
            argv(&["apply", "--cached", "--reverse", "-"])
        } else {
            argv(&["apply", "--cached", "-"])
        },
        GitOp::Commit { message } => argv(&["commit", "-m", message.as_str()]),
    };
    assert(views(args@) =~= write_argv(*op));
    args
}

/// The first line of a text.
pub open spec fn first_line(text: Seq<char>) -> Seq<char> {
    if lines(text).len() == 0 {
        Seq::empty()
    } else {
        lines(text)[0]
    }
}

/// What to say of a write that is done; of a commit, the first line that git printed.
pub open spec fn done_text(op: GitOp, printed: Seq<char>) -> Seq<char> {
    match op {
        GitOp::Stage(paths) => "staged "@ + join(views(paths@), ", "@),
        GitOp::StageAll => "staged everything"@,
        GitOp::Unstage(paths) => "unstaged "@ + join(views(paths@), ", "@),
        GitOp::UnstageAll => "unstaged everything"@,
        GitOp::ApplyHunk { path, reverse, .. } => if reverse {
            "unstaged a hunk of "@ + path@
        } else {
            "staged a hunk of "@ + path@
        },
        GitOp::Commit { .. } => first_line(printed),
    }
}

/// What to say of a write that is done.
fn done_message(op: &GitOp, printed: &str) -> (r: String)
    ensures
        r@ == done_text(*op, printed@),
{
    match op {
        GitOp::Stage(paths) => {
            let mut s = "staged ".to_owned();
            s.append(joined(paths, ", ").as_str());
            s
        },
        GitOp::StageAll => "staged everything".to_owned(),
        GitOp::Unstage(paths) => {
            let mut s = "unstaged ".to_owned();
            s.append(joined(paths, ", ").as_str());
            s
        },
        GitOp::UnstageAll => "unstaged everything".to_owned(),
        GitOp::ApplyHunk { path, reverse, .. } => {
            let mut s = if *reverse {
                "unstaged a hunk of ".to_owned()
            } else {
                "staged a hunk of ".to_owned()
            };
            s.append(path.as_str());
            s
        },
        GitOp::Commit { .. } => {
            let v = chars_of(printed);
            let ls = lines_of(&v);
            if ls.len() == 0 {
                let s = String::new();
                assert(s@ =~= first_line(printed@));
                s
            } else {
                assert(views(ls@)[0] == ls[0]@);
                ls[0].clone()
            }
        },
    }
}

/// The mode in which a hunk is staged, or unstaged.
pub open spec fn hunk_mode(reverse: bool) -> Mode {
    if reverse {
        Mode::Staged
    } else {
        Mode::Unstaged
    }
}

/// `o` may be the diff that a hunk was picked from.
pub open spec fn hunk_source<F: Fn(&Vec<String>) -> Result<Output, String>>(
    git: F,
    path: Seq<char>,
    reverse: bool,
    o: Result<String, GitError>,
) -> bool {
    exists|base: (Option<Seq<char>>, Seq<char>)| #[trigger]
        base_found(git, hunk_mode(reverse), base) && shown(
            git,
            patch_argv(hunk_mode(reverse), base.0, path),
            success(),
            o,
        )
}

/// What is written to the standard input of the command for a write: the patch of the hunk;
/// nothing for the others.
pub open spec fn input_found<F: Fn(&Vec<String>) -> Result<Output, String>>(
    git: F,
    op: GitOp,
    r: Result<Option<String>, String>,
) -> bool {
    match op {
        GitOp::ApplyHunk { path, hunk, header, reverse } => exists|o: Result<String, GitError>|
            #[trigger] hunk_source(git, path@, reverse, o) && match o {
                Err(e) => r matches Err(msg) && msg@ == e.whole(),
                Ok(diff) => match patch_of(diff@, hunk as int, header@) {
                    Some(p) => r matches Ok(Some(s)) && s@ == p,
                    None => r matches Err(msg) && msg@
                        == "the diff has changed since this hunk was loaded"@,
                },
            },
        _ => r == Ok::<Option<String>, String>(None),
    }
}

/// Prepare what goes to the standard input of the command for a write.
pub fn write_input<F: Fn(&Vec<String>) -> Result<Output, String>>(git: &F, op: &GitOp) -> (r:
    Result<Option<String>, String>)
    requires
        forall|a: Vec<String>| call_requires(*git, (&a,)),
    ensures
        input_found(*git, *op, r),
{
    match op {
        GitOp::ApplyHunk { path, hunk, header, reverse } => {
            let mode = if *reverse {
                Mode::Staged
            } else {
                Mode::Unstaged
            };
            let (base, label) = base_rev(git, mode);
            let ghost b = (opt_view(base), label@);
            assert(base_found(*git, hunk_mode(*reverse), b));
            let args = extended(&diff_args(mode, &base), &["--", path.as_str()]);
            assert(views(args@) =~= patch_argv(mode, b.0, path@));
            let codes: [i32; 1] = [0];
            assert(codes@ =~= success());
            let out = run(git, &args, &codes);
            assert(ran(*git, patch_argv(mode, b.0, path@), success(), out));
            let text: Result<String, GitError> = match out {
                Ok(bytes) => Ok(lossy(bytes.as_slice())),
                Err(e) => Err(e),
            };
            assert(shown(*git, patch_argv(mode, b.0, path@), success(), text));
            assert(hunk_source(*git, path@, *reverse, text));
            match &text {
                Err(e) => Err(e.full()),
                Ok(diff) => match hunk_patch(diff.as_str(), *hunk, header.as_str()) {
                    Some(p) => Ok(Some(p)),
                    None => Err("the diff has changed since this hunk was loaded".to_owned()),
                },
            }
        },
        _ => Ok(None),
    }
}

/// What came of a write: what to say of it, or what went wrong.
pub fn write_result(op: &GitOp, out: &Result<Vec<u8>, GitError>) -> (r: Result<String, String>)
    ensures
        match *out {
            Ok(bytes) => r matches Ok(s) && s@ == done_text(*op, lossy_text(bytes@)),
            Err(e) => r matches Err(msg) && msg@ == e.whole(),
        },
{
    match out {
        Ok(bytes) => Ok(done_message(op, lossy(bytes.as_slice()).as_str())),
        Err(e) => Err(e.full()),
    }
}

} // verus!
