//! What git is asked and how its answers are read.

use std::cell::RefCell;

use herdiff::diff::{hunk_index, parse_unified};
use herdiff::git::{
    file_diff, repo_root, repo_stats, FileChange, GitError, GitOp, Mode, Output, RepoStats, Status,
};
use herdiff::git_output::{
    count_file, count_lines, count_staged, file_table, parse_name_status, parse_numstat,
    numstats_of, parse_states, staged_in, states_of, statuses_of, tabulate,
};
use herdiff::git_run::{
    base_rev, branch_name, default_branch, diff_args, invocation, run,
};
use herdiff::git_write::{hunk_patch, write_args, write_input, write_result};

#[test]
fn parses_name_status_and_numstat() {
    let ns = b"M\0src/a.rs\0D\0gone.txt\0";
    assert_eq!(
        parse_name_status(ns),
        vec![
            (Status::Modified, "src/a.rs".into()),
            (Status::Deleted, "gone.txt".into())
        ]
    );
    let num = b"3\t1\tsrc/a.rs\0-\t-\timg.png\0";
    assert_eq!(
        parse_numstat(num),
        vec![
            (Some(3), Some(1), "src/a.rs".into()),
            (None, None, "img.png".into())
        ]
    );
}

#[test]
fn odd_git_output() {
    // A status without a path is dropped, a path with tabs is kept whole.
    assert_eq!(parse_name_status(b"A\0x\0M\0"), vec![(Status::Added, "x".into())]);
    assert_eq!(parse_name_status(b""), vec![]);
    assert_eq!(parse_name_status(b"T\0t\0U\0u\0")[0].0, Status::TypeChanged);
    assert_eq!(parse_name_status(b"T\0t\0U\0u\0")[1].0, Status::Other('U'));
    assert_eq!(parse_numstat(b"1\t2\ta\tb\0007\0"), vec![(Some(1), Some(2), "a\tb".into())]);
    // What is no UTF-8 is replaced.
    assert_eq!(parse_name_status(b"M\0\xff\0")[0].1, "\u{fffd}");
    assert_eq!(parse_states(b"MM x\0?? y z\0"), vec![
        ('M', 'M', "x".into()),
        ('?', '?', "y z".into())
    ]);
    assert_eq!(count_staged(b"M  a\0 M b\0A  c\0?? d\0"), 2);
}

fn change(path: &str, status: Status) -> FileChange {
    FileChange {
        path: path.into(),
        status,
        added: Some(1),
        removed: Some(0),
        index: ' ',
        worktree: 'M',
    }
}

#[test]
fn modes_and_statuses() {
    assert_eq!(Mode::Uncommitted.next(), Mode::Unstaged);
    assert_eq!(Mode::Unstaged.next(), Mode::Staged);
    assert_eq!(Mode::Staged.next(), Mode::Branch);
    assert_eq!(Mode::Branch.next(), Mode::Uncommitted);
    assert_eq!(Mode::Branch.label(), "branch");
    assert!(!Mode::Staged.includes_untracked() && Mode::Branch.includes_untracked());
    for (c, s) in [
        ('A', Status::Added),
        ('M', Status::Modified),
        ('D', Status::Deleted),
        ('T', Status::TypeChanged),
        ('X', Status::Other('X')),
    ] {
        assert_eq!(Status::from_letter(c), s);
        assert_eq!(s.letter(), c);
    }
    assert_eq!(Status::Untracked.letter(), '?');
    assert!(change("dir/", Status::Untracked).is_dir());
    assert!(!change("dir", Status::Untracked).is_dir());
}

#[test]
fn totals_add_up() {
    let mut stats = RepoStats::default();
    assert_eq!(stats.totals(), (0, 0));
    stats.files.push(change("a", Status::Modified));
    stats.files.push(FileChange {
        added: None,
        removed: None,
        ..change("b", Status::Modified)
    });
    stats.files.push(FileChange {
        added: Some(4),
        removed: Some(7),
        ..change("c", Status::Modified)
    });
    assert_eq!(stats.totals(), (5, 7));
}

#[test]
fn line_counts() {
    assert_eq!(count_lines(b""), Some(0));
    assert_eq!(count_lines(b"a\nb\n"), Some(2));
    assert_eq!(count_lines(b"x\ny"), Some(2));
    assert_eq!(count_lines(b"a\0b\n"), None);
    let read = || Some(b"1\n2\n".to_vec());
    assert_eq!(count_file(Some((true, 4)), &read), Some(2));
    assert_eq!(count_file(Some((true, 2 * 1024 * 1024)), &read), Some(2));
    assert_eq!(count_file(Some((true, 2 * 1024 * 1024 + 1)), &read), None);
    assert_eq!(count_file(Some((false, 4)), &read), None);
    assert_eq!(count_file(None, &read), None);
    assert_eq!(count_file(Some((true, 4)), &|| None), None);
}

#[test]
fn file_table_merges_and_sorts() {
    let files = file_table(
        b"M\0b\0A\0a\0",
        b"2\t1\tb\0-\t-\ta\0",
        &[("c/".to_string(), None), ("0".to_string(), Some(3))],
        b"MM b\0A  a\0?? c/\0",
    );
    let got: Vec<_> = files
        .iter()
        .map(|f| (f.path.as_str(), f.status.letter(), f.added, f.removed, f.index, f.worktree))
        .collect();
    assert_eq!(
        got,
        vec![
            ("0", '?', Some(3), Some(0), '?', '?'),
            ("a", 'A', None, None, 'A', ' '),
            ("b", 'M', Some(2), Some(1), 'M', 'M'),
            ("c/", '?', None, None, '?', '?'),
        ]
    );
    assert!(files[1].has_staged() && !files[1].has_unstaged());
    assert!(files[2].has_staged() && files[2].has_unstaged());
    assert!(!files[3].has_staged() && files[3].has_unstaged());
}

#[test]
fn records_are_read_without_bytes() {
    let recs: Vec<String> = ["M", "b", "D", "a"].iter().map(|s| s.to_string()).collect();
    let ns = statuses_of(&recs);
    assert_eq!(ns, vec![(Status::Modified, "b".into()), (Status::Deleted, "a".into())]);
    let nums = numstats_of(&["5\t0\tb".to_string(), "x".to_string()]);
    assert_eq!(nums, vec![(Some(5), Some(0), "b".into())]);
    let sts = states_of(&["MM b".to_string(), "short".to_string()]);
    assert_eq!(sts, vec![('M', 'M', "b".into())]);
    assert_eq!(staged_in(&sts), 1);
    let files = tabulate(&ns, &nums, &[], &sts);
    assert_eq!(files[0].path, "a");
    assert_eq!((files[0].added, files[0].removed), (Some(0), Some(0)));
    assert_eq!((files[1].added, files[1].index), (Some(5), 'M'));
}

fn out(code: i32, stdout: &str) -> Result<Output, String> {
    Ok(Output {
        code: Some(code),
        stdout: stdout.as_bytes().to_vec(),
        stderr: b" boom \n".to_vec(),
    })
}

/// A repo with commits, on `feature`, whose default branch is `main`.
fn fake(args: &Vec<String>) -> Result<Output, String> {
    let line = args.join(" ");
    match line.as_str() {
        "rev-parse --show-toplevel" => out(0, "/r/proj\n"),
        "symbolic-ref --short -q HEAD" => out(0, "feature\n"),
        "rev-parse --verify -q HEAD" => out(0, "abc\n"),
        "rev-parse --verify -q main" => out(0, "def\n"),
        "merge-base HEAD main" => out(0, "0123456789abcdef\n"),
        "diff --no-ext-diff --no-renames HEAD --name-status -z" => out(0, "M\0a.txt\0M\0b.txt\0"),
        "diff --no-ext-diff --no-renames HEAD --numstat -z" => {
            out(0, "1\t1\ta.txt\0001\t0\tb.txt\0")
        }
        "diff --no-ext-diff --no-renames --cached HEAD --name-status -z" => out(0, "M\0b.txt\0"),
        "diff --no-ext-diff --no-renames --cached HEAD --numstat -z" => out(0, "1\t0\tb.txt\0"),
        "ls-files --others --exclude-standard -z" => out(0, "new.md\0"),
        "status --porcelain -z --no-renames --untracked-files=all" => {
            out(0, " M a.txt\0M  b.txt\0?? new.md\0")
        }
        "diff --no-ext-diff --no-renames HEAD -- a.txt" => out(0, "-two\n+TWO\n"),
        "diff --no-ext-diff --no-index -- /dev/null new.md" => out(1, "+x\n+y\n"),
        "diff --no-ext-diff --no-renames -- a.txt" => out(
            0,
            "diff --git a/a.txt b/a.txt\n--- a/a.txt\n+++ b/a.txt\n@@ -1 +1 @@\n-a\n+b\n@@ -9 +9 @@\n-c\n+d\n",
        ),
        _ => out(1, ""),
    }
}

fn paths(s: &RepoStats) -> Vec<(&str, char, Option<u32>, Option<u32>)> {
    s.files
        .iter()
        .map(|f| (f.path.as_str(), f.status.letter(), f.added, f.removed))
        .collect()
}

#[test]
fn stats_in_two_modes() {
    let count = |p: &String| if p == "new.md" { Some(2) } else { None };
    let s = repo_stats(&fake, &count, Mode::Uncommitted).unwrap();
    assert_eq!(s.branch, "feature");
    assert_eq!(s.base, "HEAD");
    assert_eq!(
        paths(&s),
        vec![
            ("a.txt", 'M', Some(1), Some(1)),
            ("b.txt", 'M', Some(1), Some(0)),
            ("new.md", '?', Some(2), Some(0))
        ]
    );
    assert_eq!(s.totals(), (4, 1));
    assert_eq!(s.staged, 1);
    assert_eq!((s.files[0].index, s.files[0].worktree), (' ', 'M'));
    let s = repo_stats(&fake, &count, Mode::Staged).unwrap();
    assert_eq!(paths(&s), vec![("b.txt", 'M', Some(1), Some(0))]);
}

#[test]
fn diffs_of_files() {
    let a = file_diff(&fake, Mode::Uncommitted, &change("a.txt", Status::Modified)).unwrap();
    assert_eq!(a, "-two\n+TWO\n");
    let n = file_diff(&fake, Mode::Uncommitted, &change("new.md", Status::Untracked)).unwrap();
    assert_eq!(n, "+x\n+y\n");
    let d = file_diff(&fake, Mode::Uncommitted, &change("sub/", Status::Untracked)).unwrap();
    assert_eq!(d, "untracked directory (nested git repo): sub/\n");
    let e = file_diff(&fake, Mode::Uncommitted, &change("nope", Status::Modified)).unwrap_err();
    assert_eq!(
        e.message(),
        "git diff --no-ext-diff --no-renames HEAD -- nope failed (1): boom"
    );
    assert_eq!(e.full(), e.message());
}

#[test]
fn bases_and_branches() {
    assert_eq!(repo_root(true, &fake), Some("/r/proj".to_string()));
    assert_eq!(repo_root(false, &fake), None);
    assert_eq!(branch_name(&fake), "feature");
    assert_eq!(default_branch(&fake), Some("main".to_string()));
    assert_eq!(
        base_rev(&fake, Mode::Branch),
        (Some("0123456789abcdef".to_string()), "main@0123456".to_string())
    );
    assert_eq!(base_rev(&fake, Mode::Unstaged), (None, "index".to_string()));
    assert_eq!(
        diff_args(Mode::Staged, &Some("HEAD".to_string())),
        vec!["diff", "--no-ext-diff", "--no-renames", "--cached", "HEAD"]
    );
    // A repo without commits: everything is compared with the empty tree.
    let fresh = |_: &Vec<String>| out(1, "");
    assert_eq!(branch_name(&fresh), "(no commits)");
    assert_eq!(default_branch(&fresh), None);
    assert_eq!(
        base_rev(&fresh, Mode::Staged),
        (
            Some("4b825dc642cb6eb9a060e54bf8d69288fbee4904".to_string()),
            "empty tree".to_string()
        )
    );
    assert_eq!(base_rev(&fresh, Mode::Branch).1, "empty tree (no default branch)");
    let detached = |args: &Vec<String>| {
        if args.join(" ") == "rev-parse --short HEAD" {
            out(0, "abc1234\n")
        } else {
            out(1, "")
        }
    };
    assert_eq!(branch_name(&detached), "detached@abc1234");
    assert_eq!(repo_root(true, &fresh), None);
}

#[test]
fn git_that_fails() {
    let args = vec!["status".to_string(), "-s".to_string()];
    let missing = |_: &Vec<String>| Err("no such file".to_string());
    let e = run(&missing, &args, &[0]).unwrap_err();
    assert_eq!(e.message(), "spawn git status -s");
    assert_eq!(e.full(), "spawn git status -s: no such file");
    assert!(matches!(e, GitError::Spawn { .. }));
    let killed = |_: &Vec<String>| {
        Ok(Output {
            code: None,
            stdout: Vec::new(),
            stderr: Vec::new(),
        })
    };
    let e = run(&killed, &args, &[0]).unwrap_err();
    assert_eq!(e.message(), "git status -s failed (-1): ");
    assert!(matches!(e, GitError::Failed(_)));
    let s = repo_stats(&missing, &|_| None, Mode::Uncommitted).unwrap_err();
    assert!(s.full().ends_with("no such file"));
}

#[test]
fn every_command_takes_no_lock() {
    let i = invocation(&["status".to_string()]);
    assert_eq!(
        i.args,
        vec!["-c", "core.quotepath=off", "-c", "color.ui=false", "status"]
    );
    assert!(i
        .env
        .contains(&("GIT_OPTIONAL_LOCKS".to_string(), "0".to_string())));
    assert!(i
        .env
        .contains(&("GIT_TERMINAL_PROMPT".to_string(), "0".to_string())));
}

#[test]
fn commands_run_in_order() {
    let seen: RefCell<Vec<String>> = RefCell::new(Vec::new());
    let git = |args: &Vec<String>| {
        seen.borrow_mut().push(args.join(" "));
        fake(args)
    };
    file_diff(&git, Mode::Uncommitted, &change("a.txt", Status::Modified)).unwrap();
    assert_eq!(
        *seen.borrow(),
        vec![
            "rev-parse --verify -q HEAD",
            "diff --no-ext-diff --no-renames HEAD -- a.txt"
        ]
    );
}

#[test]
fn one_hunk_as_a_patch() {
    let diff = "diff --git a/x b/x\n--- a/x\n+++ b/x\n@@ -1 +1 @@\n-a\n+b\n@@ -9 +9 @@\n-c\n+d\n";
    assert_eq!(
        hunk_patch(diff, 0, "@@ -1 +1 @@").unwrap(),
        "diff --git a/x b/x\n--- a/x\n+++ b/x\n@@ -1 +1 @@\n-a\n+b\n"
    );
    assert_eq!(
        hunk_patch(diff, 1, "@@ -9 +9 @@").unwrap(),
        "diff --git a/x b/x\n--- a/x\n+++ b/x\n@@ -9 +9 @@\n-c\n+d\n"
    );
    // Another header, or no such hunk: the diff is not the one the hunk was picked from.
    assert_eq!(hunk_patch(diff, 1, "@@ -8 +8 @@"), None);
    assert_eq!(hunk_patch(diff, 2, "@@ -9 +9 @@"), None);
    let crlf = "--- a\n+++ b\n@@ -1 +1 @@ f\t\r\n-a\r\n+b\r\n";
    let parsed = parse_unified(crlf);
    assert_eq!(
        hunk_patch(crlf, hunk_index(&parsed, 2), &parsed[2].text).as_deref(),
        Some(crlf)
    );
    assert_eq!(hunk_patch("", 0, ""), None);
}

#[test]
fn writes() {
    let paths = vec!["x".to_string(), "y".to_string()];
    assert_eq!(write_args(&GitOp::Stage(paths.clone())), vec!["add", "--", "x", "y"]);
    assert_eq!(write_args(&GitOp::StageAll), vec!["add", "-A"]);
    assert_eq!(write_args(&GitOp::Unstage(paths.clone())), vec!["reset", "-q", "--", "x", "y"]);
    assert_eq!(write_args(&GitOp::UnstageAll), vec!["reset", "-q"]);
    let hunk = GitOp::ApplyHunk {
        path: "a.txt".into(),
        hunk: 1,
        header: "@@ -9 +9 @@".into(),
        reverse: false,
    };
    assert_eq!(write_args(&hunk), vec!["apply", "--cached", "-"]);
    assert_eq!(
        write_input(&fake, &hunk).unwrap().unwrap(),
        "diff --git a/a.txt b/a.txt\n--- a/a.txt\n+++ b/a.txt\n@@ -9 +9 @@\n-c\n+d\n"
    );
    let gone = GitOp::ApplyHunk {
        path: "a.txt".into(),
        hunk: 5,
        header: "@@ -9 +9 @@".into(),
        reverse: false,
    };
    assert_eq!(
        write_input(&fake, &gone).unwrap_err(),
        "the diff has changed since this hunk was loaded"
    );
    assert_eq!(write_input(&fake, &GitOp::StageAll), Ok(None));
    let commit = GitOp::Commit { message: "m".into() };
    assert_eq!(write_args(&commit), vec!["commit", "-m", "m"]);
    assert_eq!(
        write_result(&commit, &Ok(b"[main abc] m\n 1 file\n".to_vec())).unwrap(),
        "[main abc] m"
    );
    assert_eq!(write_result(&GitOp::Stage(paths), &Ok(Vec::new())).unwrap(), "staged x, y");
    assert_eq!(
        write_result(&commit, &Err(GitError::Failed("no".into()))).unwrap_err(),
        "no"
    );
}
