//! Application state and input handling.

use herdiff::app::{Action, App, Focus, HitMap, View, AUTO_SPLIT_WIDTH};
use herdiff::diff::parse_unified;
use herdiff::git::{FileChange, GitOp, Mode, RepoStats, Status};
use herdiff::input::{
    KeyCode, KeyEvent, KeyModifiers, MouseButton, MouseEvent, MouseEventKind, Rect,
};
use herdiff::model::{PaneRef, RepoGroup};
use herdiff::scope::{Scope, Target};
use herdiff::worker::{DiffResult, GitDone, Refreshed};

const NONE: KeyModifiers = KeyModifiers {
    control: false,
    shift: false,
};
const CONTROL: KeyModifiers = KeyModifiers {
    control: true,
    shift: false,
};
const SHIFT: KeyModifiers = KeyModifiers {
    control: false,
    shift: true,
};

fn file(path: &str) -> FileChange {
    FileChange {
        path: path.into(),
        status: Status::Modified,
        added: Some(1),
        removed: Some(0),
        index: ' ',
        worktree: 'M',
    }
}

fn group(root: &str, files: &[&str]) -> RepoGroup {
    RepoGroup {
        root: root.into(),
        name: root.into(),
        panes: vec![PaneRef {
            pane_id: format!("{root}:p1"),
            workspace: "w".into(),
            tab: "t".into(),
            agent: Some("aider".into()),
            status: Some("idle".into()),
            title: String::new(),
            focused: false,
        }],
        stats: Ok(RepoStats {
            files: files.iter().map(|f| file(f)).collect(),
            ..Default::default()
        }),
    }
}

fn refreshed(groups: Vec<RepoGroup>) -> Refreshed {
    refreshed_in(None, groups)
}

fn refreshed_in(ws: Option<&str>, groups: Vec<RepoGroup>) -> Refreshed {
    let scope = if ws.is_some() {
        Scope::Follow
    } else {
        Scope::All
    };
    Refreshed {
        mode: Mode::Uncommitted,
        target: Target {
            scope,
            workspace_id: ws.map(String::from),
            label: ws.map(String::from),
        },
        groups,
        non_repo_panes: 0,
        herdr_error: None,
    }
}

fn key(c: char) -> KeyEvent {
    KeyEvent::new(KeyCode::Char(c), NONE)
}

#[test]
fn selection_survives_refresh_reordering() {
    let mut app = App::new(Mode::Uncommitted, View::Unified);
    app.apply_refresh(refreshed(vec![
        group("/a", &["x"]),
        group("/b", &["p", "q", "r"]),
    ]));
    assert_eq!(app.on_key(key('j')), Action::LoadDiff);
    app.focus = Focus::Files;
    app.on_key(key('j'));
    app.on_key(key('j'));
    assert_eq!(app.file().unwrap().path, "r");

    // Repo order flips and a file is inserted before the selected one.
    app.apply_refresh(refreshed(vec![
        group("/b", &["a", "p", "q", "r"]),
        group("/a", &["x"]),
    ]));
    assert_eq!(app.repo().unwrap().root, "/b");
    assert_eq!(app.file().unwrap().path, "r");
}

#[test]
fn scroll_position_survives_view_toggle() {
    let mut app = App::new(Mode::Uncommitted, View::Unified);
    app.apply_refresh(refreshed(vec![group("/a", &["x"])]));
    let text = "@@ -1,4 +1,4 @@\n a\n-b\n-c\n+B\n+C\n d\n e\n";
    app.apply_diff(DiffResult {
        root: "/a".into(),
        mode: Mode::Uncommitted,
        path: "x".into(),
        lines: Ok(parse_unified(text)),
        highlights: Vec::new(),
    });
    app.focus = Focus::Diff;
    app.on_key(key('j'));
    app.on_key(key('j'));
    app.on_key(key('j'));
    app.on_key(key('j')); // unified row 4 = "+B"
    assert_eq!(app.diff.as_ref().unwrap().scroll, 4);

    app.on_key(key('s'));
    assert!(app.split_active());
    let v = app.diff.as_ref().unwrap();
    // "+B" shares split row 2 with "-b"
    assert_eq!(v.top_row(true), 2);
    app.on_key(key('j'));
    assert_eq!(app.diff.as_ref().unwrap().scroll, 3); // row 3 = "-c" | "+C"
    app.on_key(key('j'));
    assert_eq!(app.diff.as_ref().unwrap().scroll, 6); // " d"
    app.on_key(key('s'));
    assert_eq!(app.diff.as_ref().unwrap().top_row(false), 6);
}

fn diff_for(root: &str, path: &str) -> DiffResult {
    let text: String = (1..=50).map(|i| format!("+line {i}\n")).collect();
    DiffResult {
        root: root.into(),
        mode: Mode::Uncommitted,
        path: path.into(),
        lines: Ok(parse_unified(&format!(
            "@@ -0,0 +1,50 @@\n{text}"
        ))),
        highlights: Vec::new(),
    }
}

#[test]
fn switching_workspaces_restores_selection_and_scroll() {
    let mut app = App::new(Mode::Uncommitted, View::Unified).with_scope(Scope::Follow, true);
    let ws1 = || vec![group("/one", &["a", "b", "c"])];
    let ws2 = || vec![group("/two", &["x", "y"])];

    assert!(app.apply_refresh(refreshed_in(Some("w1"), ws1())));
    app.focus = Focus::Files;
    assert_eq!(app.on_key(key('j')), Action::LoadDiff);
    app.on_key(key('j')); // "c"
    app.apply_diff(diff_for("/one", "c"));
    app.focus = Focus::Diff;
    for _ in 0..10 {
        app.on_key(key('j'));
    }
    assert_eq!(app.diff.as_ref().unwrap().scroll, 10);

    // Focus moves to workspace 2: fresh selection there.
    assert!(app.apply_refresh(refreshed_in(Some("w2"), ws2())));
    assert_eq!(app.file().unwrap().path, "x");
    assert!(app.diff.is_none());

    // And back: file and scroll come back once the diff loads.
    assert!(app.apply_refresh(refreshed_in(Some("w1"), ws1())));
    assert_eq!(app.file().unwrap().path, "c");
    app.apply_diff(diff_for("/one", "c"));
    assert_eq!(app.diff.as_ref().unwrap().scroll, 10);
}

#[test]
fn quick_back_and_forth_keeps_pending_scroll() {
    let mut app = App::new(Mode::Uncommitted, View::Unified).with_scope(Scope::Follow, true);
    let ws1 = || vec![group("/one", &["a"])];
    let ws2 = || vec![group("/two", &["x"])];
    app.apply_refresh(refreshed_in(Some("w1"), ws1()));
    app.apply_diff(diff_for("/one", "a"));
    app.focus = Focus::Diff;
    for _ in 0..5 {
        app.on_key(key('j'));
    }
    app.apply_refresh(refreshed_in(Some("w2"), ws2()));
    // Back to w1 and away again before w1's diff arrives.
    app.apply_refresh(refreshed_in(Some("w1"), ws1()));
    app.apply_refresh(refreshed_in(Some("w2"), ws2()));
    app.apply_refresh(refreshed_in(Some("w1"), ws1()));
    app.apply_diff(diff_for("/one", "a"));
    assert_eq!(app.diff.as_ref().unwrap().scroll, 5);
}

fn mouse(kind: MouseEventKind, column: u16, row: u16) -> MouseEvent {
    MouseEvent {
        kind,
        column,
        row,
        modifiers: NONE,
    }
}

/// Repos panel rows 0..10, files 10..20, diff to the right.
fn app_with_hitmap() -> App {
    let mut app = App::new(Mode::Uncommitted, View::Unified);
    app.apply_refresh(refreshed(vec![
        group("/a", &["a1"]),
        group("/b", &["b1", "b2", "b3"]),
    ]));
    app.hit = HitMap {
        repos: Rect::new(0, 0, 40, 10),
        files: Rect::new(0, 10, 40, 10),
        diff: Rect::new(40, 0, 80, 20),
        repos_offset: 0,
        files_offset: 0,
    };
    app
}

#[test]
fn click_selects_repo_by_multi_row_item() {
    let mut app = app_with_hitmap();
    // Row 1 = repo /a, row 2 = its pane, row 3 = repo /b, row 4 = its pane.
    let down = MouseEventKind::Down(MouseButton::Left);
    assert_eq!(app.on_mouse(mouse(down, 5, 4)), Action::LoadDiff);
    assert_eq!(app.repo().unwrap().root, "/b");
    assert_eq!(app.on_mouse(mouse(down, 5, 2)), Action::LoadDiff);
    assert_eq!(app.repo().unwrap().root, "/a");
    // Empty space and the bottom border select nothing.
    assert_eq!(app.on_mouse(mouse(down, 5, 7)), Action::Nothing);
    assert_eq!(app.on_mouse(mouse(down, 5, 9)), Action::Nothing);
    assert_eq!(app.repo().unwrap().root, "/a");
}

#[test]
fn click_file_and_wheel() {
    let mut app = app_with_hitmap();
    app.select_repo(1);
    let down = MouseEventKind::Down(MouseButton::Left);
    assert_eq!(app.on_mouse(mouse(down, 5, 13)), Action::LoadDiff);
    assert_eq!(app.file().unwrap().path, "b3");
    assert_eq!(app.focus, Focus::Files);
    assert_eq!(
        app.on_mouse(mouse(MouseEventKind::ScrollUp, 5, 12)),
        Action::LoadDiff
    );
    assert_eq!(app.file().unwrap().path, "b2");

    app.apply_diff(diff_for("/b", "b2"));
    app.on_mouse(mouse(MouseEventKind::ScrollDown, 60, 5));
    assert_eq!(app.diff.as_ref().unwrap().scroll, 3);
    let mut shifted = mouse(MouseEventKind::ScrollDown, 60, 5);
    shifted.modifiers = SHIFT;
    app.on_mouse(shifted);
    assert_eq!(app.diff.as_ref().unwrap().hscroll, 8);
    // Clicking the diff focuses it.
    app.on_mouse(mouse(down, 60, 5));
    assert_eq!(app.focus, Focus::Diff);
}

#[test]
fn click_closes_help() {
    let mut app = app_with_hitmap();
    app.show_help = true;
    let down = MouseEventKind::Down(MouseButton::Left);
    assert_eq!(app.on_mouse(mouse(down, 5, 4)), Action::Nothing);
    assert!(!app.show_help);
    assert_eq!(app.repo().unwrap().root, "/a");
}

fn ctrl(c: char) -> KeyEvent {
    KeyEvent::new(KeyCode::Char(c), CONTROL)
}

fn with_file_state(app: &mut App, index: char, worktree: char, staged: usize) {
    if let Ok(stats) = &mut app.groups[app.repo_idx].stats {
        for f in &mut stats.files {
            f.index = index;
            f.worktree = worktree;
        }
        stats.staged = staged;
    }
}

#[test]
fn space_stages_or_unstages_the_selected_file() {
    let mut app = App::new(Mode::Uncommitted, View::Unified);
    app.apply_refresh(refreshed(vec![group("/a", &["x"])]));
    app.focus = Focus::Files;

    with_file_state(&mut app, ' ', 'M', 0);
    assert_eq!(
        app.on_key(key(' ')),
        Action::Git {
            root: "/a".into(),
            op: GitOp::Stage(vec!["x".into()])
        }
    );
    with_file_state(&mut app, 'M', ' ', 1);
    assert_eq!(
        app.on_key(key(' ')),
        Action::Git {
            root: "/a".into(),
            op: GitOp::Unstage(vec!["x".into()])
        }
    );
    // Partly staged: staged mode unstages, other modes stage the rest.
    with_file_state(&mut app, 'M', 'M', 1);
    assert!(matches!(
        app.on_key(key(' ')),
        Action::Git {
            op: GitOp::Stage(_),
            ..
        }
    ));
    app.mode = Mode::Staged;
    assert!(matches!(
        app.on_key(key(' ')),
        Action::Git {
            op: GitOp::Unstage(_),
            ..
        }
    ));

    assert_eq!(
        app.on_key(key('A')),
        Action::Git {
            root: "/a".into(),
            op: GitOp::StageAll
        }
    );
    assert_eq!(
        app.on_key(key('R')),
        Action::Git {
            root: "/a".into(),
            op: GitOp::UnstageAll
        }
    );
}

#[test]
fn space_in_diff_stages_the_hunk_only_where_it_applies() {
    let mut app = App::new(Mode::Unstaged, View::Unified);
    app.apply_refresh(Refreshed {
        mode: Mode::Unstaged,
        ..refreshed(vec![group("/a", &["x"])])
    });
    app.apply_diff(DiffResult {
        root: "/a".into(),
        mode: Mode::Unstaged,
        path: "x".into(),
        lines: Ok(parse_unified(
            "diff --git a/x b/x\n--- a/x\n+++ b/x\n@@ -1 +1 @@\n-a\n+b\n",
        )),
        highlights: Vec::new(),
    });
    app.focus = Focus::Diff;
    assert_eq!(
        app.on_key(key(' ')),
        Action::Git {
            root: "/a".into(),
            op: GitOp::ApplyHunk {
                path: "x".into(),
                hunk: 0,
                header: "@@ -1 +1 @@".into(),
                reverse: false,
            }
        }
    );
    // The loaded diff belongs to another file: refuse rather than stage the wrong hunk.
    app.diff.as_mut().unwrap().path = "other".into();
    assert_eq!(app.on_key(key(' ')), Action::Nothing);
    assert_eq!(app.message.as_ref().unwrap().0, "diff is still loading");
    app.diff.as_mut().unwrap().path = "x".into();
    app.mode = Mode::Uncommitted;
    assert_eq!(app.on_key(key(' ')), Action::Nothing);
    assert!(app.message.as_ref().unwrap().0.contains("unstaged mode"));
}

#[test]
fn commit_box_flow() {
    let mut app = App::new(Mode::Uncommitted, View::Unified);
    app.apply_refresh(refreshed(vec![group("/a", &["x"])]));

    // Nothing staged: no box.
    assert_eq!(app.on_key(key('c')), Action::Nothing);
    assert!(app.commit.is_none());

    with_file_state(&mut app, 'M', ' ', 1);
    app.on_key(key('c'));
    assert!(app.commit.is_some());
    // Keys type into the message instead of running commands.
    for ch in "Fix q".chars() {
        assert_eq!(app.on_key(key(ch)), Action::Nothing);
    }
    app.on_key(KeyEvent::new(KeyCode::Backspace, NONE));
    app.on_key(KeyEvent::new(KeyCode::Enter, NONE));
    app.on_paste("body\r\nmore");
    assert_eq!(app.commit.as_ref().unwrap().message, "Fix \nbody\nmore");

    let action = app.on_key(ctrl('s'));
    assert_eq!(
        action,
        Action::Git {
            root: "/a".into(),
            op: GitOp::Commit {
                message: "Fix \nbody\nmore".into()
            }
        }
    );
    // While git runs, input is ignored.
    assert_eq!(app.on_key(key('x')), Action::Nothing);
    assert!(app.commit.as_ref().unwrap().busy);

    // A failing hook keeps the message and shows the output.
    app.apply_git_done(GitDone {
        root: "/a".into(),
        op: GitOp::Commit {
            message: String::new(),
        },
        result: Err("pre-commit hook failed".into()),
    });
    let c = app.commit.as_ref().unwrap();
    assert!(!c.busy && c.message.starts_with("Fix"));
    assert_eq!(app.notice.as_ref().unwrap().title, "git commit failed");
    app.on_key(key('z')); // closes the notice, doesn't type
    assert!(app.notice.is_none());
    assert_eq!(app.commit.as_ref().unwrap().message, "Fix \nbody\nmore");

    app.on_key(ctrl('s'));
    app.apply_git_done(GitDone {
        root: "/a".into(),
        op: GitOp::Commit {
            message: String::new(),
        },
        result: Ok("[main abc123] Fix".into()),
    });
    assert!(app.commit.is_none());
    assert_eq!(app.message.as_ref().unwrap().0, "[main abc123] Fix");

    app.on_key(key('c'));
    app.on_key(KeyEvent::new(KeyCode::Esc, NONE));
    assert!(app.commit.is_none());
}

#[test]
fn read_only_blocks_writes() {
    let mut app = App::new(Mode::Uncommitted, View::Unified);
    app.read_only = true;
    app.apply_refresh(refreshed(vec![group("/a", &["x"])]));
    with_file_state(&mut app, ' ', 'M', 1);
    app.focus = Focus::Files;
    for k in [' ', 'A', 'R', 'c', 'C'] {
        assert_eq!(app.on_key(key(k)), Action::Nothing, "{k}");
    }
    assert!(app.commit.is_none());
    assert!(app.message.as_ref().unwrap().0.contains("--read-only"));
}

#[test]
fn same_workspace_refresh_keeps_selection() {
    let mut app = App::new(Mode::Uncommitted, View::Unified).with_scope(Scope::Follow, true);
    app.apply_refresh(refreshed_in(Some("w1"), vec![group("/one", &["a", "b"])]));
    app.focus = Focus::Files;
    app.on_key(key('j'));
    app.apply_refresh(refreshed_in(
        Some("w1"),
        vec![group("/one", &["0", "a", "b"])],
    ));
    assert_eq!(app.file().unwrap().path, "b");
}

#[test]
fn scope_key_cycles_and_drops_stale_results() {
    let mut app = App::new(Mode::Uncommitted, View::Unified).with_scope(Scope::All, false);
    assert_eq!(app.on_key(key('w')), Action::Refresh);
    assert_eq!(app.scope, Scope::Follow);
    // Result computed for the old scope arrives late.
    assert!(!app.apply_refresh(refreshed_in(None, vec![group("/a", &["x"])])));
    assert!(app.groups.is_empty());
    // Here isn't offered outside herdr.
    app.on_key(key('w'));
    assert_eq!(app.scope, Scope::All);
}

#[test]
fn auto_view_follows_width() {
    let mut app = App::new(Mode::Uncommitted, View::Auto);
    app.diff_width = AUTO_SPLIT_WIDTH - 1;
    assert!(!app.split_active());
    app.diff_width = AUTO_SPLIT_WIDTH;
    assert!(app.split_active());
}

#[test]
fn stale_mode_results_are_ignored() {
    let mut app = App::new(Mode::Uncommitted, View::Unified);
    app.on_key(key('m'));
    assert!(!app.apply_refresh(refreshed(vec![group("/a", &["x"])])));
    assert!(app.groups.is_empty());
}

#[test]
fn agent_jump_cycles_panes() {
    let mut app = App::new(Mode::Uncommitted, View::Unified);
    app.apply_refresh(refreshed(vec![group("/a", &["x"])]));
    assert_eq!(app.on_key(key('a')), Action::FocusPane("/a:p1".into()));
}

fn press(app: &mut App, code: KeyCode) -> Action {
    app.on_key(KeyEvent::new(code, NONE))
}

#[test]
fn keys_move_between_panels() {
    let mut app = App::new(Mode::Uncommitted, View::Unified);
    for code in [KeyCode::Tab, KeyCode::Char('l'), KeyCode::Enter, KeyCode::Right] {
        app.focus = Focus::Repos;
        assert_eq!(press(&mut app, code), Action::Nothing);
        assert_eq!(app.focus, Focus::Files);
        press(&mut app, code);
        press(&mut app, code);
        assert_eq!(app.focus, Focus::Diff);
    }
    for code in [KeyCode::BackTab, KeyCode::Char('h'), KeyCode::Left, KeyCode::Esc] {
        app.focus = Focus::Diff;
        press(&mut app, code);
        assert_eq!(app.focus, Focus::Files);
        press(&mut app, code);
        assert_eq!(app.focus, Focus::Repos);
    }
    assert_eq!(press(&mut app, KeyCode::Left), Action::Nothing);
    assert_eq!(press(&mut app, KeyCode::Esc), Action::Quit);
    assert_eq!(press(&mut app, KeyCode::Char('q')), Action::Quit);
    assert_eq!(app.on_key(ctrl('c')), Action::Quit);
    assert_eq!(press(&mut app, KeyCode::Other), Action::Nothing);
    assert_eq!(press(&mut app, KeyCode::Char('?')), Action::Nothing);
    assert!(app.show_help);
    assert_eq!(press(&mut app, KeyCode::Char('q')), Action::Nothing);
    assert!(!app.show_help);
}

fn with_diff() -> App {
    let mut app = App::new(Mode::Uncommitted, View::Unified);
    app.apply_refresh(refreshed(vec![group("/a", &["x", "y"])]));
    app.apply_diff(diff_for("/a", "x"));
    app
}

fn scroll(app: &App) -> usize {
    app.diff.as_ref().unwrap().scroll
}

#[test]
fn keys_scroll_the_diff() {
    let mut app = with_diff();
    app.diff_height = 12;
    press(&mut app, KeyCode::Char('J'));
    assert_eq!(scroll(&app), 1);
    press(&mut app, KeyCode::PageDown);
    assert_eq!(scroll(&app), 11);
    press(&mut app, KeyCode::Char('f'));
    assert_eq!(scroll(&app), 21);
    app.on_key(ctrl('d'));
    assert_eq!(scroll(&app), 26);
    app.on_key(ctrl('u'));
    assert_eq!(scroll(&app), 21);
    press(&mut app, KeyCode::Char('b'));
    press(&mut app, KeyCode::Char('K'));
    assert_eq!(scroll(&app), 10);
    press(&mut app, KeyCode::End);
    assert_eq!(scroll(&app), 50);
    press(&mut app, KeyCode::Char('g'));
    assert_eq!(scroll(&app), 0);
    press(&mut app, KeyCode::Char('G'));
    press(&mut app, KeyCode::PageUp);
    assert_eq!(scroll(&app), 40);
    press(&mut app, KeyCode::Home);
    assert_eq!(scroll(&app), 0);
    // Without ctrl these do nothing.
    press(&mut app, KeyCode::Char('d'));
    assert_eq!(scroll(&app), 0);
    press(&mut app, KeyCode::Char('L'));
    press(&mut app, KeyCode::Char('L'));
    press(&mut app, KeyCode::Char('H'));
    assert_eq!(app.diff.as_ref().unwrap().hscroll, 8);
    press(&mut app, KeyCode::Char('H'));
    press(&mut app, KeyCode::Char('H'));
    assert_eq!(app.diff.as_ref().unwrap().hscroll, 0);
}

#[test]
fn keys_jump_between_hunks() {
    let mut app = with_diff();
    app.apply_diff(DiffResult {
        lines: Ok(parse_unified("@@ -1 +1 @@\n+a\n+b\n@@ -9 +9 @@\n+c\n")),
        ..diff_for("/a", "x")
    });
    press(&mut app, KeyCode::Char('n'));
    assert_eq!(scroll(&app), 3);
    press(&mut app, KeyCode::Char('n'));
    assert_eq!(scroll(&app), 3);
    press(&mut app, KeyCode::Char('N'));
    assert_eq!(scroll(&app), 0);
    press(&mut app, KeyCode::Char('n'));
    press(&mut app, KeyCode::Char('p'));
    assert_eq!(scroll(&app), 0);
}

#[test]
fn new_diffs_start_at_the_first_hunk() {
    let mut app = App::new(Mode::Uncommitted, View::Unified);
    app.apply_refresh(refreshed(vec![group("/a", &["x"])]));
    app.apply_diff(DiffResult {
        lines: Ok(parse_unified("diff --git a b\n--- a\n@@ -1 +1 @@\n+a\n")),
        ..diff_for("/a", "x")
    });
    assert_eq!(scroll(&app), 2);
    // A shorter diff of the same file keeps the place as far as it goes.
    app.apply_diff(DiffResult {
        lines: Ok(parse_unified("@@ -1 +1 @@\n")),
        ..diff_for("/a", "x")
    });
    assert_eq!(scroll(&app), 0);
    app.apply_diff(DiffResult {
        lines: Err("no".into()),
        ..diff_for("/a", "x")
    });
    assert_eq!(scroll(&app), 0);
    assert!(app.diff.as_ref().unwrap().unified.rows.is_empty());
    // The diff of another file, or of another mode, is not shown.
    app.diff = None;
    app.apply_diff(diff_for("/a", "other"));
    app.apply_diff(diff_for("/b", "x"));
    app.apply_diff(DiffResult {
        mode: Mode::Staged,
        ..diff_for("/a", "x")
    });
    assert!(app.diff.is_none());
}

#[test]
fn brackets_select_files() {
    let mut app = with_diff();
    assert_eq!(press(&mut app, KeyCode::Char(']')), Action::LoadDiff);
    assert_eq!(app.file().unwrap().path, "y");
    assert_eq!(press(&mut app, KeyCode::Char(']')), Action::Nothing);
    assert_eq!(press(&mut app, KeyCode::Char('[')), Action::LoadDiff);
    assert_eq!(press(&mut app, KeyCode::Char('[')), Action::Nothing);
    assert_eq!(app.file().unwrap().path, "x");
    assert_eq!(app.select_file(99), Action::LoadDiff);
    assert_eq!(app.select_repo(-5), Action::Nothing);
}

#[test]
fn modes_cycle_and_clear_the_diff() {
    let mut app = with_diff();
    app.loading = false;
    assert_eq!(press(&mut app, KeyCode::Char('m')), Action::Refresh);
    assert_eq!(app.mode, Mode::Unstaged);
    assert!(app.diff.is_none() && app.loading);
    assert_eq!(app.message.as_ref().unwrap().0, "mode: unstaged");
    for _ in 0..3 {
        press(&mut app, KeyCode::Char('m'));
    }
    assert_eq!(app.mode, Mode::Uncommitted);
    app.loading = false;
    assert_eq!(press(&mut app, KeyCode::Char('r')), Action::Refresh);
    assert!(app.loading);
}

#[test]
fn editor_opens_at_the_change() {
    let mut app = with_diff();
    assert_eq!(
        press(&mut app, KeyCode::Char('e')),
        Action::OpenEditor {
            path: "/a/x".into(),
            line: Some(1)
        }
    );
    press(&mut app, KeyCode::Char('G'));
    assert_eq!(
        press(&mut app, KeyCode::Char('e')),
        Action::OpenEditor {
            path: "/a/x".into(),
            line: Some(50)
        }
    );
    app.diff = None;
    assert_eq!(
        press(&mut app, KeyCode::Char('e')),
        Action::OpenEditor {
            path: "/a/x".into(),
            line: None
        }
    );
    app.groups.clear();
    assert_eq!(press(&mut app, KeyCode::Char('e')), Action::Nothing);
}

#[test]
fn editor_passes_over_context() {
    let mut app = App::new(Mode::Uncommitted, View::Unified);
    app.apply_refresh(refreshed(vec![group("/a", &["x"])]));
    let mut d = diff_for("/a", "x");
    d.lines = Ok(parse_unified("@@ -1,2 +1,2 @@\n a\n-b\n+B\n c\n@@ -9,2 +9,1 @@\n-d\n e\n"));
    app.apply_diff(d);
    assert_eq!(scroll(&app), 0);
    let line_at = |app: &mut App, scroll: usize| {
        app.diff.as_mut().unwrap().scroll = scroll;
        match press(app, KeyCode::Char('e')) {
            Action::OpenEditor { path, line } => {
                assert_eq!(path, "/a/x");
                line
            }
            other => panic!("{other:?}"),
        }
    };
    assert_eq!(line_at(&mut app, 0), Some(2));
    assert_eq!(line_at(&mut app, 1), Some(2));
    assert_eq!(line_at(&mut app, 4), Some(9), "the line behind a removed one");
    assert_eq!(line_at(&mut app, 7), None, "no change below");
}

#[test]
fn agent_jumps_prefer_agents() {
    let mut app = App::new(Mode::Uncommitted, View::Unified);
    assert_eq!(press(&mut app, KeyCode::Char('a')), Action::Nothing);
    let mut g = group("/a", &["x"]);
    let shell = PaneRef {
        pane_id: "shell".into(),
        agent: None,
        ..g.panes[0].clone()
    };
    let other = PaneRef {
        pane_id: "other".into(),
        ..g.panes[0].clone()
    };
    g.panes.push(shell.clone());
    g.panes.push(other);
    app.apply_refresh(refreshed(vec![g]));
    for id in ["/a:p1", "other", "/a:p1"] {
        assert_eq!(press(&mut app, KeyCode::Char('a')), Action::FocusPane(id.into()));
    }
    app.groups[0].panes = vec![shell];
    assert_eq!(press(&mut app, KeyCode::Char('a')), Action::FocusPane("shell".into()));
    app.groups[0].panes.clear();
    assert_eq!(press(&mut app, KeyCode::Char('a')), Action::Nothing);
    assert_eq!(app.message.as_ref().unwrap().0, "no herdr pane in this repo");
}

#[test]
fn nothing_to_stage() {
    let mut app = App::new(Mode::Uncommitted, View::Unified);
    assert_eq!(press(&mut app, KeyCode::Char('A')), Action::Nothing);
    assert_eq!(app.message.as_ref().unwrap().0, "no repo selected");
    app.apply_refresh(refreshed(vec![group("/a", &["x"])]));
    with_file_state(&mut app, ' ', ' ', 0);
    app.focus = Focus::Files;
    assert_eq!(press(&mut app, KeyCode::Char(' ')), Action::Nothing);
    assert_eq!(app.message.as_ref().unwrap().0, "x has no local changes to stage");
    app.focus = Focus::Repos;
    assert_eq!(press(&mut app, KeyCode::Char(' ')), Action::Nothing);
    assert_eq!(press(&mut app, KeyCode::Char('C')), Action::ExternalCommit { root: "/a".into() });
    assert_eq!(press(&mut app, KeyCode::Char('c')), Action::Nothing);
    assert_eq!(
        app.message.as_ref().unwrap().0,
        "nothing staged: press space on a file or hunk, or A for everything"
    );
    // In the diff of an untracked file the whole file is staged.
    app.groups[0].stats.as_mut().unwrap().files[0].status = Status::Untracked;
    app.focus = Focus::Diff;
    assert_eq!(
        press(&mut app, KeyCode::Char(' ')),
        Action::Git {
            root: "/a".into(),
            op: GitOp::Stage(vec!["x".into()])
        }
    );
    // No hunk header at or above the top.
    app.groups[0].stats.as_mut().unwrap().files[0].status = Status::Modified;
    app.mode = Mode::Staged;
    app.apply_diff(DiffResult {
        mode: Mode::Staged,
        lines: Ok(parse_unified("diff --git a b\n")),
        ..diff_for("/a", "x")
    });
    assert_eq!(press(&mut app, KeyCode::Char(' ')), Action::Nothing);
    assert_eq!(app.message.as_ref().unwrap().0, "no hunk here");
}

#[test]
fn commit_box_edits() {
    let mut app = App::new(Mode::Uncommitted, View::Unified);
    app.apply_refresh(refreshed(vec![group("/a", &["x"])]));
    with_file_state(&mut app, 'M', ' ', 1);
    assert_eq!(app.staged_count(), 1);
    press(&mut app, KeyCode::Char('c'));
    press(&mut app, KeyCode::Backspace);
    press(&mut app, KeyCode::Tab);
    assert_eq!(app.commit.as_ref().unwrap().message, "    ");
    assert_eq!(app.on_key(ctrl('s')), Action::Nothing);
    assert_eq!(app.message.as_ref().unwrap().0, "write a commit message first");
    app.on_key(ctrl('u'));
    app.on_paste("a\rb\r\r\nc\n");
    assert_eq!(app.commit.as_ref().unwrap().message, "a\nb\n\nc\n");
    app.on_key(ctrl('x'));
    press(&mut app, KeyCode::Up);
    assert_eq!(app.commit.as_ref().unwrap().message, "a\nb\n\nc\n");
    // The mouse does nothing while the box is open.
    let down = MouseEventKind::Down(MouseButton::Left);
    assert_eq!(app.on_mouse(mouse(down, 0, 0)), Action::Nothing);
    app.on_key(ctrl('s'));
    app.on_paste("more");
    assert_eq!(app.commit.as_ref().unwrap().message, "a\nb\n\nc\n");
    // Another write that ends meanwhile leaves the box alone.
    app.apply_git_done(GitDone {
        root: "/a".into(),
        op: GitOp::StageAll,
        result: Err("locked".into()),
    });
    assert!(app.commit.as_ref().unwrap().busy);
    assert_eq!(app.notice.as_ref().unwrap().title, "git add failed");
    assert_eq!(app.notice.as_ref().unwrap().body, "locked");
    for (op, title) in [
        (GitOp::Unstage(Vec::new()), "unstage failed"),
        (
            GitOp::ApplyHunk {
                path: String::new(),
                hunk: 0,
                header: String::new(),
                reverse: false,
            },
            "git apply failed",
        ),
    ] {
        app.apply_git_done(GitDone {
            root: "/a".into(),
            op,
            result: Err(String::new()),
        });
        assert_eq!(app.notice.as_ref().unwrap().title, title);
    }
}

#[test]
fn wheel_and_clicks_beside_the_panels() {
    let mut app = app_with_hitmap();
    assert_eq!(app.on_mouse(mouse(MouseEventKind::ScrollDown, 5, 5)), Action::LoadDiff);
    assert_eq!(app.repo().unwrap().root, "/b");
    assert_eq!(app.on_mouse(mouse(MouseEventKind::ScrollDown, 200, 5)), Action::Nothing);
    app.apply_diff(diff_for("/b", "b1"));
    app.on_mouse(mouse(MouseEventKind::ScrollRight, 60, 5));
    app.on_mouse(mouse(MouseEventKind::ScrollRight, 60, 5));
    app.on_mouse(mouse(MouseEventKind::ScrollLeft, 60, 5));
    assert_eq!(app.diff.as_ref().unwrap().hscroll, 8);
    assert_eq!(app.on_mouse(mouse(MouseEventKind::ScrollLeft, 5, 5)), Action::Nothing);
    let right = MouseEventKind::Down(MouseButton::Right);
    assert_eq!(app.on_mouse(mouse(right, 5, 2)), Action::Nothing);
    assert_eq!(app.repo().unwrap().root, "/b");
    // A click below the last file selects nothing but moves the focus.
    let down = MouseEventKind::Down(MouseButton::Left);
    assert_eq!(app.on_mouse(mouse(down, 5, 16)), Action::Nothing);
    assert_eq!(app.focus, Focus::Files);
    // With the list scrolled, the rows mean other files.
    app.hit.files_offset = 1;
    assert_eq!(app.on_mouse(mouse(down, 5, 12)), Action::LoadDiff);
    assert_eq!(app.file().unwrap().path, "b3");
    app.hit.repos_offset = 1;
    assert_eq!(app.on_mouse(mouse(down, 5, 3)), Action::Nothing);
    assert_eq!(app.on_mouse(mouse(down, 5, 0)), Action::Nothing);
}

#[test]
fn rectangles() {
    let r = Rect::new(65_500, 2, 100, 3);
    assert_eq!((r.width, r.right(), r.bottom()), (35, 65_535, 5));
    assert!(r.contains(65_500, 4) && !r.contains(65_500, 5) && !r.contains(65_499, 4));
    assert_eq!(Rect::default(), Rect::new(0, 0, 0, 0));
}

#[test]
fn working_agents_are_named() {
    let mut app = App::new(Mode::Uncommitted, View::Unified);
    assert!(app.working_agents().is_empty());
    let mut g = group("/a", &["x"]);
    g.panes[0].status = Some("working".into());
    let idle = PaneRef {
        status: Some("idle".into()),
        agent: Some("codex".into()),
        ..g.panes[0].clone()
    };
    g.panes.push(idle);
    app.apply_refresh(refreshed(vec![g]));
    assert_eq!(app.working_agents(), vec!["aider"]);
}

#[test]
fn refreshes_without_files_drop_the_diff() {
    let mut app = with_diff();
    assert!(!app.apply_refresh(refreshed(vec![group("/a", &[])])));
    assert!(app.diff.is_none() && app.file().is_none());
    assert!(!app.apply_refresh(refreshed(Vec::new())));
    assert!(app.repo().is_none() && app.files().is_empty());
    // The selected file is gone: the selection stays in range.
    let mut app = with_diff();
    app.select_file(1);
    assert!(app.apply_refresh(refreshed(vec![group("/a", &["z"])])));
    assert_eq!(app.file().unwrap().path, "z");
}
