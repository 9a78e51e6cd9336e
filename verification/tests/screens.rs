//! What is on the screen, what `list` prints, and the main loop.

use ratatui::backend::TestBackend;
use ratatui::widgets::{Block, List, ListState, Paragraph};
use ratatui::Terminal;

use herdiff::app::{App, CommitBox, Notice, View};
use herdiff::cli::{
    check_scope, editor_command, editor_of, list_json, list_lines, list_scope, list_value,
    list_warning, viewer_scope,
};
use herdiff::diff::parse_unified;
use herdiff::git::{FileChange, GitOp, Mode, RepoStats, Status};
use herdiff::highlight::{Fg, HlSpan};
use herdiff::input::{
    KeyCode, KeyEvent, KeyModifiers, MouseEvent, MouseEventKind, Rect,
};
use herdiff::model::{PaneRef, RepoGroup};
use herdiff::scope::{Scope, SelfPane, Target};
use herdiff::screen::{draw, Screen};
use herdiff::tui::{request_diff, Effect, Input, Tui, DEBOUNCE, FOCUS_DEBOUNCE};
use herdiff::ui::{
    block, highlight, truncate, truncate_left, Body, Border, Color, Panel, Styled,
    HIGHLIGHT_SYMBOL,
};
use herdiff::worker::{AppEvent, DiffResult, GitDone, Job, Refreshed};

fn refreshed() -> Refreshed {
    let file = FileChange {
        path: "src/lib.rs".into(),
        status: Status::Modified,
        added: Some(1),
        removed: Some(1),
        index: ' ',
        worktree: 'M',
    };
    Refreshed {
        mode: Mode::Uncommitted,
        target: Target {
            scope: Scope::All,
            workspace_id: None,
            label: None,
        },
        groups: vec![RepoGroup {
            root: "/r/proj".into(),
            name: "proj".into(),
            panes: vec![PaneRef {
                pane_id: "w1:p1".into(),
                workspace: "proj".into(),
                tab: "1".into(),
                agent: Some("aider".into()),
                status: Some("working".into()),
                title: "fixing bug".into(),
                focused: false,
            }],
            stats: Ok(RepoStats {
                branch: "main".into(),
                base: "HEAD".into(),
                files: vec![file],
                staged: 0,
            }),
        }],
        non_repo_panes: 0,
        herdr_error: None,
    }
}

fn diff() -> DiffResult {
    DiffResult {
        root: "/r/proj".into(),
        mode: Mode::Uncommitted,
        path: "src/lib.rs".into(),
        lines: Ok(parse_unified("@@ -1,2 +1,2 @@\n ctx\n-old line\n+new line\n")),
        highlights: Vec::new(),
    }
}

fn app() -> App {
    let mut app = App::new(Mode::Uncommitted, View::Unified);
    app.apply_refresh(refreshed());
    app.apply_diff(diff());
    app
}

fn text(line: &[Styled]) -> String {
    line.iter().map(|s| s.text.as_str()).collect()
}

fn lines(p: &Panel) -> Vec<String> {
    match &p.body {
        Body::Text { lines, .. } => lines.iter().map(|l| text(l)).collect(),
        Body::List { items, .. } => items.iter().flatten().map(|l| text(l)).collect(),
    }
}

/// Paint a panel in a block, its texts unstyled.
fn paint(f: &mut ratatui::Frame, p: &Panel, at: Rect) {
    let at = ratatui::layout::Rect::new(at.x, at.y, at.width, at.height);
    let frame = Block::bordered().title(text(&p.title));
    match &p.body {
        Body::Text { .. } => f.render_widget(Paragraph::new(lines(p).join("\n")).block(frame), at),
        Body::List { items, selected } => {
            let items: Vec<String> = items
                .iter()
                .map(|i| i.iter().map(|l| text(l)).collect::<Vec<_>>().join("\n"))
                .collect();
            let list = List::new(items).block(frame).highlight_symbol(HIGHLIGHT_SYMBOL);
            let mut state = ListState::default().with_selected(Some(*selected));
            f.render_stateful_widget(list, at, &mut state);
        }
    }
}

/// The cells of a terminal that a frame is painted on.
fn render(w: u16, h: u16) -> String {
    let mut app = app();
    let mut term = Terminal::new(TestBackend::new(w, h)).unwrap();
    term.draw(|f| {
        let s = draw(&mut app, Rect::new(0, 0, w, h), Some(2), 0);
        paint(f, &s.repos, s.areas.repos);
        paint(f, &s.files, s.areas.files);
        paint(f, &s.diff, s.areas.diff);
    })
    .unwrap();
    let buf = term.backend().buffer().clone();
    (0..h)
        .map(|y| {
            (0..w)
                .map(|x| buf[(x, y)].symbol().to_string())
                .collect::<String>()
        })
        .collect::<Vec<_>>()
        .join("\n")
}

fn screen_of(app: &mut App, w: u16, h: u16) -> Screen {
    draw(app, Rect::new(0, 0, w, h), Some(2), 0)
}

#[test]
fn renders_wide_and_narrow() {
    for (w, h) in [(160, 30), (80, 30), (40, 12)] {
        let screen = render(w, h);
        assert!(screen.contains("proj"), "{w}x{h}\n{screen}");
        if w >= 80 {
            assert!(screen.contains("aider"), "{screen}");
            assert!(screen.contains("+new line"), "{screen}");
            assert!(screen.contains("-old line"), "{screen}");
        }
    }
}

#[test]
fn panels_share_the_screen() {
    let mut app = app();
    let s = screen_of(&mut app, 160, 30);
    // Wide: the lists on the left, the diff on the right, the status bar below.
    assert_eq!(s.areas.repos.width, 46);
    assert_eq!((s.areas.diff.x, s.areas.diff.width, s.areas.diff.height), (46, 114, 29));
    assert_eq!((s.areas.status.y, s.areas.status.height), (29, 1));
    assert_eq!((app.diff_width, app.diff_height), (112, 27));
    assert_eq!(app.hit.diff, s.areas.diff);
    assert_eq!(app.hit.repos, s.areas.repos);
    // Narrow: the lists above the diff.
    let s = screen_of(&mut app, 80, 30);
    assert_eq!(s.areas.diff.x, 0);
    assert_eq!(s.areas.diff.y, s.areas.repos.height);
    assert_eq!(s.areas.files.x, s.areas.repos.width);
}

#[test]
fn repos_and_files_are_listed() {
    let mut app = app();
    let s = screen_of(&mut app, 160, 30);
    assert_eq!(text(&s.repos.title), " Repos (1) ");
    assert!(s.repos.focused && !s.files.focused);
    assert_eq!(
        lines(&s.repos),
        vec![
            "● proj main 1f +1 -1".to_string(),
            "  ● aider proj/1 · fixing bug".to_string()
        ]
    );
    assert_eq!(text(&s.files.title), " Files (1) vs HEAD ");
    let l = &lines(&s.files)[0];
    assert!(l.starts_with("M src/lib.rs ") && l.ends_with(" +1 -1"), "{l}");
    assert_eq!(l.chars().count(), 42);
    // Binary files, nested repos, clean repos, git errors.
    let stats = app.groups[0].stats.as_mut().unwrap();
    stats.files[0].added = None;
    assert!(lines(&screen_of(&mut app, 160, 30).files)[0].ends_with(" bin"));
    app.groups[0].stats.as_mut().unwrap().files[0].path = "sub/".into();
    assert!(lines(&screen_of(&mut app, 160, 30).files)[0].ends_with(" repo"));
    app.groups[0].stats.as_mut().unwrap().files.clear();
    let s = screen_of(&mut app, 160, 30);
    assert!(lines(&s.repos)[0].ends_with(" main clean"));
    assert_eq!(lines(&s.files), vec!["no uncommitted changes"]);
    app.groups[0].stats = Err("boom".into());
    let s = screen_of(&mut app, 160, 30);
    assert!(lines(&s.repos)[0].ends_with("proj git error"));
    assert_eq!(lines(&s.files), vec!["boom"]);
    app.groups.clear();
    let s = screen_of(&mut app, 160, 30);
    assert_eq!(lines(&s.repos), vec!["no herdr panes inside git repos"]);
    assert!(lines(&s.files).is_empty());
    app.loading = true;
    assert_eq!(lines(&screen_of(&mut app, 160, 30).repos), vec!["loading…"]);
    app.herdr_error = Some("down".into());
    assert_eq!(lines(&screen_of(&mut app, 160, 30).repos), vec!["down"]);
}

#[test]
fn diff_in_one_column() {
    let mut app = app();
    let s = screen_of(&mut app, 80, 30);
    assert_eq!(text(&s.diff.title), " src/lib.rs 1/4 ");
    let l = lines(&s.diff);
    assert_eq!(l[0], "@@ -1,2 +1,2 @@");
    assert_eq!(l[1], "  1   1  ctx");
    assert!(l[2].starts_with("  2     -old line"));
    assert!(l[3].starts_with("      2 +new line"));
    // Changed lines are filled up to the width of the panel.
    assert_eq!(l[3].chars().count(), 78);
    // Scrolled sideways, and with little room.
    app.diff.as_mut().unwrap().hscroll = 4;
    app.diff.as_mut().unwrap().scroll = 2;
    let s = screen_of(&mut app, 80, 12);
    let l = lines(&s.diff);
    assert!(l[0].starts_with("  2     -line"), "{}", l[0]);
    app.diff = None;
    assert_eq!(lines(&screen_of(&mut app, 80, 30).diff), vec!["loading…"]);
    app.groups.clear();
    assert_eq!(lines(&screen_of(&mut app, 80, 30).diff), vec![""]);
}

#[test]
fn diff_side_by_side() {
    let mut app = app();
    app.view = View::Split;
    let s = screen_of(&mut app, 80, 30);
    let l = lines(&s.diff);
    assert_eq!(l.len(), 3);
    let (left, right) = l[2].split_once('│').unwrap();
    assert!(left.starts_with("  2 -old line"), "{left}");
    assert!(right.starts_with("  2 +new line"), "{right}");
    assert_eq!((left.chars().count(), right.chars().count()), (38, 39));
    let (left, right) = l[1].split_once('│').unwrap();
    assert!(left.starts_with("  1  ctx") && right.starts_with("  1  ctx"));
}

#[test]
fn wide_characters_keep_the_sides_apart() {
    let mut app = app();
    app.view = View::Split;
    let mut d = diff();
    d.lines = Ok(parse_unified("@@ -1 +1 @@\n-日本語日本語日本語\n+x\n"));
    app.apply_diff(d);
    let s = screen_of(&mut app, 40, 30);
    let l = lines(&s.diff);
    let (left, right) = l[1].split_once('│').unwrap();
    assert_eq!(left, "  1 -日本語日本語 ");
    assert_eq!(right, "  1 +x             ");
}

#[test]
fn highlighted_text_is_clipped() {
    let mut app = app();
    let span = |t: &str, fg: Fg| HlSpan {
        fg,
        bold: false,
        italic: true,
        text: t.into(),
    };
    let v = app.diff.as_mut().unwrap();
    v.highlights = vec![
        None,
        None,
        None,
        Some(vec![span("new", Fg::Rgb(1, 2, 3)), span(" line", Fg::Indexed(4))]),
    ];
    v.hscroll = 4;
    let s = screen_of(&mut app, 80, 30);
    let Body::Text { lines, .. } = &s.diff.body else {
        panic!("no text")
    };
    let l = &lines[3];
    assert_eq!(l[2].text, "line");
    assert_eq!(l[2].style.fg, Some(Color::Indexed(4)));
    assert!(l[2].style.italic);
    assert_eq!(text(l).chars().count(), 78);
}

#[test]
fn status_bar() {
    let mut app = app();
    let s = screen_of(&mut app, 120, 30);
    let l = text(&s.status);
    assert!(l.starts_with(" uncommitted  updated 2s ago "), "{l}");
    assert!(l.ends_with(" m mode  a agent  e edit  ? help  q quit "), "{l}");
    assert_eq!(l.chars().count(), 120);
    app.flash("hello");
    app.non_repo_panes = 2;
    app.herdr_error = Some("x".repeat(80));
    app.target = Some(Target {
        scope: Scope::Follow,
        workspace_id: Some("w1".into()),
        label: Some("project".into()),
    });
    app.scope = Scope::Follow;
    let l = text(&screen_of(&mut app, 120, 30).status);
    assert!(l.contains(" follow: project herdr: xxx"), "{l}");
    assert!(l.contains("xx… updated 2s ago · 2 pane(s) outside git · hello "), "{l}");
    // A message is shown for three seconds.
    let old = draw(&mut app, Rect::new(0, 0, 120, 30), None, 3);
    assert!(!text(&old.status).contains("hello"));
    app.loading = true;
    assert!(text(&screen_of(&mut app, 120, 30).status).contains("refreshing… "));
}

#[test]
fn the_focus_stands_out() {
    assert_eq!(block(true).0, Border::Thick);
    assert_eq!(block(true).1.fg, Some(Color::Cyan));
    assert_eq!(block(false).0, Border::Rounded);
    assert_eq!(highlight(true).bg, Some(Color::Rgb(40, 44, 60)));
    assert_eq!(highlight(false).bg, Some(Color::Rgb(30, 30, 36)));
}

#[test]
fn popups() {
    let mut app = app();
    assert!(screen_of(&mut app, 120, 40).popups.is_empty());
    app.show_help = true;
    app.commit = Some(CommitBox {
        root: "/r/proj".into(),
        message: "one\ntwo".into(),
        busy: false,
    });
    app.notice = Some(Notice {
        title: "git commit failed".into(),
        body: "a\nb".into(),
    });
    let s = screen_of(&mut app, 120, 40);
    assert_eq!(s.popups.len(), 3);
    assert_eq!(s.popups[0].area, Rect::new(20, 8, 80, 24));
    assert!(lines(&s.popups[0].panel)[0].starts_with(" tab / l / enter      focus next"));
    assert_eq!(
        lines(&s.popups[1].panel),
        vec![
            "one".to_string(),
            "two".to_string(),
            "working here: aider".to_string(),
            "ctrl-s commit  ctrl-u clear  esc cancel".to_string()
        ]
    );
    assert_eq!(text(&s.popups[1].panel.title), " commit to proj ");
    assert_eq!(lines(&s.popups[2].panel), vec!["a", "b"]);
    // Popups never exceed the screen.
    let s = screen_of(&mut app, 30, 10);
    assert!(s.popups.iter().all(|p| p.area.width <= 30 && p.area.height <= 10));
}

#[test]
fn cut_texts() {
    assert_eq!(truncate("abc", 3), "abc");
    assert_eq!(truncate("abcd", 3), "ab…");
    assert_eq!(truncate("abcd", 0), "…");
    assert_eq!(truncate_left("abcd", 3), "…cd");
    assert_eq!(truncate_left("ä/öü", 4), "ä/öü");
    assert_eq!(truncate_left("abcd", 0), "…");
}

#[test]
fn list_prints_repos_panes_and_files() {
    let mut r = refreshed();
    let path = format!("{:<60}", "src/lib.rs");
    assert_eq!(
        list_lines(&r, Scope::All),
        vec![
            "/r/proj  [main]  1 files  +1 -1  (vs HEAD)".to_string(),
            "  pane w1:p1 proj/1 aider working".to_string(),
            format!("    M {path} +1 -1"),
        ]
    );
    assert_eq!(list_warning(&r), None);
    r.target.label = Some("project".into());
    r.herdr_error = Some("down".into());
    r.groups[0].panes[0].agent = None;
    r.groups[0].panes[0].status = None;
    let stats = r.groups[0].stats.as_mut().unwrap();
    stats.files[0].removed = None;
    stats.files.push(FileChange {
        path: "sub/".into(),
        ..stats.files[0].clone()
    });
    let out = list_lines(&r, Scope::Here);
    assert_eq!(out[0], "scope here: project");
    assert_eq!(out[2], "  pane w1:p1 proj/1 shell ");
    assert!(out[3].ends_with(" binary") && out[4].ends_with(" nested repo"));
    assert_eq!(list_warning(&r).unwrap(), "herdr: down");
    r.groups[0].stats = Err("boom".into());
    assert_eq!(list_lines(&r, Scope::Here)[1], "/r/proj  error: boom");
}

#[test]
fn list_as_json() {
    let mut r = refreshed();
    assert_eq!(
        list_value(&r, Mode::Uncommitted, Scope::All).to_string(),
        "{\"herdr_error\":null,\"mode\":\"uncommitted\",\"repos\":[{\"error\":null,\"panes\":[\
         {\"agent\":\"aider\",\"pane_id\":\"w1:p1\",\"status\":\"working\",\"tab\":\"1\",\
         \"title\":\"fixing bug\",\"workspace\":\"proj\"}],\"root\":\"/r/proj\",\"stats\":\
         {\"base\":\"HEAD\",\"branch\":\"main\",\"files\":[{\"added\":1,\"path\":\"src/lib.rs\",\
         \"removed\":1,\"status\":\"M\"}]}}],\"scope\":\"all\",\"workspace\":null,\
         \"workspace_id\":null}"
    );
    r.groups[0].stats = Err("bo\"om".into());
    r.groups[0].panes.clear();
    let text = list_json(&r, Mode::Staged, Scope::Here).unwrap();
    assert_eq!(
        text,
        "{\n  \"herdr_error\": null,\n  \"mode\": \"staged\",\n  \"repos\": [\n    {\n      \
         \"error\": \"bo\\\"om\",\n      \"panes\": [],\n      \"root\": \"/r/proj\",\n      \
         \"stats\": null\n    }\n  ],\n  \"scope\": \"here\",\n  \"workspace\": null,\n  \
         \"workspace_id\": null\n}"
    );
}

#[test]
fn editors() {
    let cmd = |e: &str, line| editor_command(e, "/a/x", line);
    assert_eq!(cmd("vim", Some(7)), vec!["vim", "+7", "/a/x"]);
    assert_eq!(cmd("vim", None), vec!["vim", "/a/x"]);
    assert_eq!(cmd("/usr/bin/code -w", Some(7)), vec!["/usr/bin/code", "-w", "--goto", "/a/x:7"]);
    assert_eq!(cmd("cursor", Some(1)), vec!["cursor", "--goto", "/a/x:1"]);
    assert_eq!(cmd("zed", Some(7)), vec!["zed", "/a/x:7"]);
    assert_eq!(cmd("subl -n", Some(7)), vec!["subl", "-n", "/a/x:7"]);
    assert_eq!(cmd("  ", Some(7)), vec!["vi", "+7", "/a/x"]);
    assert_eq!(editor_of(&None, &None), "vi");
    assert_eq!(editor_of(&None, &Some("nano".into())), "nano");
    assert_eq!(editor_of(&Some("code".into()), &Some("nano".into())), "code");
}

#[test]
fn scopes_to_start_in() {
    let inside = SelfPane::from_env(Some("p".into()), None);
    let outside = SelfPane::default();
    assert_eq!(viewer_scope(None, &inside), Scope::Follow);
    assert_eq!(viewer_scope(None, &outside), Scope::All);
    assert_eq!(viewer_scope(Some(Scope::Here), &inside), Scope::Here);
    assert_eq!(list_scope(None), Scope::All);
    assert_eq!(list_scope(Some(Scope::Follow)), Scope::Follow);
    assert_eq!(check_scope(Some(Scope::Here), &inside), Ok(()));
    assert_eq!(check_scope(Some(Scope::All), &outside), Ok(()));
    assert_eq!(
        check_scope(Some(Scope::Here), &outside).unwrap_err(),
        "--scope here needs to run inside a herdr pane (HERDR_PANE_ID is not set)"
    );
}

fn key(c: char) -> Input {
    Input::Key {
        event: KeyEvent::new(
            KeyCode::Char(c),
            KeyModifiers {
                control: false,
                shift: false,
            },
        ),
        release: false,
    }
}

#[test]
fn inputs_have_effects() {
    let mut t = Tui::new(app());
    t.drawn();
    assert!(matches!(t.on_input(Input::Other), Effect::Nothing) && !t.dirty);
    let release = match key('q') {
        Input::Key { event, .. } => Input::Key {
            event,
            release: true,
        },
        _ => unreachable!(),
    };
    assert!(matches!(t.on_input(release), Effect::Nothing) && !t.dirty);
    let moved = Input::Mouse(MouseEvent {
        kind: MouseEventKind::Moved,
        column: 0,
        row: 0,
        modifiers: KeyModifiers {
            control: false,
            shift: false,
        },
    });
    assert!(matches!(t.on_input(moved), Effect::Nothing) && !t.dirty);
    t.on_input(Input::Resize);
    assert!(t.dirty);
    assert!(matches!(t.on_input(key('q')), Effect::Quit));
    assert!(matches!(
        t.on_input(key('r')),
        Effect::Send(Job::Refresh {
            mode: Mode::Uncommitted,
            scope: Scope::All
        })
    ));
    assert!(matches!(t.on_input(key('a')), Effect::FocusPane(id) if id == "w1:p1"));
    assert!(matches!(t.on_input(key('e')), Effect::Edit { path, line: Some(2) } if path == "/r/proj/src/lib.rs"));
    assert!(matches!(t.on_input(key('C')), Effect::Commit { root } if root == "/r/proj"));
    assert!(matches!(t.on_input(key('A')), Effect::Send(Job::Git { op: GitOp::StageAll, .. })));
    t.app.diff = None;
    assert!(matches!(t.on_input(key(']')), Effect::Send(Job::Diff { file, .. }) if file.path == "src/lib.rs"));
    t.app.commit = Some(CommitBox {
        root: "/r".into(),
        message: String::new(),
        busy: false,
    });
    t.on_input(Input::Paste("hi".into()));
    assert_eq!(t.app.commit.as_ref().unwrap().message, "hi");
}

#[test]
fn results_of_effects() {
    let mut t = Tui::new(app());
    t.pane_focused("w1:p1", &Ok(()));
    assert_eq!(t.app.message.as_ref().unwrap().0, "focused w1:p1");
    t.pane_focused("w1:p1", &Err("gone".into()));
    assert_eq!(t.app.message.as_ref().unwrap().0, "focus failed: gone");
    assert!(matches!(t.edited(&Err("exit 1".into())), Job::Refresh { .. }));
    assert_eq!(t.app.message.as_ref().unwrap().0, "editor: exit 1");
    assert!(matches!(t.committed(&Err("exit 1".into())), Job::Refresh { .. }));
    assert_eq!(t.app.message.as_ref().unwrap().0, "git commit: exit 1");
    assert!(request_diff(&App::new(Mode::Staged, View::Auto)).is_none());
}

#[test]
fn events_are_debounced() {
    let mut t = Tui::new(app());
    t.app.scope = Scope::Follow;
    assert!(t.on_event(AppEvent::HerdrChanged { focus: false }, 1000).is_none());
    assert_eq!(t.refresh_due, Some(1000 + DEBOUNCE));
    // Later events do not put it off; the focus may bring it forward.
    t.on_event(AppEvent::HerdrChanged { focus: false }, 2000);
    assert_eq!(t.refresh_due, Some(1000 + DEBOUNCE));
    t.on_event(AppEvent::HerdrChanged { focus: true }, 3000);
    assert_eq!(t.refresh_due, Some(3000 + FOCUS_DEBOUNCE));
    t.on_event(AppEvent::Tick, 4000);
    assert_eq!(t.refresh_due, Some(3000 + FOCUS_DEBOUNCE));
    assert!(t.end_round(2999 + FOCUS_DEBOUNCE, 0).is_none());
    assert!(matches!(
        t.end_round(3000 + FOCUS_DEBOUNCE, 0),
        Some(Job::Refresh { scope: Scope::Follow, .. })
    ));
    assert_eq!(t.refresh_due, None);
    t.on_event(AppEvent::Tick, 77);
    assert_eq!(t.refresh_due, Some(77));
    // Where the scope does not depend on it, the focus is only noted.
    t.app.scope = Scope::All;
    assert!(matches!(
        t.on_event(AppEvent::HerdrChanged { focus: true }, 5),
        Some(Job::ObserveFocus)
    ));
    assert_eq!(t.refresh_due, Some(77));
}

#[test]
fn results_reach_the_screen() {
    let mut t = Tui::new(App::new(Mode::Uncommitted, View::Auto));
    t.drawn();
    assert!(matches!(
        t.on_event(AppEvent::Refreshed(refreshed()), 0),
        Some(Job::Diff { .. })
    ));
    assert!(t.dirty);
    t.drawn();
    assert!(t.on_event(AppEvent::Diff(diff()), 0).is_none());
    assert!(t.dirty && t.app.diff.is_some());
    let done = GitDone {
        root: "/r".into(),
        op: GitOp::StageAll,
        result: Ok("staged everything".into()),
    };
    assert!(matches!(t.on_event(AppEvent::GitDone(done), 0), Some(Job::Refresh { .. })));
    assert_eq!(t.app.message.as_ref().unwrap().0, "staged everything");
    // The counter keeps moving.
    t.drawn();
    t.end_round(0, 4);
    assert!(t.dirty);
    t.drawn();
    t.end_round(0, 4);
    assert!(!t.dirty);
}
