//! The herdr socket API and what the worker makes of it.

use std::cell::Cell;

use serde_json::Value;

use herdiff::git::{FileChange, GitError, GitOp, Mode, Output, RepoStats, Status};
use herdiff::herdr::{
    answer, deliver, focus_params, pushed, request_id, request_line, settle, snapshot_value,
    subscription_id, subscription_params, Client, Message, Pane, Pushed, Snapshot, SocketEnv, Tab,
    Workspace,
};
use herdiff::scope::{Resolver, Scope, SelfPane};
use herdiff::worker::{
    coalesce, event_changes_panes, event_is_focus, finish_refresh, load_diff, plan_refresh,
    resubscribe_pause, Job, RootCache,
};

fn text(v: &Value, key: &str) -> Option<String> {
    v.get(key).and_then(Value::as_str).map(String::from)
}

fn snapshot(raw: &Value) -> Snapshot {
    let list = |key: &str| raw.get(key).and_then(Value::as_array).cloned().unwrap_or_default();
    Snapshot {
        focused_workspace_id: text(raw, "focused_workspace_id"),
        focused_pane_id: text(raw, "focused_pane_id"),
        workspaces: list("workspaces")
            .iter()
            .map(|w| Workspace {
                workspace_id: text(w, "workspace_id").unwrap(),
                label: text(w, "label").unwrap_or_default(),
                number: w.get("number").and_then(Value::as_u64).unwrap_or(0) as u32,
            })
            .collect(),
        tabs: list("tabs")
            .iter()
            .map(|t| Tab {
                tab_id: text(t, "tab_id").unwrap(),
                label: text(t, "label").unwrap_or_default(),
            })
            .collect(),
        panes: list("panes")
            .iter()
            .map(|p| Pane {
                pane_id: text(p, "pane_id").unwrap(),
                workspace_id: text(p, "workspace_id").unwrap(),
                tab_id: text(p, "tab_id").unwrap_or_default(),
                cwd: text(p, "cwd"),
                foreground_cwd: text(p, "foreground_cwd"),
                agent: text(p, "agent"),
                agent_status: text(p, "agent_status"),
                terminal_title_stripped: text(p, "terminal_title_stripped"),
                focused: p.get("focused").and_then(Value::as_bool).unwrap_or(false),
            })
            .collect(),
    }
}

#[test]
fn parses_snapshot_subset() {
    let raw: Value = serde_json::from_str(
        r#"{
            "workspaces": [{"workspace_id": "w1", "label": "proj", "number": 1, "extra": true}],
            "tabs": [{"tab_id": "w1:t1", "label": "1"}],
            "panes": [{
                "pane_id": "w1:p1", "workspace_id": "w1", "tab_id": "w1:t1",
                "cwd": "/a", "foreground_cwd": "", "agent": "aider",
                "agent_status": "working", "focused": true
            }]
        }"#,
    )
    .unwrap();
    let snap = snapshot(&raw);
    assert_eq!(snap.panes[0].work_dir(), Some("/a"));
    assert_eq!(snap.workspaces[0].label, "proj");
}

#[test]
fn work_dirs() {
    let mut s = snapshot(&serde_json::from_str(r#"{"panes":[{"pane_id":"p","workspace_id":"w"}]}"#).unwrap());
    assert_eq!(s.panes[0].work_dir(), None);
    s.panes[0].cwd = Some("/a".into());
    s.panes[0].foreground_cwd = Some("/b".into());
    assert_eq!(s.panes[0].work_dir(), Some("/b"));
    s.panes[0].foreground_cwd = None;
    s.panes[0].cwd = Some(String::new());
    assert_eq!(s.panes[0].work_dir(), None);
}

fn env(socket: Option<&str>, home: Option<&str>) -> SocketEnv {
    SocketEnv {
        socket_path: socket.map(String::from),
        home: home.map(String::from),
    }
}

#[test]
fn socket_paths() {
    let e = env(Some("/s"), Some("/h"));
    assert_eq!(Client::new(Some("/mine".into()), &e).socket, "/mine");
    assert_eq!(Client::new(None, &e).socket, "/s");
    let e = env(None, Some("/h"));
    assert_eq!(Client::new(None, &e).socket, "/h/.config/herdr/herdr.sock");
    let c = Client::new(None, &env(None, None));
    assert_eq!(c.socket, "./herdr/herdr.sock");
    assert_eq!(c.unreachable("refused"), "connect to herdr socket ./herdr/herdr.sock: refused");
}

#[test]
fn requests_are_json() {
    assert_eq!(request_id(7), "herdiff:7");
    assert_eq!(subscription_id(12), "herdiff:sub:12");
    let line = request_line("herdiff:7", "pane.focus", &focus_params("w\"1\\\n\u{1}é"));
    assert_eq!(
        line,
        "{\"id\":\"herdiff:7\",\"method\":\"pane.focus\",\"params\":{\"pane_id\":\"w\\\"1\\\\\\n\\u0001é\"}}"
    );
    let v: Value = serde_json::from_str(&line).unwrap();
    assert_eq!(v["params"]["pane_id"], Value::from("w\"1\\\n\u{1}é"));
}

#[test]
fn subscriptions_name_events_and_panes() {
    let v = subscription_params(&["w1:p1".to_string(), "w1:p2".to_string()]);
    let subs = v["subscriptions"].as_array().unwrap();
    assert_eq!(subs.len(), 20);
    assert_eq!(subs[0]["type"], Value::from("workspace.created"));
    assert!(subs.iter().any(|s| s["type"] == Value::from("pane.focused")));
    assert_eq!(subs[18]["type"], Value::from("pane.agent_status_changed"));
    assert_eq!(subs[19]["pane_id"], Value::from("w1:p2"));
    assert_eq!(
        subs[19].to_string(),
        "{\"pane_id\":\"w1:p2\",\"type\":\"pane.agent_status_changed\"}"
    );
    let none = subscription_params(&[]).to_string();
    assert!(none.starts_with("{\"subscriptions\":[{\"type\":") && none.ends_with("]}"));
}

#[test]
fn answers_to_requests() {
    let ask = |line: &str| answer("herdiff:1", "m", Some(&line.to_string()));
    assert_eq!(
        ask(" {\"id\":\"herdiff:1\",\"result\":{\"a\":1}} \n"),
        Some(Ok(serde_json::from_str("{\"a\":1}").unwrap()))
    );
    assert_eq!(ask("{\"id\":\"other\",\"result\":1}"), None);
    assert_eq!(ask("{\"event\":1}"), None);
    assert_eq!(
        ask("{\"id\":\"other\",\"error\":{\"code\":3}}"),
        Some(Err("herdr m failed: {\"code\":3}".to_string()))
    );
    assert_eq!(
        ask("{\"id\":\"herdiff:1\"}"),
        Some(Err("herdr m: response without result".to_string()))
    );
    let bad = ask("{nope").unwrap().unwrap_err();
    assert!(bad.starts_with("bad herdr response: {nope: "), "{bad}");
    assert_eq!(
        answer("herdiff:1", "m", None),
        Some(Err("herdr closed connection without response to m".to_string()))
    );
}

#[test]
fn snapshots_and_focus_go_through_requests() {
    let client = Client::new(Some("/s".into()), &env(None, None));
    let ask = |method: &String, params: &Value| {
        assert_eq!((method.as_str(), params.to_string().as_str()), ("session.snapshot", "{}"));
        Ok(serde_json::from_str("{\"snapshot\":{\"panes\":[]}}").unwrap())
    };
    assert_eq!(
        client.snapshot(&ask).unwrap(),
        serde_json::from_str::<Value>("{\"panes\":[]}").unwrap()
    );
    assert_eq!(
        client.snapshot(&|_: &String, _: &Value| Ok(Value::Null)).unwrap_err(),
        "session.snapshot: missing snapshot"
    );
    assert_eq!(snapshot_value(&Value::Null).unwrap_err(), "session.snapshot: missing snapshot");
    let focus = |method: &String, params: &Value| {
        assert_eq!((method.as_str(), params.to_string().as_str()), ("pane.focus", "{\"pane_id\":\"w1:p1\"}"));
        Ok(Value::Null)
    };
    assert_eq!(client.focus_pane("w1:p1", &focus), Ok(()));
    assert_eq!(
        client.focus_pane("w1:p1", &|_: &String, _: &Value| Err("no".to_string())),
        Err("no".to_string())
    );
}

#[test]
fn pushed_lines() {
    assert!(matches!(pushed("garbage"), Pushed::Nothing));
    assert!(matches!(
        pushed("{\"result\":{\"type\":\"subscription_started\"}}"),
        Pushed::Nothing
    ));
    match pushed("{\"error\": \"x\"}") {
        Pushed::Failed(e) => assert_eq!(e, "events.subscribe failed: \"x\""),
        other => panic!("{other:?}"),
    }
    match pushed("{ \"event\" : \"pane.focused\" }") {
        Pushed::Event(raw) => assert_eq!(raw, "{\"event\":\"pane.focused\"}"),
        other => panic!("{other:?}"),
    }
}

#[test]
fn messages_are_settled_by_error_and_id() {
    let msg = |error: Option<&str>, id: Option<&str>, result: Option<Value>| Message {
        error: error.map(String::from),
        id: id.map(String::from),
        result,
    };
    assert_eq!(
        settle("a", "m", msg(Some("7"), None, None)),
        Some(Err("herdr m failed: 7".to_string()))
    );
    assert_eq!(settle("a", "m", msg(None, Some("b"), Some(Value::Null))), None);
    assert_eq!(settle("a", "m", msg(None, None, Some(Value::Null))), None);
    assert_eq!(
        settle("a", "m", msg(None, Some("a"), Some(Value::Bool(true)))),
        Some(Ok(Value::Bool(true)))
    );
    assert_eq!(
        settle("a", "m", msg(None, Some("a"), None)),
        Some(Err("herdr m: response without result".to_string()))
    );
}

#[test]
fn messages_are_delivered_by_error_and_type() {
    let got = |e: Option<&str>, k: Option<&str>| {
        deliver(e.map(String::from), k.map(String::from), "raw".to_string())
    };
    assert!(matches!(got(Some("x"), Some("subscription_started")), Pushed::Failed(m)
        if m == "events.subscribe failed: x"));
    assert!(matches!(got(None, Some("subscription_started")), Pushed::Nothing));
    assert!(matches!(got(None, Some("other")), Pushed::Event(t) if t == "raw"));
    assert!(matches!(got(None, None), Pushed::Event(t) if t == "raw"));
}

#[test]
fn classifies_focus_events() {
    assert!(event_is_focus(
        r#"{"event":"pane.focused","data":{"pane_id":"w1:p1"}}"#
    ));
    assert!(event_is_focus(r#"{"type":"workspace.focused"}"#));
    assert!(!event_is_focus(r#"{"event":"pane.agent_status_changed"}"#));
}

#[test]
fn pane_set_events() {
    assert!(event_changes_panes(r#"{"event":"pane.created"}"#));
    assert!(event_changes_panes(r#"{"event":"workspace.closed"}"#));
    assert!(!event_changes_panes(r#"{"event":"pane.updated"}"#));
    assert_eq!(resubscribe_pause(true), 2000);
    assert_eq!(resubscribe_pause(false), 100);
}

fn file(path: &str) -> FileChange {
    FileChange {
        path: path.into(),
        status: Status::Modified,
        added: None,
        removed: None,
        index: ' ',
        worktree: 'M',
    }
}

#[test]
fn queued_jobs_are_merged() {
    let b = coalesce(vec![
        Job::Refresh { mode: Mode::Staged, scope: Scope::All },
        Job::Diff { root: "/a".into(), mode: Mode::Staged, file: file("x") },
        Job::ObserveFocus,
        Job::Git { root: "/a".into(), op: GitOp::StageAll },
        Job::Refresh { mode: Mode::Branch, scope: Scope::Here },
        Job::Git { root: "/a".into(), op: GitOp::UnstageAll },
        Job::Diff { root: "/a".into(), mode: Mode::Branch, file: file("y") },
    ]);
    assert_eq!(b.refresh, Some((Mode::Branch, Scope::Here)));
    assert!(matches!(b.diff, Some(Job::Diff { file, .. }) if file.path == "y"));
    // A refresh observes focus itself.
    assert!(!b.observe);
    assert_eq!(b.writes.len(), 2);
    assert!(matches!(&b.writes[1], Job::Git { op: GitOp::UnstageAll, .. }));
    let b = coalesce(vec![Job::ObserveFocus]);
    assert!(b.observe && b.refresh.is_none() && b.diff.is_none());
    assert!(!coalesce(Vec::new()).observe);
}

#[test]
fn roots_are_remembered_for_a_while() {
    let now = Cell::new(0u64);
    let asked = Cell::new(0u32);
    let clock = || now.get();
    let lookup = |d: &str| {
        asked.set(asked.get() + 1);
        if d == "/a/src" { Some("/a".to_string()) } else { None }
    };
    let mut cache = RootCache::new();
    assert_eq!(cache.resolve("/a/src", &clock, &lookup), Some("/a".to_string()));
    now.set(29_999_999_999);
    assert_eq!(cache.resolve("/a/src", &clock, &lookup), Some("/a".to_string()));
    assert_eq!(asked.get(), 1);
    now.set(30_000_000_000);
    assert_eq!(cache.resolve("/a/src", &clock, &lookup), Some("/a".to_string()));
    assert_eq!(asked.get(), 2);
    // That there is no repo is remembered too.
    assert_eq!(cache.resolve("/tmp", &clock, &lookup), None);
    assert_eq!(cache.resolve("/tmp", &clock, &lookup), None);
    assert_eq!(asked.get(), 3);
}

fn root_of(dir: &str) -> Option<String> {
    match dir {
        "/one/src" | "/one" => Some("/one".to_string()),
        "/two" => Some("/two".to_string()),
        _ => None,
    }
}

#[test]
fn refreshes_are_planned_and_finished() {
    let snap = snapshot(
        &serde_json::from_str(
            r#"{"workspaces":[{"workspace_id":"w1","number":1}],
                "panes":[{"pane_id":"p1","workspace_id":"w1","cwd":"/one/src"},
                         {"pane_id":"p2","workspace_id":"w1","cwd":"/tmp"}]}"#,
        )
        .unwrap(),
    );
    let dirs = vec!["/two".to_string(), "/one".to_string(), "/nowhere".to_string()];
    let mut resolver = Resolver::default();
    let me = SelfPane::default();
    let plan = plan_refresh(Ok(snap), &dirs, &me, &mut resolver, Scope::All, &root_of);
    let roots: Vec<_> = plan.repos.iter().map(|r| (r.0.as_str(), r.1.len())).collect();
    assert_eq!(roots, vec![("/one", 1), ("/two", 0)]);
    assert_eq!(plan.non_repo_panes, 1);
    assert_eq!(plan.herdr_error, None);
    let stats = vec![
        Some(Err(GitError::Spawn {
            command: "x".into(),
            cause: "gone".into(),
        })),
        Some(Ok(RepoStats::default())),
    ];
    let r = finish_refresh(Mode::Staged, plan, stats);
    assert_eq!(r.mode, Mode::Staged);
    assert_eq!(r.groups.len(), 2);
    assert_eq!(r.groups[0].name, "one");
    assert_eq!(r.groups[0].stats.as_ref().unwrap_err(), "spawn git x: gone");
    assert!(r.groups[1].stats.is_ok());

    // herdr cannot be reached: the directories that are always shown are left.
    let plan = plan_refresh(
        Err("down".to_string()),
        &dirs,
        &me,
        &mut resolver,
        Scope::All,
        &root_of,
    );
    assert_eq!(plan.repos.len(), 2);
    assert_eq!(plan.herdr_error.as_deref(), Some("down"));
    // A thread that died leaves its repo out.
    let r = finish_refresh(Mode::Staged, plan, vec![None, Some(Ok(RepoStats::default()))]);
    assert_eq!(r.groups.len(), 1);
    assert_eq!(r.groups[0].root, "/one");
}

#[test]
fn diffs_are_loaded() {
    let git = |args: &Vec<String>| {
        Ok(Output {
            code: Some(if args[0] == "diff" && args.last().unwrap() == "bad" { 128 } else { 0 }),
            stdout: b"@@ -1 +1 @@\n-a\n+b\n".to_vec(),
            stderr: b"fatal".to_vec(),
        })
    };
    let d = load_diff(&git, "/r".into(), Mode::Unstaged, file("x"), &None);
    assert_eq!((d.root.as_str(), d.path.as_str()), ("/r", "x"));
    assert_eq!(d.lines.unwrap().len(), 3);
    assert!(d.highlights.is_empty());
    let d = load_diff(&git, "/r".into(), Mode::Unstaged, file("bad"), &None);
    assert_eq!(
        d.lines.unwrap_err(),
        "git diff --no-ext-diff --no-renames -- bad failed (128): fatal"
    );
}
