//! Scopes and panes.

use herdiff::herdr::{Pane, Snapshot, Tab, Workspace};
use herdiff::model::{group_panes, repo_name, PaneRef, RepoGroup};
use herdiff::scope::{Resolver, Scope, SelfPane, Target};

fn workspace(id: &str, label: &str, number: u32) -> Workspace {
    Workspace {
        workspace_id: id.into(),
        label: label.into(),
        number,
    }
}

fn pane(id: &str, ws: &str) -> Pane {
    Pane {
        pane_id: id.into(),
        workspace_id: ws.into(),
        tab_id: String::new(),
        cwd: None,
        foreground_cwd: None,
        agent: None,
        agent_status: None,
        terminal_title_stripped: None,
        focused: false,
    }
}

/// w1 = project (agent in p1), w2 = viewer (herdiff in p1).
fn snap(focused_ws: &str, focused_pane: &str) -> Snapshot {
    Snapshot {
        focused_workspace_id: Some(focused_ws.into()),
        focused_pane_id: Some(focused_pane.into()),
        workspaces: vec![workspace("w1", "project", 1), workspace("w2", "viewer", 2)],
        tabs: Vec::new(),
        panes: vec![pane("w1:p1", "w1"), pane("w2:p1", "w2")],
    }
}

fn me() -> SelfPane {
    SelfPane {
        pane_id: Some("w2:p1".into()),
        workspace_id: Some("w2".into()),
    }
}

#[test]
fn follow_ignores_focus_on_own_pane() {
    let mut r = Resolver::default();
    // Started while herdiff itself has focus: nothing followed yet, use own workspace.
    let t = r.resolve(Scope::Follow, Some(&snap("w2", "w2:p1")), &me());
    assert_eq!(t.workspace_id.as_deref(), Some("w2"));

    // User jumps to the project.
    let t = r.resolve(Scope::Follow, Some(&snap("w1", "w1:p1")), &me());
    assert_eq!(t.workspace_id.as_deref(), Some("w1"));
    assert_eq!(t.label.as_deref(), Some("project"));

    // Back to herdiff to read the diff: keep showing the project.
    let t = r.resolve(Scope::Follow, Some(&snap("w2", "w2:p1")), &me());
    assert_eq!(t.workspace_id.as_deref(), Some("w1"));
}

#[test]
fn follow_tracks_other_panes_in_own_workspace() {
    let mut r = Resolver::default();
    r.resolve(Scope::Follow, Some(&snap("w1", "w1:p1")), &me());
    // A different pane in herdiff's workspace is a real focus change.
    let t = r.resolve(Scope::Follow, Some(&snap("w2", "w2:p9")), &me());
    assert_eq!(t.workspace_id.as_deref(), Some("w2"));
}

#[test]
fn follow_drops_closed_workspace() {
    let mut r = Resolver::default();
    r.resolve(Scope::Follow, Some(&snap("w1", "w1:p1")), &me());
    let mut s = snap("w2", "w2:p1");
    s.workspaces.retain(|w| w.workspace_id != "w1");
    let t = r.resolve(Scope::Follow, Some(&s), &me());
    assert_eq!(t.workspace_id.as_deref(), Some("w2"));
}

#[test]
fn failed_snapshot_keeps_followed_workspace() {
    let mut r = Resolver::default();
    r.resolve(Scope::Follow, Some(&snap("w1", "w1:p1")), &me());
    // herdr restarts while herdiff has focus.
    let t = r.resolve(Scope::Follow, None, &me());
    assert_eq!(t.workspace_id.as_deref(), Some("w1"));
    assert_eq!(t.label.as_deref(), Some("project"));
    let t = r.resolve(Scope::Follow, Some(&snap("w2", "w2:p1")), &me());
    assert_eq!(t.workspace_id.as_deref(), Some("w1"));
}

#[test]
fn focus_observed_in_other_scopes_seeds_follow() {
    let mut r = Resolver::default();
    r.resolve(Scope::All, Some(&snap("w1", "w1:p1")), &me());
    // Press `w` while herdiff has focus: follow starts from w1, not herdiff's own w2.
    let t = r.resolve(Scope::Follow, Some(&snap("w2", "w2:p1")), &me());
    assert_eq!(t.workspace_id.as_deref(), Some("w1"));
}

#[test]
fn follow_outside_herdr_uses_focus() {
    let mut r = Resolver::default();
    let t = r.resolve(
        Scope::Follow,
        Some(&snap("w1", "w1:p1")),
        &SelfPane::default(),
    );
    assert_eq!(t.workspace_id.as_deref(), Some("w1"));
}

#[test]
fn here_prefers_snapshot_over_env() {
    let mut r = Resolver::default();
    // Snapshot and env disagree: the snapshot is live, so it wins.
    let moved = SelfPane {
        pane_id: Some("w2:p1".into()),
        workspace_id: Some("w9".into()),
    };
    let t = r.resolve(Scope::Here, Some(&snap("w1", "w1:p1")), &moved);
    assert_eq!(t.workspace_id.as_deref(), Some("w2"));
    assert_eq!(t.key(), "ws:w2");
}

#[test]
fn all_and_cycling() {
    let mut r = Resolver::default();
    let t = r.resolve(Scope::All, Some(&snap("w1", "w1:p1")), &me());
    assert_eq!(t.workspace_id, None);
    assert!(t.includes("anything"));
    assert_eq!(t.key(), "all");

    assert_eq!(Scope::All.next(true), Scope::Follow);
    assert_eq!(Scope::Follow.next(true), Scope::Here);
    assert_eq!(Scope::Here.next(true), Scope::All);
    assert_eq!(Scope::Follow.next(false), Scope::All);
}

#[test]
fn herdr_never_reached() {
    let mut r = Resolver::default();
    let t = r.resolve(Scope::Here, None, &me());
    assert_eq!((t.workspace_id.as_deref(), t.label.as_deref()), (Some("w2"), Some("w2")));
    let t = r.resolve(Scope::All, None, &me());
    assert_eq!((t.workspace_id, t.label), (None, None));
    // A target for another scope is not kept.
    let mut r = Resolver::default();
    r.resolve(Scope::All, Some(&snap("w1", "w1:p1")), &me());
    let t = r.resolve(Scope::Follow, None, &me());
    assert_eq!(t.workspace_id.as_deref(), Some("w1"));
}

#[test]
fn labels_of_targets() {
    let mut s = snap("w1", "w1:p1");
    s.workspaces[0].label = String::new();
    let mut r = Resolver::default();
    let t = r.resolve(Scope::Follow, Some(&s), &me());
    assert_eq!(t.label.as_deref(), Some("w1"));
    let t = r.resolve(Scope::Here, Some(&Snapshot::default()), &SelfPane::default());
    assert_eq!((t.workspace_id.as_deref(), t.label.as_deref()), (Some(""), Some("none")));
    assert!(!t.includes("w1"));
    assert_eq!(Scope::Follow.label(), "follow");
}

#[test]
fn own_pane_from_the_environment() {
    let p = SelfPane::from_env(Some("w1:p1".into()), Some(String::new()));
    assert_eq!(p.pane_id.as_deref(), Some("w1:p1"));
    assert_eq!(p.workspace_id, None);
    assert!(p.inside_herdr());
    assert!(!SelfPane::from_env(None, Some(String::new())).inside_herdr());
    assert!(!SelfPane::default().inside_herdr());
}

fn everything() -> Target {
    Target {
        scope: Scope::All,
        workspace_id: None,
        label: None,
    }
}

fn session() -> Snapshot {
    Snapshot {
        focused_workspace_id: None,
        focused_pane_id: None,
        workspaces: vec![workspace("w2", "B", 2), workspace("w1", "A", 1)],
        tabs: vec![Tab {
            tab_id: "w1:t1".into(),
            label: "main".into(),
        }],
        panes: vec![
            Pane {
                cwd: Some("/repo2".into()),
                ..pane("w2:p1", "w2")
            },
            Pane {
                tab_id: "w1:t1".into(),
                cwd: Some("/repo1/src".into()),
                agent: Some("aider".into()),
                agent_status: Some("idle".into()),
                ..pane("w1:p1", "w1")
            },
            Pane {
                cwd: Some("/repo1".into()),
                agent: Some("codex".into()),
                agent_status: Some("working".into()),
                ..pane("w1:p2", "w1")
            },
            Pane {
                cwd: Some("/tmp".into()),
                ..pane("w1:p3", "w1")
            },
        ],
    }
}

fn root_of(dir: &str) -> Option<String> {
    if dir.starts_with("/repo1") {
        Some("/repo1".to_string())
    } else if dir.starts_with("/repo2") {
        Some("/repo2".to_string())
    } else {
        None
    }
}

#[test]
fn groups_by_repo_root_in_workspace_order() {
    let topo = group_panes(&session(), &everything(), &None, &root_of);
    assert_eq!(topo.non_repo_panes, 1);
    let roots: Vec<_> = topo
        .repos
        .iter()
        .map(|(r, p)| (r.as_str(), p.len()))
        .collect();
    assert_eq!(roots, vec![("/repo1", 2), ("/repo2", 1)]);
    assert_eq!(topo.repos[0].1[0].workspace, "A");
    assert_eq!(topo.repos[0].1[0].tab, "main");

    let g = RepoGroup {
        root: "/repo1".into(),
        name: "repo1".into(),
        panes: topo.repos[0].1.clone(),
        stats: Ok(Default::default()),
    };
    assert_eq!(g.status(), Some("working"));
}

#[test]
fn panes_out_of_scope_are_left_out() {
    let only_w2 = Target {
        scope: Scope::Follow,
        workspace_id: Some("w2".into()),
        label: None,
    };
    let topo = group_panes(&session(), &only_w2, &None, &root_of);
    assert_eq!(topo.repos.len(), 1);
    assert_eq!(topo.repos[0].0, "/repo2");
    assert_eq!(topo.non_repo_panes, 0);
    // Nor does herdiff list its own pane.
    let topo = group_panes(&session(), &everything(), &Some("w1:p1".into()), &root_of);
    let ids: Vec<_> = topo.repos[0].1.iter().map(|p| p.pane_id.as_str()).collect();
    assert_eq!(ids, vec!["w1:p2"]);
}

#[test]
fn unknown_workspaces_come_last() {
    let mut s = session();
    s.panes[1].workspace_id = "w9".into();
    let topo = group_panes(&s, &everything(), &None, &|_| Some("/r".to_string()));
    let ids: Vec<_> = topo.repos[0].1.iter().map(|p| p.pane_id.as_str()).collect();
    assert_eq!(ids, vec!["w1:p2", "w1:p3", "w2:p1", "w1:p1"]);
    assert_eq!(topo.repos[0].1[3].workspace, "?");
}

fn with_status(list: &[Option<&str>]) -> RepoGroup {
    RepoGroup {
        root: "/r".into(),
        name: "r".into(),
        panes: list
            .iter()
            .map(|s| PaneRef {
                pane_id: String::new(),
                workspace: String::new(),
                tab: String::new(),
                agent: None,
                status: s.map(String::from),
                title: String::new(),
                focused: false,
            })
            .collect(),
        stats: Ok(Default::default()),
    }
}

#[test]
fn badge_shows_the_most_urgent_state() {
    assert_eq!(with_status(&[]).status(), None);
    assert_eq!(with_status(&[None]).status(), None);
    assert_eq!(with_status(&[Some("odd"), Some("strange")]).status(), Some("odd"));
    assert_eq!(with_status(&[Some("odd"), Some("unknown"), None]).status(), Some("unknown"));
    assert_eq!(with_status(&[Some("idle"), Some("done")]).status(), Some("done"));
    assert_eq!(with_status(&[Some("working"), Some("blocked")]).status(), Some("blocked"));
    assert!(!with_status(&[None]).panes[0].is_agent());
}

#[test]
fn repo_names() {
    assert_eq!(repo_name("/home/x/proj"), "proj");
    assert_eq!(repo_name("/home/x/proj/"), "proj");
    assert_eq!(repo_name("proj/."), "proj");
    assert_eq!(repo_name("/"), "/");
    assert_eq!(repo_name("a/.."), "a/..");
    assert_eq!(repo_name("."), ".");
}
