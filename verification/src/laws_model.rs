//! What holds of panes, the repos they work in, and the scopes that show them.

use vstd::prelude::*;
use vstd::string::*;

use crate::herdr::{Pane, Snapshot, Tab, Workspace};
use crate::model::{
    described, entries, first_in_state, grouped, groups_of, in_order, last_tab, last_workspace,
    law_badge_is_most_urgent, listing, name_of, outside, pane_views, panes_of, place, rank,
    resolved, roots_of, shown, Entry, PaneRef, RepoGroup, Topology,
};
use crate::scope::{pane_named, resolved_to, workspace_named, Resolver, Scope, SelfPane, Target};
use crate::text::{before, opt_view};

verus! {

// ---------------------------------------------------------------------------------------
// The badge of a repo

proof fn lemma_states_differ()
    ensures
        "blocked"@ != "working"@,
        "blocked"@ != "done"@,
        "blocked"@ != "idle"@,
        "blocked"@ != "unknown"@,
        "working"@ != "done"@,
        "working"@ != "idle"@,
        "working"@ != "unknown"@,
        "done"@ != "idle"@,
        "done"@ != "unknown"@,
        "idle"@ != "unknown"@,
{
    reveal_strlit("blocked");
    reveal_strlit("working");
    reveal_strlit("done");
    reveal_strlit("idle");
    reveal_strlit("unknown");
    assert("blocked"@[0] == 'b');
    assert("working"@[0] == 'w');
    assert("done"@[0] == 'd');
    assert("idle"@[0] == 'i');
    assert("unknown"@[0] == 'u');
}

/// Some pane is in the state `s`.
pub open spec fn some_pane_is(panes: Seq<PaneRef>, s: Seq<char>) -> bool {
    exists|i: int| 0 <= i < panes.len() && opt_view((#[trigger] panes[i]).status) == Some(s)
}

/// A repo with a pane that is blocked is shown as blocked, else one with a pane that is working
/// as working, and so on down to unknown.
pub proof fn law_badge_goes_by_urgency(g: RepoGroup, r: Option<&str>)
    requires
        call_ensures(RepoGroup::status, (&g,), r),
    ensures
        ({
            let is = |s: Seq<char>| some_pane_is(g.panes@, s);
            let badge = |s: Seq<char>| r is Some && r->0@ == s;
            if is("blocked"@) {
                badge("blocked"@)
            } else if is("working"@) {
                badge("working"@)
            } else if is("done"@) {
                badge("done"@)
            } else if is("idle"@) {
                badge("idle"@)
            } else if is("unknown"@) {
                badge("unknown"@)
            } else {
                r is Some ==> some_pane_is(g.panes@, r->0@)
            }
        }),
        r is None <==> forall|i: int|
            0 <= i < g.panes@.len() ==> (#[trigger] g.panes@[i]).status is None,
{
    let panes = g.panes@;
    law_badge_is_most_urgent(panes);
    lemma_states_differ();
    assert forall|s: Seq<char>| some_pane_is(panes, s) implies r is Some && rank(r->0@) <= rank(
        s,
    ) by {
        let i = choose|i: int|
            0 <= i < panes.len() && opt_view((#[trigger] panes[i]).status) == Some(s);
        assert(panes[i].status is Some);
    }
    if r is Some {
        let i = choose|i: int| #[trigger] first_in_state(panes, i, r->0@);
        assert(opt_view(panes[i].status) == Some(r->0@));
        assert(some_pane_is(panes, r->0@));
        assert(panes[i].status is Some);
    }
}

// ---------------------------------------------------------------------------------------
// Names

/// A workspace is looked up by its ID; of several with the same ID the last one counts.
pub proof fn law_workspaces_are_looked_up_by_id(list: Seq<Workspace>, id: Seq<char>, k: int)
    requires
        -1 <= k < list.len(),
        k >= 0 ==> list[k].workspace_id@ == id,
        forall|j: int| k < j < list.len() ==> (#[trigger] list[j]).workspace_id@ != id,
    ensures
        last_workspace(list, id) == (if k >= 0 {
            Some(list[k])
        } else {
            None
        }),
    decreases list.len(),
{
    if list.len() > 0 && k < list.len() - 1 {
        assert(list[list.len() - 1].workspace_id@ != id);
        law_workspaces_are_looked_up_by_id(list.drop_last(), id, k);
    }
}

/// A tab is looked up by its ID; of several with the same ID the last one counts.
pub proof fn law_tabs_are_looked_up_by_id(list: Seq<Tab>, id: Seq<char>, k: int)
    requires
        -1 <= k < list.len(),
        k >= 0 ==> list[k].tab_id@ == id,
        forall|j: int| k < j < list.len() ==> (#[trigger] list[j]).tab_id@ != id,
    ensures
        last_tab(list, id) == (if k >= 0 {
            Some(list[k])
        } else {
            None
        }),
    decreases list.len(),
{
    if list.len() > 0 && k < list.len() - 1 {
        assert(list[list.len() - 1].tab_id@ != id);
        law_tabs_are_looked_up_by_id(list.drop_last(), id, k);
    }
}

/// What is said of a pane: its own ID, agent, state, title and focus, and the labels of its
/// workspace and its tab.
pub proof fn law_panes_are_described_by_what_they_are(snap: Snapshot, p: Pane)
    ensures
        ({
            let d = described(snap, p);
            &&& d.pane_id == p.pane_id@
            &&& d.agent == opt_view(p.agent)
            &&& d.status == opt_view(p.agent_status)
            &&& d.focused == p.focused
            &&& d.title == (match p.terminal_title_stripped {
                Some(t) => t@,
                None => Seq::empty(),
            })
            &&& d.workspace == (match last_workspace(snap.workspaces@, p.workspace_id@) {
                Some(w) => w.label@,
                None => "?"@,
            })
            &&& d.tab == (match last_tab(snap.tabs@, p.tab_id@) {
                Some(t) => t.label@,
                None => Seq::empty(),
            })
        }),
{
}

/// A pane works where its foreground program is, else where it was started; an empty path is
/// none.
pub proof fn law_panes_work_in_the_foreground_dir(p: Pane, r: Option<&str>)
    requires
        call_ensures(Pane::work_dir, (&p,), r),
    ensures
        p.foreground_cwd is Some && p.foreground_cwd->0@.len() > 0 ==> r is Some && r->0@
            == p.foreground_cwd->0@ && p.dir() == Some(p.foreground_cwd->0@),
        (p.foreground_cwd is None || p.foreground_cwd->0@.len() == 0) && p.cwd is Some
            && p.cwd->0@.len() > 0 ==> r is Some && r->0@ == p.cwd->0@ && p.dir() == Some(
            p.cwd->0@,
        ),
        (p.foreground_cwd is None || p.foreground_cwd->0@.len() == 0) && (p.cwd is None
            || p.cwd->0@.len() == 0) ==> r is None && p.dir() is None,
{
}

// ---------------------------------------------------------------------------------------
// The list of panes

/// The number of a pane's workspace; the largest there is where the workspace is not known.
pub open spec fn number_of(snap: Snapshot, p: Pane) -> int {
    match last_workspace(snap.workspaces@, p.workspace_id@) {
        Some(w) => w.number as int,
        None => 0xffff_ffff,
    }
}

/// The pane of that number in a listing.
pub open spec fn listed_pane(snap: Snapshot, order: Seq<usize>, k: int) -> Pane {
    snap.panes@[order[k] as int]
}

/// A pane is listed just where it is in the workspace that is shown, or all are, and is not the
/// viewer's own; none is listed twice. They go by the number of their workspace, then by their
/// ID, then as herdr lists them.
pub proof fn law_panes_are_listed_in_order(
    snap: Snapshot,
    target: Target,
    own: Option<Seq<char>>,
    order: Seq<usize>,
)
    requires
        listing(snap, target, own, order),
    ensures
        forall|i: int|
            #![trigger snap.panes@[i]]
            0 <= i < snap.panes@.len() ==> ((exists|k: int|
                0 <= k < order.len() && #[trigger] order[k] == i) <==> (target.workspace_id is None
                || target.workspace_id->0@ == snap.panes@[i].workspace_id@) && own != Some(
                snap.panes@[i].pane_id@,
            )),
        order.no_duplicates(),
        forall|j: int, k: int|
            #![trigger listed_pane(snap, order, j), listed_pane(snap, order, k)]
            0 <= j < k < order.len() ==> {
                let a = listed_pane(snap, order, j);
                let b = listed_pane(snap, order, k);
                ||| number_of(snap, a) < number_of(snap, b)
                ||| number_of(snap, a) == number_of(snap, b) && before(a.pane_id@, b.pane_id@)
                ||| number_of(snap, a) == number_of(snap, b) && a.pane_id@ == b.pane_id@ && order[j]
                    < order[k]
            },
{
    assert forall|i: int|
        #![trigger snap.panes@[i]]
        0 <= i < snap.panes@.len() implies ((exists|k: int|
        0 <= k < order.len() && #[trigger] order[k] == i) <==> (target.workspace_id is None
        || target.workspace_id->0@ == snap.panes@[i].workspace_id@) && own != Some(
        snap.panes@[i].pane_id@,
    )) by {
        let p = snap.panes@[i];
        assert(shown(target, own, p) == ((target.workspace_id is None || target.workspace_id->0@
            == p.workspace_id@) && own != Some(p.pane_id@)));
        if exists|k: int| 0 <= k < order.len() && #[trigger] order[k] == i {
            let k = choose|k: int| 0 <= k < order.len() && #[trigger] order[k] == i;
            assert(shown(target, own, snap.panes@[order[k] as int]));
        }
    }
    assert forall|j: int, k: int|
        #![trigger listed_pane(snap, order, j), listed_pane(snap, order, k)]
        0 <= j < k < order.len() implies {
        let a = listed_pane(snap, order, j);
        let b = listed_pane(snap, order, k);
        ||| number_of(snap, a) < number_of(snap, b)
        ||| number_of(snap, a) == number_of(snap, b) && before(a.pane_id@, b.pane_id@)
        ||| number_of(snap, a) == number_of(snap, b) && a.pane_id@ == b.pane_id@ && order[j]
            < order[k]
    } by {
        assert(in_order(snap, order[j], order[k]));
        let a = listed_pane(snap, order, j);
        let b = listed_pane(snap, order, k);
        crate::text::lemma_before_total(a.pane_id@, b.pane_id@);
    }
    assert forall|j: int, k: int| 0 <= j < k < order.len() implies order[j] != order[k] by {
        assert(in_order(snap, order[j], order[k]));
        let a = listed_pane(snap, order, j);
        crate::text::lemma_before_total(a.pane_id@, a.pane_id@);
    }
}

// ---------------------------------------------------------------------------------------
// Groups

proof fn lemma_panes_of(list: Seq<Entry>, root: Seq<char>)
    ensures
        panes_of(list, root) == list.filter(|e: Entry| e.root == Some(root)).map_values(
            |e: Entry| e.pane,
        ),
    decreases list.len(),
{
    reveal(Seq::filter);
    let f = |e: Entry| e.root == Some(root);
    let g = |e: Entry| e.pane;
    if list.len() > 0 {
        lemma_panes_of(list.drop_last(), root);
        assert(list.filter(f).map_values(g) =~= panes_of(list, root));
    } else {
        assert(list.filter(f).map_values(g) =~= panes_of(list, root));
    }
}

proof fn lemma_outside(list: Seq<Entry>)
    ensures
        outside(list) == list.filter(|e: Entry| e.root is None).len(),
    decreases list.len(),
{
    reveal(Seq::filter);
    if list.len() > 0 {
        lemma_outside(list.drop_last());
    }
}

/// `root` comes up in the list, and this is the first place where it does.
pub open spec fn first_seen(list: Seq<Entry>, root: Seq<char>, k: int) -> bool {
    &&& 0 <= k < list.len()
    &&& list[k].root == Some(root)
    &&& forall|j: int| 0 <= j < k ==> (#[trigger] list[j]).root != Some(root)
}

proof fn lemma_first_seen_grows(list: Seq<Entry>, e: Entry, root: Seq<char>, k: int)
    requires
        first_seen(list, root, k),
    ensures
        first_seen(list.push(e), root, k),
{
}

proof fn lemma_roots_in_order(list: Seq<Entry>) -> (at: Seq<int>)
    ensures
        at.len() == roots_of(list).len(),
        forall|i: int|
            0 <= i < at.len() ==> #[trigger] first_seen(list, roots_of(list)[i], at[i]),
        forall|i: int, j: int| 0 <= i < j < at.len() ==> #[trigger] at[i] < #[trigger] at[j],
    decreases list.len(),
{
    if list.len() == 0 {
        Seq::empty()
    } else {
        let rest = list.drop_last();
        let e = list.last();
        let old = lemma_roots_in_order(rest);
        assert(list =~= rest.push(e));
        let roots = roots_of(rest);
        assert forall|i: int| 0 <= i < old.len() implies #[trigger] first_seen(
            list,
            roots[i],
            old[i],
        ) by {
            lemma_first_seen_grows(rest, e, roots[i], old[i]);
        }
        if e.root is Some && !roots.contains(e.root->0) {
            let root = e.root->0;
            let n = rest.len() as int;
            assert forall|j: int| 0 <= j < n implies (#[trigger] list[j]).root != Some(root) by {
                if rest[j].root == Some(root) {
                    lemma_roots_hold(rest, j);
                }
            }
            assert(first_seen(list, root, n));
            let at = old.push(n);
            assert forall|i: int| 0 <= i < at.len() implies #[trigger] first_seen(
                list,
                roots_of(list)[i],
                at[i],
            ) by {
                if i < old.len() {
                    assert(first_seen(list, roots[i], old[i]));
                }
            }
            assert forall|i: int, j: int| 0 <= i < j < at.len() implies #[trigger] at[i]
                < #[trigger] at[j] by {
                if j == old.len() {
                    assert(first_seen(rest, roots[i], old[i]));
                }
            }
            at
        } else {
            old
        }
    }
}

proof fn lemma_roots_hold(list: Seq<Entry>, j: int)
    requires
        0 <= j < list.len(),
        list[j].root is Some,
    ensures
        roots_of(list).contains(list[j].root->0),
    decreases list.len(),
{
    let rest = list.drop_last();
    let root = list[j].root->0;
    let roots = roots_of(list);
    if j < rest.len() {
        lemma_roots_hold(rest, j);
        let k = choose|k: int| 0 <= k < roots_of(rest).len() && roots_of(rest)[k] == root;
        assert(roots[k] == root);
    } else if !roots_of(rest).contains(root) {
        assert(roots[roots.len() - 1] == root);
    }
}

/// The repos of a list of panes: each root that some pane has, once, in the order in which they
/// first come up, with the panes that have it, in the order of the list. The panes without a
/// root are counted.
pub proof fn law_panes_are_grouped_by_root(
    list: Seq<Entry>,
    repos: Seq<(String, Vec<PaneRef>)>,
    n: usize,
) -> (at: Seq<int>)
    requires
        groups_of(list, repos, n),
    ensures
        n == list.filter(|e: Entry| e.root is None).len(),
        forall|j: int|
            0 <= j < list.len() && (#[trigger] list[j]).root is Some ==> exists|i: int|
                0 <= i < repos.len() && (#[trigger] repos[i]).0@ == list[j].root->0,
        at.len() == repos.len(),
        forall|i: int| 0 <= i < at.len() ==> first_seen(list, (#[trigger] repos[i]).0@, at[i]),
        forall|i: int, j: int| 0 <= i < j < at.len() ==> #[trigger] at[i] < #[trigger] at[j],
        forall|i: int|
            0 <= i < repos.len() ==> pane_views((#[trigger] repos[i]).1@) == list.filter(
                |e: Entry| e.root == Some(repos[i].0@),
            ).map_values(|e: Entry| e.pane),
{
    lemma_outside(list);
    let at = lemma_roots_in_order(list);
    let roots = roots_of(list);
    assert forall|j: int| 0 <= j < list.len() && (#[trigger] list[j]).root is Some implies exists|
        i: int,
    |
        0 <= i < repos.len() && (#[trigger] repos[i]).0@ == list[j].root->0 by {
        lemma_roots_hold(list, j);
        let k = choose|k: int| 0 <= k < roots.len() && roots[k] == list[j].root->0;
        assert(repos[k].0@ == list[j].root->0);
    }
    assert forall|i: int| 0 <= i < at.len() implies first_seen(
        list,
        (#[trigger] repos[i]).0@,
        at[i],
    ) by {
        assert(first_seen(list, roots[i], at[i]));
    }
    assert forall|i: int| 0 <= i < repos.len() implies pane_views((#[trigger] repos[i]).1@)
        == list.filter(|e: Entry| e.root == Some(repos[i].0@)).map_values(
        |e: Entry| e.pane,
    ) by {
        lemma_panes_of(list, repos[i].0@);
    }
    at
}

/// The panes of a session are listed, each with the root of the repo that its directory is in,
/// and grouped by that. `home` says which repo a directory is in.
pub proof fn law_sessions_are_grouped_by_repo<F: Fn(&str) -> Option<String>>(
    snap: Snapshot,
    target: Target,
    own: Option<Seq<char>>,
    resolve: F,
    home: spec_fn(Seq<char>) -> Option<Seq<char>>,
    r: Topology,
) -> (w: (Seq<usize>, Seq<Entry>))
    requires
        grouped(snap, target, own, resolve, r),
        forall|d: &str, root: Option<String>| #[trigger]
            call_ensures(resolve, (d,), root) ==> opt_view(root) == home(d@),
    ensures
        listing(snap, target, own, w.0),
        w.1.len() == w.0.len(),
        forall|k: int|
            0 <= k < w.1.len() ==> {
                let p = snap.panes@[w.0[k] as int];
                &&& (#[trigger] w.1[k]).pane == described(snap, p)
                &&& w.1[k].root == (match p.dir() {
                    Some(d) => home(d),
                    None => None,
                })
            },
        groups_of(w.1, r.repos@, r.non_repo_panes),
{
    let (order, roots) = choose|order: Seq<usize>, roots: Seq<Option<String>>|
        {
            &&& #[trigger] listing(snap, target, own, order)
            &&& order.len() == roots.len()
            &&& forall|k: int|
                0 <= k < order.len() ==> resolved(
                    resolve,
                    snap.panes@[order[k] as int],
                    #[trigger] roots[k],
                )
            &&& groups_of(#[trigger] entries(snap, order, roots), r.repos@, r.non_repo_panes)
        };
    let list = entries(snap, order, roots);
    assert forall|k: int| 0 <= k < list.len() implies {
        let p = snap.panes@[order[k] as int];
        &&& (#[trigger] list[k]).pane == described(snap, p)
        &&& list[k].root == (match p.dir() {
            Some(d) => home(d),
            None => None,
        })
    } by {
        assert(resolved(resolve, snap.panes@[order[k] as int], roots[k]));
    }
    (order, list)
}

/// A repo is called by the last part of its path; by the whole path where that has none.
pub proof fn law_repos_are_called_by_their_directory(dir: Seq<char>, name: Seq<char>)
    requires
        !name.contains('/'),
        name.len() > 0,
        name != "."@,
    ensures
        name != ".."@ ==> name_of(dir + "/"@ + name) == name,
        name == ".."@ ==> name_of(dir + "/"@ + name) == dir + "/"@ + name,
{
    crate::laws_text::law_names_stand_behind_the_last_slash(dir, name);
}

// ---------------------------------------------------------------------------------------
// Scopes

/// The first pane of that ID.
pub proof fn law_own_pane_is_found_by_id(panes: Seq<Pane>, id: Seq<char>, k: int)
    requires
        0 <= k <= panes.len(),
        k < panes.len() ==> panes[k].pane_id@ == id,
        forall|j: int| 0 <= j < k ==> (#[trigger] panes[j]).pane_id@ != id,
    ensures
        pane_named(panes, id) == (if k < panes.len() {
            Some(panes[k])
        } else {
            None
        }),
    decreases panes.len(),
{
    if k > 0 {
        assert(panes[0].pane_id@ != id);
        assert forall|j: int| 0 <= j < k - 1 implies (#[trigger] panes.skip(1)[j]).pane_id@ != id by {
            assert(panes.skip(1)[j] == panes[j + 1]);
        }
        law_own_pane_is_found_by_id(panes.skip(1), id, k - 1);
    }
}

/// A workspace is open just where it is listed, and the first of that ID gives the label.
pub proof fn law_open_workspaces_are_listed(list: Seq<Workspace>, id: Seq<char>, k: int)
    requires
        0 <= k <= list.len(),
        k < list.len() ==> list[k].workspace_id@ == id,
        forall|j: int| 0 <= j < k ==> (#[trigger] list[j]).workspace_id@ != id,
    ensures
        workspace_named(list, id) == (if k < list.len() {
            Some(list[k])
        } else {
            None
        }),
    decreases list.len(),
{
    if k > 0 {
        assert(list[0].workspace_id@ != id);
        assert forall|j: int| 0 <= j < k - 1 implies (#[trigger] list.skip(1)[j]).workspace_id@
            != id by {
            assert(list.skip(1)[j] == list[j + 1]);
        }
        law_open_workspaces_are_listed(list.skip(1), id, k - 1);
    }
}

/// The workspace that the viewer's own pane is in: the one that the session says, else the one
/// that the environment says.
pub open spec fn own_workspace(me: SelfPane, snap: Snapshot) -> Option<Seq<char>> {
    if me.pane_id is Some && pane_named(snap.panes@, me.pane_id->0@) is Some {
        Some(pane_named(snap.panes@, me.pane_id->0@)->0.workspace_id@)
    } else {
        opt_view(me.workspace_id)
    }
}

/// The workspace that has been seen in focus last: the one in focus now, unless that is the
/// viewer itself or there is none, and only while it is open.
pub open spec fn seen_last(prev: Option<Seq<char>>, snap: Snapshot, me: SelfPane) -> Option<
    Seq<char>,
> {
    let own = me.pane_id is Some && snap.focused_pane_id is Some && snap.focused_pane_id->0@
        == me.pane_id->0@;
    let seen = if !own && snap.focused_workspace_id is Some {
        Some(snap.focused_workspace_id->0@)
    } else {
        prev
    };
    if seen is Some && workspace_named(snap.workspaces@, seen->0) is Some {
        seen
    } else {
        None
    }
}

/// What each scope shows of a session: all of it; the workspace that the viewer is in; or the
/// one seen in focus last, else the viewer's own, else the one in focus. Where there is none,
/// the one with an empty name. It is called by its label, by its ID where it has none.
pub proof fn law_scopes_show_what_they_say(
    old: Resolver,
    scope: Scope,
    snap: Snapshot,
    me: SelfPane,
    new: Resolver,
    r: Target,
)
    requires
        resolved_to(old, scope, Some(snap), me, new, r),
    ensures
        r.scope == scope,
        opt_view(new.followed) == seen_last(opt_view(old.followed), snap, me),
        new.last == Some(r),
        scope == Scope::All ==> r.workspace_id is None && r.label is None,
        scope == Scope::Here ==> opt_view(r.workspace_id) == Some(
            match own_workspace(me, snap) {
                Some(w) => w,
                None => Seq::empty(),
            },
        ),
        scope == Scope::Follow ==> opt_view(r.workspace_id) == Some(
            match seen_last(opt_view(old.followed), snap, me) {
                Some(w) => w,
                None => match own_workspace(me, snap) {
                    Some(w) => w,
                    None => match snap.focused_workspace_id {
                        Some(w) => w@,
                        None => Seq::empty(),
                    },
                },
            },
        ),
        r.workspace_id matches Some(id) ==> match workspace_named(snap.workspaces@, id@) {
            Some(w) => opt_view(r.label) == Some(
                if w.label@.len() > 0 {
                    w.label@
                } else if id@.len() > 0 {
                    id@
                } else {
                    "none"@
                },
            ),
            None => opt_view(r.label) == Some(
                if id@.len() > 0 {
                    id@
                } else {
                    "none"@
                },
            ),
        },
{
}

/// Without a session the scope keeps what it showed; a scope that has shown nothing yet goes by
/// what was seen in focus and by the environment.
pub proof fn law_scopes_last_while_herdr_is_away(
    old: Resolver,
    scope: Scope,
    me: SelfPane,
    new: Resolver,
    r: Target,
)
    requires
        resolved_to(old, scope, None, me, new, r),
    ensures
        new == old,
        old.last is Some && old.last->0.scope == scope ==> r == old.last->0,
        old.last is None || old.last->0.scope != scope ==> {
            &&& r.scope == scope
            &&& opt_view(r.label) == opt_view(r.workspace_id)
            &&& scope == Scope::All ==> r.workspace_id is None
            &&& scope == Scope::Here ==> opt_view(r.workspace_id) == opt_view(me.workspace_id)
            &&& scope == Scope::Follow && old.followed is Some ==> opt_view(r.workspace_id)
                == opt_view(old.followed)
            &&& scope == Scope::Follow && old.followed is None ==> opt_view(r.workspace_id)
                == opt_view(me.workspace_id)
        },
{
}

/// The scopes, their names, and the order in which they follow one another. That of the own
/// workspace is passed over where it is not to be had.
pub proof fn law_scopes_follow_one_another(s: Scope, here: bool, n: Scope, name: &'static str)
    requires
        call_ensures(Scope::next, (s, here), n),
        call_ensures(Scope::label, (s,), name),
    ensures
        s == Scope::All ==> n == Scope::Follow && name@ == "all"@,
        s == Scope::Follow && here ==> n == Scope::Here,
        s == Scope::Follow && !here ==> n == Scope::All,
        s == Scope::Follow ==> name@ == "follow"@,
        s == Scope::Here ==> n == Scope::All && name@ == "here"@,
{
}

/// What the environment says of the viewer's pane; an empty variable says nothing.
pub proof fn law_environment_names_the_own_pane(
    pane: Option<String>,
    workspace: Option<String>,
    me: SelfPane,
    inside: bool,
)
    requires
        call_ensures(SelfPane::from_env, (pane, workspace), me),
        call_ensures(SelfPane::inside_herdr, (&me,), inside),
    ensures
        me.pane_id == (if pane is Some && pane->0@.len() > 0 {
            pane
        } else {
            None
        }),
        me.workspace_id == (if workspace is Some && workspace->0@.len() > 0 {
            workspace
        } else {
            None
        }),
        inside <==> me.pane_id is Some || me.workspace_id is Some,
{
}

/// A target includes the workspace that it shows, or every one; places are kept apart by it.
pub proof fn law_targets_include_their_workspace(
    t: Target,
    ws: &str,
    r: bool,
    key: String,
)
    requires
        call_ensures(Target::includes, (&t, ws), r),
        call_ensures(Target::key, (&t,), key),
    ensures
        t.workspace_id is None ==> r && key@ == "all"@,
        t.workspace_id matches Some(w) ==> (r <==> w@ == ws@) && key@ == "ws:"@ + w@,
{
}

} // verus!
