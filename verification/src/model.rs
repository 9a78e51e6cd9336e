//! Join herdr panes with the git repos they work in.

use vstd::prelude::*;
use vstd::string::*;

use crate::git::RepoStats;
use crate::herdr::{Pane, Snapshot, Tab, Workspace};
use crate::paths::{file_name, file_name_of};
use crate::scope::Target;
use crate::text::{
    before, comes_before, lemma_before_total, lemma_before_transitive, opt_clone, opt_view,
    same_text,
};

verus! {

#[derive(Debug, PartialEq, Eq)]
pub struct PaneRef {
    pub pane_id: String,
    pub workspace: String,
    pub tab: String,
    pub agent: Option<String>,
    pub status: Option<String>,
    pub title: String,
    pub focused: bool,
}

/// A pane of a repo as a value.
pub struct PaneView {
    pub pane_id: Seq<char>,
    pub workspace: Seq<char>,
    pub tab: Seq<char>,
    pub agent: Option<Seq<char>>,
    pub status: Option<Seq<char>>,
    pub title: Seq<char>,
    pub focused: bool,
}

impl View for PaneRef {
    type V = PaneView;

    open spec fn view(&self) -> PaneView {
        PaneView {
            pane_id: self.pane_id@,
            workspace: self.workspace@,
            tab: self.tab@,
            agent: opt_view(self.agent),
            status: opt_view(self.status),
            title: self.title@,
            focused: self.focused,
        }
    }
}

impl Clone for PaneRef {
    fn clone(&self) -> (r: Self)
        ensures
            r == *self,
    {
        PaneRef {
            pane_id: self.pane_id.clone(),
            workspace: self.workspace.clone(),
            tab: self.tab.clone(),
            agent: opt_clone(&self.agent),
            status: opt_clone(&self.status),
            title: self.title.clone(),
            focused: self.focused,
        }
    }
}

impl PaneRef {
    pub fn is_agent(&self) -> (r: bool)
        ensures
            r == (self.agent is Some),
    {
        self.agent.is_some()
    }
}

#[derive(Debug)]
pub struct RepoGroup {
    pub root: String,
    pub name: String,
    pub panes: Vec<PaneRef>,
    pub stats: Result<RepoStats, String>,
}

/// How urgent an agent state is; the lowest number comes first.
pub open spec fn rank(status: Seq<char>) -> nat {
    if status == "blocked"@ {
        0
    } else if status == "working"@ {
        1
    } else if status == "done"@ {
        2
    } else if status == "idle"@ {
        3
    } else if status == "unknown"@ {
        4
    } else {
        5
    }
}

/// How urgent an agent state is.
fn rank_of(status: &str) -> (r: usize)
    ensures
        r == rank(status@),
{
    if same_text(status, "blocked") {
        0
    } else if same_text(status, "working") {
        1
    } else if same_text(status, "done") {
        2
    } else if same_text(status, "idle") {
        3
    } else if same_text(status, "unknown") {
        4
    } else {
        5
    }
}

/// The most urgent state among those of some panes; the first of those that are equally urgent.
pub open spec fn urgent(panes: Seq<PaneRef>) -> Option<Seq<char>>
    decreases panes.len(),
{
    if panes.len() == 0 {
        None
    } else {
        let rest = urgent(panes.drop_last());
        match panes.last().status {
            Some(s) => match rest {
                Some(t) if rank(t) <= rank(s@) => Some(t),
                _ => Some(s@),
            },
            None => rest,
        }
    }
}

/// Pane `i` is in the state `s`, and those before it are in less urgent ones or in none.
pub open spec fn first_in_state(panes: Seq<PaneRef>, i: int, s: Seq<char>) -> bool {
    &&& 0 <= i < panes.len()
    &&& opt_view(panes[i].status) == Some(s)
    &&& forall|j: int|
        0 <= j < i && (#[trigger] panes[j]).status is Some ==> rank(s) < rank(
            panes[j].status->0@,
        )
}

/// The badge of a repo is the state of one of its panes, and no pane of it is in a more urgent
/// one; of panes that are equally urgent it is the first one's. The repo has none only where no
/// pane has a state.
pub proof fn law_badge_is_most_urgent(panes: Seq<PaneRef>)
    ensures
        match urgent(panes) {
            Some(s) => {
                &&& exists|i: int| #[trigger] first_in_state(panes, i, s)
                &&& forall|j: int|
                    0 <= j < panes.len() && (#[trigger] panes[j]).status is Some ==> rank(s)
                        <= rank(panes[j].status->0@)
            },
            None => forall|j: int| 0 <= j < panes.len() ==> (#[trigger] panes[j]).status is None,
        },
    decreases panes.len(),
{
    if panes.len() > 0 {
        let rest = panes.drop_last();
        let last = panes.len() - 1;
        law_badge_is_most_urgent(rest);
        assert forall|j: int| 0 <= j < last implies rest[j] == #[trigger] panes[j] by {}
        assert(panes[last] == panes.last());
        let s = urgent(panes);
        if s is Some && s == urgent(rest) && !(panes[last].status is Some && rank(
            panes[last].status->0@,
        ) < rank(s->0)) {
            let i = choose|i: int| #[trigger] first_in_state(rest, i, s->0);
            assert(first_in_state(panes, i, s->0));
        } else if s is Some {
            assert(first_in_state(panes, last, s->0));
        }
    }
}

impl RepoGroup {
    /// Most urgent agent state in the group, for the repo badge.
    pub fn status(&self) -> (r: Option<&str>)
        ensures
            match r {
                Some(s) => urgent(self.panes@) == Some(s@),
                None => urgent(self.panes@) is None,
            },
    {
        let panes = &self.panes;
        let mut best: Option<&str> = None;
        let mut i: usize = 0;
        while i < panes.len()
            invariant
                i <= panes.len(),
                match best {
                    Some(s) => urgent(panes@.take(i as int)) == Some(s@),
                    None => urgent(panes@.take(i as int)) is None,
                },
            decreases panes.len() - i,
        {
            assert(panes@.take(i + 1).drop_last() =~= panes@.take(i as int));
            if let Some(s) = &panes[i].status {
                let keep = match best {
                    Some(t) => rank_of(t) <= rank_of(s.as_str()),
                    None => false,
                };
                if !keep {
                    best = Some(s.as_str());
                }
            }
            i += 1;
        }
        assert(panes@.take(i as int) =~= panes@);
        best
    }
}

/// Panes grouped by repo root, without git stats yet.
#[derive(Debug)]
pub struct Topology {
    pub repos: Vec<(String, Vec<PaneRef>)>,
    pub non_repo_panes: usize,
}

// ---------------------------------------------------------------------------------------
// Names and order of panes

/// The last workspace with that ID.
pub open spec fn last_workspace(list: Seq<Workspace>, id: Seq<char>) -> Option<Workspace>
    decreases list.len(),
{
    if list.len() == 0 {
        None
    } else if list.last().workspace_id@ == id {
        Some(list.last())
    } else {
        last_workspace(list.drop_last(), id)
    }
}

/// The last tab with that ID.
pub open spec fn last_tab(list: Seq<Tab>, id: Seq<char>) -> Option<Tab>
    decreases list.len(),
{
    if list.len() == 0 {
        None
    } else if list.last().tab_id@ == id {
        Some(list.last())
    } else {
        last_tab(list.drop_last(), id)
    }
}

/// Look up a workspace.
fn workspace_by_id<'a>(list: &'a Vec<Workspace>, id: &str) -> (r: Option<&'a Workspace>)
    ensures
        match r {
            Some(w) => last_workspace(list@, id@) == Some(*w),
            None => last_workspace(list@, id@) is None,
        },
{
    let mut n: usize = list.len();
    assert(list@.take(n as int) =~= list@);
    while n > 0
        invariant
            n <= list.len(),
            last_workspace(list@.take(n as int), id@) == last_workspace(list@, id@),
        decreases n,
    {
        assert(list@.take(n as int).drop_last() =~= list@.take(n - 1));
        if same_text(list[n - 1].workspace_id.as_str(), id) {
            return Some(&list[n - 1]);
        }
        n -= 1;
    }
    None
}

/// Look up a tab.
fn tab_by_id<'a>(list: &'a Vec<Tab>, id: &str) -> (r: Option<&'a Tab>)
    ensures
        match r {
            Some(t) => last_tab(list@, id@) == Some(*t),
            None => last_tab(list@, id@) is None,
        },
{
    let mut n: usize = list.len();
    assert(list@.take(n as int) =~= list@);
    while n > 0
        invariant
            n <= list.len(),
            last_tab(list@.take(n as int), id@) == last_tab(list@, id@),
        decreases n,
    {
        assert(list@.take(n as int).drop_last() =~= list@.take(n - 1));
        if same_text(list[n - 1].tab_id.as_str(), id) {
            return Some(&list[n - 1]);
        }
        n -= 1;
    }
    None
}

/// Place of a pane's workspace; panes of an unknown workspace come last.
pub open spec fn place(snap: Snapshot, p: Pane) -> u32 {
    match last_workspace(snap.workspaces@, p.workspace_id@) {
        Some(w) => w.number,
        None => u32::MAX,
    }
}

/// Pane `a` is listed before pane `b`: by workspace number, and by pane ID within that.
pub open spec fn pane_before(snap: Snapshot, a: Pane, b: Pane) -> bool {
    place(snap, a) < place(snap, b) || (place(snap, a) == place(snap, b) && before(
        a.pane_id@,
        b.pane_id@,
    ))
}

/// `order` holds the indices of the panes that are shown, each once, in the order in which
/// they are listed; panes that tie stay as they were.
pub open spec fn listing(
    snap: Snapshot,
    target: Target,
    own_pane: Option<Seq<char>>,
    order: Seq<usize>,
) -> bool {
    &&& forall|k: int|
        0 <= k < order.len() ==> (#[trigger] order[k]) < snap.panes@.len() && shown(
            target,
            own_pane,
            snap.panes@[order[k] as int],
        )
    &&& forall|i: int|
        0 <= i < snap.panes@.len() && shown(target, own_pane, #[trigger] snap.panes@[i]) ==> exists|
            k: int,
        |
            0 <= k < order.len() && #[trigger] order[k] == i
    &&& forall|j: int, k: int|
        0 <= j < k < order.len() ==> in_order(snap, #[trigger] order[j], #[trigger] order[k])
}

/// Pane number `i` stands before pane number `j` in the listing.
pub open spec fn in_order(snap: Snapshot, i: usize, j: usize) -> bool {
    let a = snap.panes@[i as int];
    let b = snap.panes@[j as int];
    pane_before(snap, a, b) || (!pane_before(snap, b, a) && i < j)
}

/// The pane is in scope, and not the viewer's own.
pub open spec fn shown(target: Target, own_pane: Option<Seq<char>>, p: Pane) -> bool {
    target.covers(p.workspace_id@) && own_pane != Some(p.pane_id@)
}

/// What the list says of a pane.
pub open spec fn described(snap: Snapshot, p: Pane) -> PaneView {
    PaneView {
        pane_id: p.pane_id@,
        workspace: match last_workspace(snap.workspaces@, p.workspace_id@) {
            Some(w) => w.label@,
            None => "?"@,
        },
        tab: match last_tab(snap.tabs@, p.tab_id@) {
            Some(t) => t.label@,
            None => Seq::empty(),
        },
        agent: opt_view(p.agent),
        status: opt_view(p.agent_status),
        title: crate::scope::or_empty(opt_view(p.terminal_title_stripped)),
        focused: p.focused,
    }
}

/// Describe a pane.
fn pane_ref(snap: &Snapshot, p: &Pane) -> (r: PaneRef)
    ensures
        r@ == described(*snap, *p),
{
    PaneRef {
        pane_id: p.pane_id.clone(),
        workspace: match workspace_by_id(&snap.workspaces, p.workspace_id.as_str()) {
            Some(w) => w.label.clone(),
            None => "?".to_owned(),
        },
        tab: match tab_by_id(&snap.tabs, p.tab_id.as_str()) {
            Some(t) => t.label.clone(),
            None => String::new(),
        },
        agent: opt_clone(&p.agent),
        status: opt_clone(&p.agent_status),
        title: match &p.terminal_title_stripped {
            Some(t) => t.clone(),
            None => String::new(),
        },
        focused: p.focused,
    }
}

/// Place of a pane's workspace.
fn place_of(snap: &Snapshot, p: &Pane) -> (r: u32)
    ensures
        r == place(*snap, *p),
{
    match workspace_by_id(&snap.workspaces, p.workspace_id.as_str()) {
        Some(w) => w.number,
        None => u32::MAX,
    }
}

/// Whether pane `a` is listed before pane `b`.
fn listed_before(snap: &Snapshot, a: &Pane, b: &Pane) -> (r: bool)
    ensures
        r == pane_before(*snap, *a, *b),
{
    let x: u32 = place_of(snap, a);
    let y: u32 = place_of(snap, b);
    x < y || (x == y && comes_before(a.pane_id.as_str(), b.pane_id.as_str()))
}

proof fn lemma_in_order_transitive(snap: Snapshot, i: usize, j: usize, k: usize)
    requires
        in_order(snap, i, j),
        in_order(snap, j, k),
    ensures
        in_order(snap, i, k),
{
    let a = snap.panes@[i as int].pane_id@;
    let b = snap.panes@[j as int].pane_id@;
    let c = snap.panes@[k as int].pane_id@;
    lemma_before_total(a, b);
    lemma_before_total(b, c);
    lemma_before_total(a, c);
    if before(a, b) && before(b, c) {
        lemma_before_transitive(a, b, c);
    }
}

proof fn lemma_in_order_total(snap: Snapshot, i: usize, j: usize)
    requires
        i != j,
    ensures
        in_order(snap, i, j) != in_order(snap, j, i),
{
    let a = snap.panes@[i as int].pane_id@;
    let b = snap.panes@[j as int].pane_id@;
    lemma_before_total(a, b);
}

/// There is one way to list the panes that are shown.
pub proof fn law_listing_is_determined(
    snap: Snapshot,
    target: Target,
    own_pane: Option<Seq<char>>,
    a: Seq<usize>,
    b: Seq<usize>,
)
    requires
        listing(snap, target, own_pane, a),
        listing(snap, target, own_pane, b),
    ensures
        a == b,
{
    lemma_listings_agree(snap, target, own_pane, a, b, a.len() as int);
    lemma_listings_agree(snap, target, own_pane, b, a, b.len() as int);
    assert(a =~= b);
}

/// The first `n` panes of one listing are those of any other.
proof fn lemma_listings_agree(
    snap: Snapshot,
    target: Target,
    own_pane: Option<Seq<char>>,
    a: Seq<usize>,
    b: Seq<usize>,
    n: int,
)
    requires
        listing(snap, target, own_pane, a),
        listing(snap, target, own_pane, b),
        0 <= n <= a.len(),
    ensures
        n <= b.len(),
        forall|k: int| 0 <= k < n ==> #[trigger] a[k] == b[k],
    decreases n,
{
    if n > 0 {
        let k = n - 1;
        lemma_listings_agree(snap, target, own_pane, a, b, k);
        let x = a[k];
        assert(shown(target, own_pane, snap.panes@[x as int]));
        let j = choose|j: int| 0 <= j < b.len() && #[trigger] b[j] == x;
        lemma_before_total(snap.panes@[x as int].pane_id@, snap.panes@[x as int].pane_id@);
        if j < k {
            assert(a[j] == b[j]);
            assert(in_order(snap, a[j], a[k]));
        }
        if j > k {
            let y = b[k];
            assert(shown(target, own_pane, snap.panes@[y as int]));
            let i = choose|i: int| 0 <= i < a.len() && #[trigger] a[i] == y;
            assert(in_order(snap, b[k], b[j]));
            if i < k {
                assert(a[i] == b[i]);
                assert(in_order(snap, b[i], b[k]));
                lemma_before_total(snap.panes@[y as int].pane_id@, snap.panes@[y as int].pane_id@);
            } else if i > k {
                assert(in_order(snap, a[k], a[i]));
                lemma_in_order_total(snap, x, y);
            }
        }
        assert(j == k);
    }
}

/// The indices of the panes that are shown, in the order of the list.
fn listing_of(snap: &Snapshot, target: &Target, own_pane: &Option<String>) -> (r: Vec<usize>)
    ensures
        listing(*snap, *target, opt_view(*own_pane), r@),
{
    let mut order: Vec<usize> = Vec::new();
    let ghost own = opt_view(*own_pane);
    let mut i: usize = 0;
    while i < snap.panes.len()
        invariant
            i <= snap.panes.len(),
            own == opt_view(*own_pane),
            forall|k: int|
                0 <= k < order@.len() ==> (#[trigger] order@[k]) < i && shown(
                    *target,
                    own,
                    snap.panes@[order@[k] as int],
                ),
            forall|x: int|
                0 <= x < i && shown(*target, own, #[trigger] snap.panes@[x]) ==> exists|k: int|
                    0 <= k < order@.len() && #[trigger] order@[k] == x,
            forall|j: int, k: int|
                0 <= j < k < order@.len() ==> in_order(
                    *snap,
                    #[trigger] order@[j],
                    #[trigger] order@[k],
                ),
        decreases snap.panes.len() - i,
    {
        let p = &snap.panes[i];
        let is_own = match own_pane {
            Some(id) => same_text(id.as_str(), p.pane_id.as_str()),
            None => false,
        };
        let ghost seen = order@;
        if !is_own && target.includes(p.workspace_id.as_str()) {
            let at = place_for(snap, &order, i);
            order.insert(at, i);
            proof {
                assert forall|j: int, k: int| 0 <= j < k < order@.len() implies in_order(
                    *snap,
                    #[trigger] order@[j],
                    #[trigger] order@[k],
                ) by {
                    if k < at {
                        assert(order@[j] == seen[j]);
                        assert(order@[k] == seen[k]);
                    } else if k == at {
                        assert(order@[j] == seen[j]);
                    } else if j < at {
                        assert(order@[j] == seen[j]);
                        assert(order@[k] == seen[k - 1]);
                    } else if j == at {
                        assert(order@[k] == seen[k - 1]);
                    } else {
                        assert(order@[j] == seen[j - 1]);
                        assert(order@[k] == seen[k - 1]);
                    }
                }
                assert forall|x: int|
                    0 <= x < i + 1 && shown(*target, own, #[trigger] snap.panes@[x]) implies exists|
                    k: int,
                |
                    0 <= k < order@.len() && #[trigger] order@[k] == x by {
                    if x == i {
                        assert(order@[at as int] == i);
                    } else {
                        let k = choose|k: int| 0 <= k < seen.len() && #[trigger] seen[k] == x;
                        if k < at {
                            assert(order@[k] == x);
                        } else {
                            assert(order@[k + 1] == x);
                        }
                    }
                }
                assert forall|k: int| 0 <= k < order@.len() implies (#[trigger] order@[k]) < i + 1
                    && shown(*target, own, snap.panes@[order@[k] as int]) by {
                    if k < at {
                        assert(order@[k] == seen[k]);
                    } else if k > at {
                        assert(order@[k] == seen[k - 1]);
                    }
                }
            }
        }
        i += 1;
    }
    order
}

/// Where pane `i` goes in a list of panes before it: behind those it does not precede.
fn place_for(snap: &Snapshot, order: &Vec<usize>, i: usize) -> (at: usize)
    requires
        i < snap.panes@.len(),
        forall|k: int| 0 <= k < order@.len() ==> (#[trigger] order@[k]) < i,
        forall|j: int, k: int|
            0 <= j < k < order@.len() ==> in_order(*snap, #[trigger] order@[j], #[trigger] order@[k]),
    ensures
        at <= order@.len(),
        forall|k: int| 0 <= k < at ==> in_order(*snap, #[trigger] order@[k], i),
        forall|k: int| at <= k < order@.len() ==> in_order(*snap, i, #[trigger] order@[k]),
{
    let mut n: usize = order.len();
    while n > 0 && listed_before(snap, &snap.panes[i], &snap.panes[order[n - 1]])
        invariant
            n <= order@.len(),
            i < snap.panes@.len(),
            forall|k: int| 0 <= k < order@.len() ==> (#[trigger] order@[k]) < i,
            forall|k: int| n <= k < order@.len() ==> in_order(*snap, i, #[trigger] order@[k]),
        decreases n,
    {
        n -= 1;
    }
    proof {
        if n > 0 {
            let top = order@[n - 1];
            lemma_in_order_total(*snap, top, i);
            assert forall|k: int| 0 <= k < n implies in_order(*snap, #[trigger] order@[k], i) by {
                if k < n - 1 {
                    lemma_in_order_transitive(*snap, order@[k], top, i);
                }
            }
        }
    }
    n
}

// ---------------------------------------------------------------------------------------
// Grouping

/// A listed pane: the root of the repo it works in, if it works in one.
pub struct Entry {
    pub root: Option<Seq<char>>,
    pub pane: PaneView,
}

/// The panes of the repo at `root`, in the order of the list.
pub open spec fn panes_of(list: Seq<Entry>, root: Seq<char>) -> Seq<PaneView>
    decreases list.len(),
{
    if list.len() == 0 {
        Seq::empty()
    } else if list.last().root == Some(root) {
        panes_of(list.drop_last(), root).push(list.last().pane)
    } else {
        panes_of(list.drop_last(), root)
    }
}

/// The repo roots of a list, each once, in the order in which they first come up.
pub open spec fn roots_of(list: Seq<Entry>) -> Seq<Seq<char>>
    decreases list.len(),
{
    if list.len() == 0 {
        Seq::empty()
    } else {
        let rest = roots_of(list.drop_last());
        match list.last().root {
            Some(root) => if rest.contains(root) {
                rest
            } else {
                rest.push(root)
            },
            None => rest,
        }
    }
}

/// Number of panes that work in no repo.
pub open spec fn outside(list: Seq<Entry>) -> nat
    decreases list.len(),
{
    if list.len() == 0 {
        0
    } else {
        outside(list.drop_last()) + (if list.last().root is None {
            1nat
        } else {
            0nat
        })
    }
}

/// The contents of a list of panes.
pub open spec fn pane_views(v: Seq<PaneRef>) -> Seq<PaneView> {
    v.map_values(|p: PaneRef| p@)
}

/// `repos` and `non_repo_panes` say which panes work where.
pub open spec fn groups_of(
    list: Seq<Entry>,
    repos: Seq<(String, Vec<PaneRef>)>,
    non_repo_panes: usize,
) -> bool {
    &&& repos.len() == roots_of(list).len()
    &&& forall|i: int|
        0 <= i < repos.len() ==> (#[trigger] repos[i]).0@ == roots_of(list)[i] && pane_views(
            repos[i].1@,
        ) == panes_of(list, roots_of(list)[i])
    &&& non_repo_panes == outside(list)
}

/// Every repo is listed once, at least one pane works in it, and each pane is either in one
/// repo or counted as outside.
pub proof fn law_panes_are_partitioned(list: Seq<Entry>)
    ensures
        roots_of(list).no_duplicates(),
        forall|i: int|
            0 <= i < roots_of(list).len() ==> panes_of(list, #[trigger] roots_of(list)[i]).len() > 0,
        forall|root: Seq<char>|
            !roots_of(list).contains(root) ==> #[trigger] panes_of(list, root).len() == 0,
        pane_total(list, roots_of(list)) + outside(list) == list.len(),
    decreases list.len(),
{
    let roots = roots_of(list);
    if list.len() > 0 {
        let rest = list.drop_last();
        let before_roots = roots_of(rest);
        law_panes_are_partitioned(rest);
        match list.last().root {
            Some(root) => {
                if before_roots.contains(root) {
                    let k = choose|k: int| 0 <= k < before_roots.len() && before_roots[k] == root;
                    lemma_total_grows(rest, list, roots, k, root);
                } else {
                    assert(roots.drop_last() =~= before_roots);
                    assert(roots.contains(root)) by {
                        assert(roots[roots.len() - 1] == root);
                    }
                    assert forall|x: Seq<char>| before_roots.contains(x) implies roots.contains(
                        x,
                    ) by {
                        let k = choose|k: int| 0 <= k < before_roots.len() && before_roots[k] == x;
                        assert(roots[k] == x);
                    }
                    assert(panes_of(rest, root).len() == 0);
                    assert(panes_of(list, root).len() == 1);
                    lemma_total_same(rest, list, before_roots, root);
                    assert(pane_total(list, roots) == pane_total(list, before_roots) + 1);
                }
            },
            None => {
                lemma_total_unchanged(rest, list, roots);
            },
        }
        assert forall|root: Seq<char>| !roots.contains(root) implies #[trigger] panes_of(
            list,
            root,
        ).len() == 0 by {
            if before_roots.contains(root) {
                let k = choose|k: int| 0 <= k < before_roots.len() && before_roots[k] == root;
                assert(roots[k] == root);
            }
            assert(panes_of(rest, root).len() == 0);
            if list.last().root == Some(root) {
                assert(roots.last() == root);
                assert(roots[roots.len() - 1] == root);
            }
        }
    }
}

/// Number of panes over the repos at `roots`.
pub open spec fn pane_total(list: Seq<Entry>, roots: Seq<Seq<char>>) -> nat
    decreases roots.len(),
{
    if roots.len() == 0 {
        0
    } else {
        pane_total(list, roots.drop_last()) + panes_of(list, roots.last()).len()
    }
}

proof fn lemma_total_unchanged(rest: Seq<Entry>, list: Seq<Entry>, roots: Seq<Seq<char>>)
    requires
        list.len() > 0,
        rest == list.drop_last(),
        list.last().root is None,
    ensures
        pane_total(list, roots) == pane_total(rest, roots),
    decreases roots.len(),
{
    if roots.len() > 0 {
        lemma_total_unchanged(rest, list, roots.drop_last());
    }
}

proof fn lemma_total_same(
    rest: Seq<Entry>,
    list: Seq<Entry>,
    roots: Seq<Seq<char>>,
    root: Seq<char>,
)
    requires
        list.len() > 0,
        rest == list.drop_last(),
        list.last().root == Some(root),
        !roots.contains(root),
    ensures
        pane_total(list, roots) == pane_total(rest, roots),
    decreases roots.len(),
{
    if roots.len() > 0 {
        assert(roots[roots.len() - 1] == roots.last());
        assert forall|x: Seq<char>| roots.drop_last().contains(x) implies roots.contains(x) by {
            let k = choose|k: int|
                0 <= k < roots.drop_last().len() && roots.drop_last()[k] == x;
            assert(roots[k] == x);
        }
        lemma_total_same(rest, list, roots.drop_last(), root);
    }
}

proof fn lemma_total_grows(
    rest: Seq<Entry>,
    list: Seq<Entry>,
    roots: Seq<Seq<char>>,
    k: int,
    root: Seq<char>,
)
    requires
        list.len() > 0,
        rest == list.drop_last(),
        list.last().root == Some(root),
        roots.no_duplicates(),
        0 <= k < roots.len(),
        roots[k] == root,
    ensures
        pane_total(list, roots) == pane_total(rest, roots) + 1,
    decreases roots.len(),
{
    if k == roots.len() - 1 {
        assert(!roots.drop_last().contains(root));
        lemma_total_same(rest, list, roots.drop_last(), root);
    } else {
        lemma_total_grows(rest, list, roots.drop_last(), k, root);
        assert(roots.last() != root);
    }
}

/// The entries that the panes of a listing give, with the roots of the repos they work in.
pub open spec fn entries(snap: Snapshot, order: Seq<usize>, roots: Seq<Option<String>>) -> Seq<
    Entry,
> {
    Seq::new(
        order.len(),
        |k: int|
            Entry {
                root: opt_view(roots[k]),
                pane: described(snap, snap.panes@[order[k] as int]),
            },
    )
}

/// Group the listed panes by the roots that were found for them.
pub fn group_found(snap: &Snapshot, order: &Vec<usize>, roots: &Vec<Option<String>>) -> (r:
    Topology)
    requires
        order@.len() == roots@.len(),
        forall|k: int| 0 <= k < order@.len() ==> (#[trigger] order@[k]) < snap.panes@.len(),
    ensures
        groups_of(entries(*snap, order@, roots@), r.repos@, r.non_repo_panes),
{
    let ghost all = entries(*snap, order@, roots@);
    let mut repos: Vec<(String, Vec<PaneRef>)> = Vec::new();
    let mut non_repo_panes: usize = 0;
    let mut i: usize = 0;
    while i < order.len()
        invariant
            i <= order@.len(),
            order@.len() == roots@.len(),
            all == entries(*snap, order@, roots@),
            forall|k: int| 0 <= k < order@.len() ==> (#[trigger] order@[k]) < snap.panes@.len(),
            non_repo_panes <= i,
            groups_of(all.take(i as int), repos@, non_repo_panes),
        decreases order.len() - i,
    {
        let ghost seen = all.take(i as int);
        let ghost next = all.take(i + 1);
        proof {
            assert(next.drop_last() =~= seen);
            assert(next.last() == all[i as int]);
            law_panes_are_partitioned(seen);
        }
        let p = &snap.panes[order[i]];
        match &roots[i] {
            None => {
                non_repo_panes += 1;
                assert(roots_of(next) =~= roots_of(seen));
            },
            Some(root) => {
                add_pane(&mut repos, root, pane_ref(snap, p), Ghost(seen), Ghost(next));
            },
        }
        i += 1;
    }
    assert(all.take(i as int) =~= all);
    Topology { repos, non_repo_panes }
}

/// Put one more pane under its repo.
fn add_pane(
    repos: &mut Vec<(String, Vec<PaneRef>)>,
    root: &String,
    pane: PaneRef,
    Ghost(seen): Ghost<Seq<Entry>>,
    Ghost(next): Ghost<Seq<Entry>>,
)
    requires
        groups_of(seen, old(repos)@, outside(seen) as usize),
        next.len() > 0,
        next.drop_last() == seen,
        next.last() == (Entry { root: Some(root@), pane: pane@ }),
        outside(seen) <= usize::MAX,
    ensures
        groups_of(next, final(repos)@, outside(seen) as usize),
{
    let ghost before_repos = repos@;
    let ghost rs = roots_of(seen);
    proof {
        law_panes_are_partitioned(seen);
    }
    let mut k: usize = 0;
    while k < repos.len()
        invariant
            k <= repos@.len(),
            repos@ == before_repos,
            groups_of(seen, before_repos, outside(seen) as usize),
            rs == roots_of(seen),
            forall|j: int| 0 <= j < k ==> rs[j] != root@,
            rs.no_duplicates(),
            next.len() > 0,
            next.drop_last() == seen,
            next.last() == (Entry { root: Some(root@), pane: pane@ }),
            outside(seen) <= usize::MAX,
        decreases repos.len() - k,
    {
        if same_text(repos[k].0.as_str(), root.as_str()) {
            let ghost list0 = repos@[k as int].1@;
            assert(rs[k as int] == root@);
            assert(rs.contains(root@));
            assert(roots_of(next) == rs);
            let mut entry = repos.remove(k);
            entry.1.push(pane);
            let ghost list1 = entry.1@;
            repos.insert(k, entry);
            proof {
                assert(pane_views(list1) =~= pane_views(list0).push(pane@));
                assert forall|i: int| 0 <= i < repos@.len() implies (#[trigger] repos@[i]).0@
                    == rs[i] && pane_views(repos@[i].1@) == panes_of(next, rs[i]) by {
                    if i != k {
                        assert(repos@[i] == before_repos[i]);
                        assert(rs[i] != root@);
                    }
                }
            }
            return ;
        }
        k += 1;
    }
    proof {
        if rs.contains(root@) {
            let j = choose|j: int| 0 <= j < rs.len() && rs[j] == root@;
            assert(rs[j] != root@);
        }
        assert(panes_of(seen, root@).len() == 0);
    }
    let mut list: Vec<PaneRef> = Vec::new();
    list.push(pane);
    assert(pane_views(list@) =~= panes_of(seen, root@).push(pane@));
    repos.push((root.clone(), list));
    proof {
        let nr = roots_of(next);
        assert(nr == rs.push(root@));
        assert forall|i: int| 0 <= i < repos@.len() implies (#[trigger] repos@[i]).0@ == nr[i]
            && pane_views(repos@[i].1@) == panes_of(next, nr[i]) by {
            if i < rs.len() {
                assert(repos@[i] == before_repos[i]);
                assert(rs[i] != root@);
            }
        }
    }
}

/// `root` may be the root of the repo that a pane works in: what `resolve` says of its
/// directory.
pub open spec fn resolved<F: Fn(&str) -> Option<String>>(
    resolve: F,
    p: Pane,
    root: Option<String>,
) -> bool {
    match p.dir() {
        Some(d) => exists|s: &str| s@ == d && #[trigger] call_ensures(resolve, (s,), root),
        None => root is None,
    }
}

/// `r` may be the grouping of a session.
pub open spec fn grouped<F: Fn(&str) -> Option<String>>(
    snap: Snapshot,
    target: Target,
    own_pane: Option<Seq<char>>,
    resolve: F,
    r: Topology,
) -> bool {
    exists|order: Seq<usize>, roots: Seq<Option<String>>|
        {
            &&& #[trigger] listing(snap, target, own_pane, order)
            &&& order.len() == roots.len()
            &&& forall|k: int|
                0 <= k < order.len() ==> resolved(
                    resolve,
                    snap.panes@[order[k] as int],
                    #[trigger] roots[k],
                )
            &&& groups_of(#[trigger] entries(snap, order, roots), r.repos@, r.non_repo_panes)
        }
}

/// Each root comes from a listed pane.
pub(crate) proof fn lemma_roots_come_from_panes(list: Seq<Entry>, i: int)
    requires
        0 <= i < roots_of(list).len(),
    ensures
        exists|k: int| 0 <= k < list.len() && (#[trigger] list[k]).root == Some(roots_of(list)[i]),
    decreases list.len(),
{
    let rest = list.drop_last();
    if i < roots_of(rest).len() {
        lemma_roots_come_from_panes(rest, i);
        let k = choose|k: int|
            0 <= k < rest.len() && (#[trigger] rest[k]).root == Some(roots_of(rest)[i]);
        assert(list[k] == rest[k]);
    } else {
        assert(list[list.len() - 1].root == Some(roots_of(list)[i]));
    }
}

/// Group panes by repo root. `resolve` maps a directory to its repo root (cached by caller).
/// Only panes in scope are grouped, and never the viewer's own.
pub fn group_panes<F: Fn(&str) -> Option<String>>(
    snap: &Snapshot,
    target: &Target,
    own_pane: &Option<String>,
    resolve: &F,
) -> (r: Topology)
    requires
        forall|d: &str| call_requires(*resolve, (d,)),
    ensures
        grouped(*snap, *target, opt_view(*own_pane), *resolve, r),
{
    let order = listing_of(snap, target, own_pane);
    let mut roots: Vec<Option<String>> = Vec::new();
    let mut i: usize = 0;
    while i < order.len()
        invariant
            i <= order@.len(),
            roots@.len() == i,
            forall|d: &str| call_requires(*resolve, (d,)),
            listing(*snap, *target, opt_view(*own_pane), order@),
            forall|k: int|
                0 <= k < i ==> resolved(
                    *resolve,
                    snap.panes@[order@[k] as int],
                    #[trigger] roots@[k],
                ),
        decreases order.len() - i,
    {
        let p = &snap.panes[order[i]];
        let root = match p.work_dir() {
            Some(d) => resolve(d),
            None => None,
        };
        assert(resolved(*resolve, *p, root));
        roots.push(root);
        i += 1;
    }
    let r = group_found(snap, &order, &roots);
    assert(groups_of(entries(*snap, order@, roots@), r.repos@, r.non_repo_panes));
    r
}

/// What a repo is called: the name of its directory.
pub open spec fn name_of(root: Seq<char>) -> Seq<char> {
    match file_name(root) {
        Some(n) => n,
        None => root,
    }
}

pub fn repo_name(root: &str) -> (r: String)
    ensures
        r@ == name_of(root@),
{
    match file_name_of(root) {
        Some(n) => n,
        None => root.to_owned(),
    }
}

} // verus!
