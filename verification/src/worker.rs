//! What the background threads are asked, how they go about it and what they answer.

use vstd::hash_map::StringHashMap;
use vstd::prelude::*;
use vstd::string::*;

use crate::diff::{
    law_diff_lines_hold_no_newline, line_views, parse_unified, parsed, DiffLine,
};
use crate::git::{FileChange, GitError, GitOp, Mode, Output, RepoStats};
use crate::git_run::{diff_found, file_diff};
use crate::herdr::Snapshot;
use crate::highlight::{
    highlight_views, highlighted, keeps_text, starts_line, Highlighter, Highlights,
};
use crate::model::{
    entries, group_panes, grouped, groups_of, law_panes_are_partitioned,
    lemma_roots_come_from_panes, listing, name_of, pane_views, panes_of, repo_name, resolved,
    roots_of, shown, PaneRef, PaneView, RepoGroup, Topology,
};
use crate::scope::{resolved_to, Resolver, Scope, SelfPane, Target};
use crate::text::{contains, has, opt_clone, opt_view, same_text, views};

verus! {

pub enum Job {
    Refresh { mode: Mode, scope: Scope },
    Diff { root: String, mode: Mode, file: FileChange },
    /// Record herdr focus without touching git (focus moved while the scope isn't follow).
    ObserveFocus,
    /// Run a git write in a repo.
    Git { root: String, op: GitOp },
}

pub struct Refreshed {
    pub mode: Mode,
    pub target: Target,
    pub groups: Vec<RepoGroup>,
    pub non_repo_panes: usize,
    pub herdr_error: Option<String>,
}

pub struct DiffResult {
    pub root: String,
    pub mode: Mode,
    pub path: String,
    pub lines: Result<Vec<DiffLine>, String>,
    /// Parallel to `lines`; empty when highlighting is off or the diff failed.
    pub highlights: Highlights,
}

/// What came of a git write: a summary, or what git said.
pub struct GitDone {
    pub root: String,
    pub op: GitOp,
    pub result: Result<String, String>,
}

pub enum AppEvent {
    Refreshed(Refreshed),
    Diff(DiffResult),
    GitDone(GitDone),
    /// herdr reported a change. `focus` = only focus moved (matters for `Scope::Follow`).
    HerdrChanged { focus: bool },
    Tick,
}

// ---------------------------------------------------------------------------------------
// Queued jobs

/// What is left to do of the jobs in the queue: a burst of events turns into one refresh, and
/// only the latest diff is wanted. Git writes are all done, in their order.
pub struct Batch {
    pub refresh: Option<(Mode, Scope)>,
    pub diff: Option<Job>,
    pub observe: bool,
    pub writes: Vec<Job>,
}

/// The latest refresh that was asked for.
pub open spec fn last_refresh(jobs: Seq<Job>) -> Option<(Mode, Scope)>
    decreases jobs.len(),
{
    if jobs.len() == 0 {
        None
    } else {
        match jobs.last() {
            Job::Refresh { mode, scope } => Some((mode, scope)),
            _ => last_refresh(jobs.drop_last()),
        }
    }
}

/// The latest diff that was asked for.
pub open spec fn last_diff(jobs: Seq<Job>) -> Option<Job>
    decreases jobs.len(),
{
    if jobs.len() == 0 {
        None
    } else if jobs.last() is Diff {
        Some(jobs.last())
    } else {
        last_diff(jobs.drop_last())
    }
}

/// The git writes that were asked for.
pub open spec fn git_writes(jobs: Seq<Job>) -> Seq<Job>
    decreases jobs.len(),
{
    if jobs.len() == 0 {
        Seq::empty()
    } else if jobs.last() is Git {
        git_writes(jobs.drop_last()).push(jobs.last())
    } else {
        git_writes(jobs.drop_last())
    }
}

/// The focus is to be recorded by itself: that was asked for, and no refresh does it anyway.
pub open spec fn to_observe(jobs: Seq<Job>) -> bool {
    last_refresh(jobs) is None && exists|i: int|
        0 <= i < jobs.len() && (#[trigger] jobs[i]) is ObserveFocus
}

/// Merge the jobs that are queued.
pub fn coalesce(jobs: Vec<Job>) -> (r: Batch)
    ensures
        r.refresh == last_refresh(jobs@),
        r.diff == last_diff(jobs@),
        r.writes@ == git_writes(jobs@),
        r.observe == to_observe(jobs@),
{
    let mut refresh: Option<(Mode, Scope)> = None;
    let mut diff: Option<Job> = None;
    let mut observe = false;
    let mut writes: Vec<Job> = Vec::new();
    let ghost all = jobs@;
    for job in it: jobs
        invariant
            it.seq() == all,
            refresh == last_refresh(all.take(it.index())),
            diff == last_diff(all.take(it.index())),
            writes@ == git_writes(all.take(it.index())),
            observe == exists|i: int|
                0 <= i < it.index() && (#[trigger] all[i]) is ObserveFocus,
    {
        let ghost n = it.index();
        assert(all.take(n + 1).drop_last() =~= all.take(n));
        assert(all.take(n + 1).last() == job);
        assert(all[n] == job);
        match job {
            Job::Refresh { mode, scope } => {
                refresh = Some((mode, scope));
            },
            Job::Diff { root, mode, file } => {
                diff = Some(Job::Diff { root, mode, file });
            },
            Job::ObserveFocus => {
                observe = true;
            },
            Job::Git { root, op } => {
                writes.push(Job::Git { root, op });
            },
        }
    }
    assert(all.take(all.len() as int) =~= all);
    // A refresh observes focus itself.
    let observe_only = observe && refresh.is_none();
    Batch { refresh, diff, observe: observe_only, writes }
}

// ---------------------------------------------------------------------------------------
// Refreshing

/// Nanoseconds that a directory's repo root is remembered for.
pub const ROOT_TTL: u64 = 30_000_000_000;

/// Cache of directory -> repo root lookups (roots rarely change), each with the time it was
/// made at.
pub struct RootCache {
    pub map: StringHashMap<(Option<String>, u64)>,
}

impl RootCache {
    pub fn new() -> (r: Self)
        ensures
            r.map@ == Map::<Seq<char>, (Option<String>, u64)>::empty(),
    {
        RootCache { map: StringHashMap::new() }
    }

    /// The root that is remembered for `dir` and not too old at `now`.
    pub open spec fn fresh(self, dir: Seq<char>, now: u64) -> Option<Option<String>> {
        if self.map@.contains_key(dir) && now - self.map@[dir].1 < ROOT_TTL {
            Some(self.map@[dir].0)
        } else {
            None
        }
    }

    /// Root of the repo that `dir` is in. `clock` tells the time in nanoseconds, `lookup` asks
    /// git.
    pub fn resolve<C: Fn() -> u64, L: Fn(&str) -> Option<String>>(
        &mut self,
        dir: &str,
        clock: &C,
        lookup: &L,
    ) -> (r: Option<String>)
        requires
            call_requires(*clock, ()),
            forall|d: &str| call_requires(*lookup, (d,)),
        ensures
            exists|now: u64| #[trigger]
                call_ensures(*clock, (), now) && match old(self).fresh(dir@, now) {
                    Some(root) => r == root && *final(self) == *old(self),
                    None => looked_up(*old(self), dir@, *clock, *lookup, *final(self), r),
                },
    {
        let t: u64 = clock();
        assert(call_ensures(*clock, (), t));
        if let Some(entry) = self.map.get(dir) {
            let young = t < entry.1 || t - entry.1 < ROOT_TTL;
            if young {
                return opt_clone(&entry.0);
            }
        }
        let root = lookup(dir);
        let at: u64 = clock();
        let kept = opt_clone(&root);
        self.map.insert(dir.to_owned(), (kept, at));
        assert(found_by(*lookup, dir@, root));
        assert(looked_up(*old(self), dir@, *clock, *lookup, *self, root));
        root
    }
}

/// `root` may be what `lookup` says of `dir`.
pub open spec fn found_by<L: Fn(&str) -> Option<String>>(
    lookup: L,
    dir: Seq<char>,
    root: Option<String>,
) -> bool {
    exists|d: &str| d@ == dir && #[trigger] call_ensures(lookup, (d,), root)
}

/// `new` is `old` with the root that was looked up for `dir`, from the time after the lookup.
pub open spec fn looked_up<C: Fn() -> u64, L: Fn(&str) -> Option<String>>(
    old: RootCache,
    dir: Seq<char>,
    clock: C,
    lookup: L,
    new: RootCache,
    r: Option<String>,
) -> bool {
    &&& found_by(lookup, dir, r)
    &&& exists|at: u64|
        #[trigger] call_ensures(clock, (), at) && new.map@ == old.map@.insert(dir, (r, at))
}

/// The repos of a topology by root and panes, as values.
pub open spec fn repo_views(v: Seq<(String, Vec<PaneRef>)>) -> Seq<(Seq<char>, Seq<PaneView>)> {
    v.map_values(|p: (String, Vec<PaneRef>)| (p.0@, pane_views(p.1@)))
}

/// Some repo of the list is at `root`.
pub open spec fn has_root(repos: Seq<(Seq<char>, Seq<PaneView>)>, root: Seq<char>) -> bool {
    exists|i: int| 0 <= i < repos.len() && (#[trigger] repos[i]).0 == root
}

/// `repos` with the roots that were found added behind, but for those it has.
pub open spec fn with_roots(
    repos: Seq<(Seq<char>, Seq<PaneView>)>,
    roots: Seq<Option<Seq<char>>>,
) -> Seq<(Seq<char>, Seq<PaneView>)>
    decreases roots.len(),
{
    if roots.len() == 0 {
        repos
    } else {
        let rest = with_roots(repos, roots.drop_last());
        match roots.last() {
            Some(root) => if has_root(rest, root) {
                rest
            } else {
                rest.push((root, Seq::empty()))
            },
            None => rest,
        }
    }
}

/// Adding roots keeps what is there, and each root that was found is listed.
proof fn lemma_found_roots_are_listed(
    repos: Seq<(Seq<char>, Seq<PaneView>)>,
    roots: Seq<Option<Seq<char>>>,
    k: int,
)
    requires
        0 <= k < roots.len(),
        roots[k] is Some,
    ensures
        has_root(with_roots(repos, roots), roots[k]->0),
        repos.is_prefix_of(with_roots(repos, roots)),
    decreases roots.len(),
{
    lemma_with_roots_keeps(repos, roots);
    let last = roots.last();
    let rest = with_roots(repos, roots.drop_last());
    let all = with_roots(repos, roots);
    if k < roots.len() - 1 {
        lemma_found_roots_are_listed(repos, roots.drop_last(), k);
        let i = choose|i: int| 0 <= i < rest.len() && (#[trigger] rest[i]).0 == roots[k]->0;
        assert(all[i].0 == roots[k]->0);
    } else if !has_root(rest, last->0) {
        assert(all[all.len() - 1].0 == last->0);
    }
}

proof fn lemma_with_roots_keeps(
    repos: Seq<(Seq<char>, Seq<PaneView>)>,
    roots: Seq<Option<Seq<char>>>,
)
    ensures
        repos.is_prefix_of(with_roots(repos, roots)),
    decreases roots.len(),
{
    if roots.len() > 0 {
        lemma_with_roots_keeps(repos, roots.drop_last());
    }
}

/// Whether some repo of the list is at `root`.
fn lists_root(repos: &Vec<(String, Vec<PaneRef>)>, root: &str) -> (r: bool)
    ensures
        r == has_root(repo_views(repos@), root@),
{
    let ghost all = repo_views(repos@);
    let mut i: usize = 0;
    while i < repos.len()
        invariant
            i <= repos.len(),
            all == repo_views(repos@),
            forall|j: int| 0 <= j < i ==> (#[trigger] all[j]).0 != root@,
        decreases repos.len() - i,
    {
        assert(all[i as int].0 == repos[i as int].0@);
        if same_text(repos[i].0.as_str(), root) {
            return true;
        }
        i += 1;
    }
    false
}

/// Each of `roots` may be what `resolve` says of the directory.
pub open spec fn all_resolved<F: Fn(&str) -> Option<String>>(
    resolve: F,
    dirs: Seq<Seq<char>>,
    roots: Seq<Option<Seq<char>>>,
) -> bool {
    &&& roots.len() == dirs.len()
    &&& forall|i: int| 0 <= i < dirs.len() ==> may_be_root(resolve, dirs[i], #[trigger] roots[i])
}

/// `root` may be what `resolve` says of `dir`.
pub open spec fn may_be_root<F: Fn(&str) -> Option<String>>(
    resolve: F,
    dir: Seq<char>,
    root: Option<Seq<char>>,
) -> bool {
    exists|s: Option<String>| #[trigger] found_by(resolve, dir, s) && opt_view(s) == root
}

/// What to show, before git is asked about the repos.
pub struct Plan {
    pub target: Target,
    pub repos: Vec<(String, Vec<PaneRef>)>,
    pub non_repo_panes: usize,
    pub herdr_error: Option<String>,
}

/// `r` may be the plan for a session `snap` and a target: the repos of the panes in scope, and
/// behind them those of the directories that are always shown.
pub open spec fn planned<F: Fn(&str) -> Option<String>>(
    snap: Snapshot,
    extra_dirs: Seq<Seq<char>>,
    own_pane: Option<Seq<char>>,
    resolve: F,
    r: Plan,
) -> bool {
    exists|topo: Topology, roots: Seq<Option<Seq<char>>>|
        {
            &&& #[trigger] grouped(snap, r.target, own_pane, resolve, topo)
            &&& #[trigger] all_resolved(resolve, extra_dirs, roots)
            &&& repo_views(r.repos@) == with_roots(repo_views(topo.repos@), roots)
            &&& r.non_repo_panes == topo.non_repo_panes
        }
}

/// Some pane that is shown may work in the repo at `root`.
pub open spec fn worked_in<F: Fn(&str) -> Option<String>>(
    snap: Snapshot,
    target: Target,
    own_pane: Option<Seq<char>>,
    resolve: F,
    root: Seq<char>,
) -> bool {
    exists|i: int, s: Option<String>|
        0 <= i < snap.panes@.len() && shown(target, own_pane, snap.panes@[i])
            && #[trigger] resolved(resolve, snap.panes@[i], s) && opt_view(s) == Some(root)
}

/// Some directory that is always shown may be in the repo at `root`.
pub open spec fn asked_for<F: Fn(&str) -> Option<String>>(
    dirs: Seq<Seq<char>>,
    resolve: F,
    root: Seq<char>,
) -> bool {
    exists|i: int| 0 <= i < dirs.len() && may_be_root(resolve, #[trigger] dirs[i], Some(root))
}

/// Git is only asked about repos in scope: a pane that is shown works in each, or it was asked
/// for by its directory.
pub proof fn law_only_repos_in_scope_are_planned<F: Fn(&str) -> Option<String>>(
    snap: Snapshot,
    extra_dirs: Seq<Seq<char>>,
    own_pane: Option<Seq<char>>,
    resolve: F,
    r: Plan,
    k: int,
)
    requires
        planned(snap, extra_dirs, own_pane, resolve, r),
        0 <= k < r.repos@.len(),
    ensures
        worked_in(snap, r.target, own_pane, resolve, r.repos@[k].0@) || asked_for(
            extra_dirs,
            resolve,
            r.repos@[k].0@,
        ),
{
    let (topo, roots) = choose|topo: Topology, roots: Seq<Option<Seq<char>>>|
        {
            &&& #[trigger] grouped(snap, r.target, own_pane, resolve, topo)
            &&& #[trigger] all_resolved(resolve, extra_dirs, roots)
            &&& repo_views(r.repos@) == with_roots(repo_views(topo.repos@), roots)
            &&& r.non_repo_panes == topo.non_repo_panes
        };
    let first = repo_views(topo.repos@);
    let root = r.repos@[k].0@;
    assert(repo_views(r.repos@)[k].0 == root);
    lemma_with_roots_keeps(first, roots);
    if k < first.len() {
        let all = with_roots(first, roots);
        assert(all.subrange(0, first.len() as int)[k] == all[k]);
        assert(first[k].0 == topo.repos@[k].0@);
        lemma_grouped_repo(snap, r.target, own_pane, resolve, topo, k);
    } else {
        lemma_added_root(first, roots, k);
        let i = choose|i: int| 0 <= i < roots.len() && #[trigger] roots[i] == Some(root);
        assert(may_be_root(resolve, extra_dirs[i], roots[i]));
    }
}

/// Whatever the scope, and whether herdr is reached or not, the repo of a directory that is
/// always shown is planned, once git finds one.
pub proof fn law_extra_repos_are_shown<F: Fn(&str) -> Option<String>>(
    snap: Snapshot,
    extra_dirs: Seq<Seq<char>>,
    own_pane: Option<Seq<char>>,
    resolve: F,
    r: Plan,
    k: int,
)
    requires
        planned(snap, extra_dirs, own_pane, resolve, r),
        0 <= k < extra_dirs.len(),
        !may_be_root(resolve, extra_dirs[k], None),
    ensures
        exists|root: Seq<char>|
            may_be_root(resolve, extra_dirs[k], Some(root)) && #[trigger] has_root(
                repo_views(r.repos@),
                root,
            ),
{
    let (topo, roots) = choose|topo: Topology, roots: Seq<Option<Seq<char>>>|
        {
            &&& #[trigger] grouped(snap, r.target, own_pane, resolve, topo)
            &&& #[trigger] all_resolved(resolve, extra_dirs, roots)
            &&& repo_views(r.repos@) == with_roots(repo_views(topo.repos@), roots)
            &&& r.non_repo_panes == topo.non_repo_panes
        };
    assert(may_be_root(resolve, extra_dirs[k], roots[k]));
    lemma_found_roots_are_listed(repo_views(topo.repos@), roots, k);
    assert(has_root(repo_views(r.repos@), roots[k]->0));
}

/// Each repo is planned once: those that panes work in come first, and those of the directories
/// that are always shown behind them, without a pane.
pub proof fn law_planned_repos_are_distinct<F: Fn(&str) -> Option<String>>(
    snap: Snapshot,
    extra_dirs: Seq<Seq<char>>,
    own_pane: Option<Seq<char>>,
    resolve: F,
    r: Plan,
)
    requires
        planned(snap, extra_dirs, own_pane, resolve, r),
    ensures
        distinct_roots(repo_views(r.repos@)),
        exists|n: int|
            #[trigger] splits_at(repo_views(r.repos@), n) && forall|k: int|
                0 <= k < n ==> worked_in(
                    snap,
                    r.target,
                    own_pane,
                    resolve,
                    (#[trigger] r.repos@[k]).0@,
                ),
{
    let (topo, roots) = choose|topo: Topology, roots: Seq<Option<Seq<char>>>|
        {
            &&& #[trigger] grouped(snap, r.target, own_pane, resolve, topo)
            &&& #[trigger] all_resolved(resolve, extra_dirs, roots)
            &&& repo_views(r.repos@) == with_roots(repo_views(topo.repos@), roots)
            &&& r.non_repo_panes == topo.non_repo_panes
        };
    let first = repo_views(topo.repos@);
    let n = first.len() as int;
    lemma_grouped_distinct(snap, r.target, own_pane, resolve, topo);
    lemma_with_roots_distinct(first, roots);
    lemma_with_roots_keeps(first, roots);
    let all = with_roots(first, roots);
    assert forall|k: int| 0 <= k < n implies #[trigger] all[k] == first[k] by {
        assert(all.subrange(0, n)[k] == all[k]);
    }
    assert(splits_at(all, n));
    assert forall|k: int| 0 <= k < n implies worked_in(
        snap,
        r.target,
        own_pane,
        resolve,
        (#[trigger] r.repos@[k]).0@,
    ) by {
        assert(all[k] == repo_views(r.repos@)[k]);
        assert(first[k].0 == topo.repos@[k].0@);
        lemma_grouped_repo(snap, r.target, own_pane, resolve, topo, k);
    }
}

/// No two repos of a list are at the same root.
pub open spec fn distinct_roots(repos: Seq<(Seq<char>, Seq<PaneView>)>) -> bool {
    forall|i: int, j: int|
        0 <= i < j < repos.len() ==> (#[trigger] repos[i]).0 != (#[trigger] repos[j]).0
}

/// The first `n` repos of a list have panes, and the others none.
pub open spec fn splits_at(repos: Seq<(Seq<char>, Seq<PaneView>)>, n: int) -> bool {
    &&& 0 <= n <= repos.len()
    &&& forall|k: int| 0 <= k < n ==> (#[trigger] repos[k]).1.len() > 0
    &&& forall|k: int| n <= k < repos.len() ==> (#[trigger] repos[k]).1.len() == 0
}

proof fn lemma_with_roots_distinct(
    repos: Seq<(Seq<char>, Seq<PaneView>)>,
    roots: Seq<Option<Seq<char>>>,
)
    requires
        distinct_roots(repos),
    ensures
        distinct_roots(with_roots(repos, roots)),
        repos.len() <= with_roots(repos, roots).len(),
        forall|k: int|
            repos.len() <= k < with_roots(repos, roots).len() ==> (#[trigger] with_roots(
                repos,
                roots,
            )[k]).1.len() == 0,
    decreases roots.len(),
{
    if roots.len() > 0 {
        lemma_with_roots_distinct(repos, roots.drop_last());
        let rest = with_roots(repos, roots.drop_last());
        let all = with_roots(repos, roots);
        assert forall|k: int| 0 <= k < rest.len() implies #[trigger] all[k] == rest[k] by {}
        assert forall|i: int, j: int| 0 <= i < j < all.len() implies (#[trigger] all[i]).0 != (
        #[trigger] all[j]).0 by {
            assert(all[i] == rest[i]);
            assert(rest[i].0 == all[i].0);
        }
    }
}

/// The repos of a grouping are at different roots, and each has a pane.
proof fn lemma_grouped_distinct<F: Fn(&str) -> Option<String>>(
    snap: Snapshot,
    target: Target,
    own_pane: Option<Seq<char>>,
    resolve: F,
    topo: Topology,
)
    requires
        grouped(snap, target, own_pane, resolve, topo),
    ensures
        distinct_roots(repo_views(topo.repos@)),
        forall|k: int|
            0 <= k < topo.repos@.len() ==> (#[trigger] repo_views(topo.repos@)[k]).1.len() > 0,
{
    let (order, found) = choose|order: Seq<usize>, found: Seq<Option<String>>|
        {
            &&& #[trigger] listing(snap, target, own_pane, order)
            &&& order.len() == found.len()
            &&& forall|i: int|
                0 <= i < order.len() ==> resolved(
                    resolve,
                    snap.panes@[order[i] as int],
                    #[trigger] found[i],
                )
            &&& groups_of(
                #[trigger] entries(snap, order, found),
                topo.repos@,
                topo.non_repo_panes,
            )
        };
    let list = entries(snap, order, found);
    let views = repo_views(topo.repos@);
    law_panes_are_partitioned(list);
    assert forall|k: int| 0 <= k < views.len() implies (#[trigger] views[k]).0 == roots_of(list)[k]
        && views[k].1.len() > 0 by {
        assert(views[k].0 == topo.repos@[k].0@);
        assert(panes_of(list, roots_of(list)[k]).len() > 0);
    }
}

/// A pane that is shown works in each repo of a grouping.
proof fn lemma_grouped_repo<F: Fn(&str) -> Option<String>>(
    snap: Snapshot,
    target: Target,
    own_pane: Option<Seq<char>>,
    resolve: F,
    topo: Topology,
    k: int,
)
    requires
        grouped(snap, target, own_pane, resolve, topo),
        0 <= k < topo.repos@.len(),
    ensures
        worked_in(snap, target, own_pane, resolve, topo.repos@[k].0@),
{
    let (order, found) = choose|order: Seq<usize>, found: Seq<Option<String>>|
        {
            &&& #[trigger] listing(snap, target, own_pane, order)
            &&& order.len() == found.len()
            &&& forall|i: int|
                0 <= i < order.len() ==> resolved(
                    resolve,
                    snap.panes@[order[i] as int],
                    #[trigger] found[i],
                )
            &&& groups_of(
                #[trigger] entries(snap, order, found),
                topo.repos@,
                topo.non_repo_panes,
            )
        };
    let list = entries(snap, order, found);
    let root = topo.repos@[k].0@;
    assert(root == roots_of(list)[k]);
    lemma_roots_come_from_panes(list, k);
    let i = choose|i: int| 0 <= i < list.len() && (#[trigger] list[i]).root == Some(root);
    assert(opt_view(found[i]) == Some(root));
    assert(resolved(resolve, snap.panes@[order[i] as int], found[i]));
}

/// A repo that was added behind those that were there is one of the roots.
proof fn lemma_added_root(
    repos: Seq<(Seq<char>, Seq<PaneView>)>,
    roots: Seq<Option<Seq<char>>>,
    k: int,
)
    requires
        repos.len() <= k < with_roots(repos, roots).len(),
    ensures
        exists|i: int|
            0 <= i < roots.len() && #[trigger] roots[i] == Some(with_roots(repos, roots)[k].0),
    decreases roots.len(),
{
    if roots.len() > 0 {
        let rest = with_roots(repos, roots.drop_last());
        if k < rest.len() {
            lemma_added_root(repos, roots.drop_last(), k);
            let i = choose|i: int|
                0 <= i < roots.drop_last().len() && #[trigger] roots.drop_last()[i] == Some(
                    rest[k].0,
                );
            assert(roots[i] == Some(rest[k].0));
        } else {
            assert(roots[roots.len() - 1] == Some(with_roots(repos, roots)[k].0));
        }
    }
}

/// An empty session.
pub open spec fn is_empty_session(s: Snapshot) -> bool {
    &&& s.focused_workspace_id is None
    &&& s.focused_pane_id is None
    &&& s.workspaces@.len() == 0
    &&& s.tabs@.len() == 0
    &&& s.panes@.len() == 0
}

/// Decide what a refresh shows. `snap` is the session, or why herdr could not be reached: then
/// only the directories that are always shown are left. `resolve` maps a directory to its repo
/// root.
pub fn plan_refresh<F: Fn(&str) -> Option<String>>(
    snap: Result<Snapshot, String>,
    extra_dirs: &[String],
    me: &SelfPane,
    resolver: &mut Resolver,
    scope: Scope,
    resolve: &F,
) -> (r: Plan)
    requires
        forall|d: &str| call_requires(*resolve, (d,)),
    ensures
        match snap {
            Ok(s) => {
                &&& resolved_to(*old(resolver), scope, Some(s), *me, *final(resolver), r.target)
                &&& planned(s, views(extra_dirs@), opt_view(me.pane_id), *resolve, r)
                &&& r.herdr_error is None
            },
            Err(e) => {
                &&& resolved_to(*old(resolver), scope, None, *me, *final(resolver), r.target)
                &&& exists|s: Snapshot|
                    #![trigger is_empty_session(s)]
                    is_empty_session(s) && planned(
                        s,
                        views(extra_dirs@),
                        opt_view(me.pane_id),
                        *resolve,
                        r,
                    )
                &&& r.herdr_error == Some(e)
            },
        },
{
    let (session, herdr_error, reached) = match snap {
        Ok(s) => (s, None, true),
        Err(e) => (Snapshot::default(), Some(e), false),
    };
    let target = if reached {
        resolver.resolve(scope, Some(&session), me)
    } else {
        resolver.resolve(scope, None, me)
    };
    let topo = group_panes(&session, &target, &me.pane_id, resolve);
    let ghost whole = topo;
    let ghost dirs = views(extra_dirs@);
    let Topology { mut repos, non_repo_panes } = topo;
    let ghost first = repo_views(repos@);
    let ghost mut roots: Seq<Option<Seq<char>>> = Seq::empty();
    // Repos passed with -d are always shown, whatever the scope.
    let mut i: usize = 0;
    while i < extra_dirs.len()
        invariant
            i <= extra_dirs.len(),
            dirs == views(extra_dirs@),
            forall|d: &str| call_requires(*resolve, (d,)),
            all_resolved(*resolve, dirs.take(i as int), roots),
            repo_views(repos@) == with_roots(first, roots),
        decreases extra_dirs.len() - i,
    {
        let found = resolve(extra_dirs[i].as_str());
        let ghost seen = roots;
        proof {
            assert(dirs[i as int] == extra_dirs[i as int]@);
            assert(found_by(*resolve, dirs[i as int], found));
            assert(may_be_root(*resolve, dirs[i as int], opt_view(found)));
            roots = roots.push(opt_view(found));
            assert(roots.drop_last() =~= seen);
            assert(all_resolved(*resolve, dirs.take(i + 1), roots)) by {
                assert forall|j: int| 0 <= j < i + 1 implies may_be_root(
                    *resolve,
                    dirs.take(i + 1)[j],
                    #[trigger] roots[j],
                ) by {
                    if j < i {
                        assert(roots[j] == seen[j]);
                        assert(dirs.take(i as int)[j] == dirs.take(i + 1)[j]);
                    }
                }
            }
        }
        if let Some(root) = found {
            if !lists_root(&repos, root.as_str()) {
                let ghost before = repo_views(repos@);
                let none: Vec<PaneRef> = Vec::new();
                assert(pane_views(none@) =~= Seq::<PaneView>::empty());
                repos.push((root, none));
                assert(repo_views(repos@) =~= before.push((root@, Seq::<PaneView>::empty())));
            }
        }
        i += 1;
    }
    assert(dirs.take(i as int) =~= dirs);
    let r = Plan { target, repos, non_repo_panes, herdr_error };
    proof {
        assert(grouped(session, r.target, opt_view(me.pane_id), *resolve, whole));
        assert(all_resolved(*resolve, dirs, roots));
        assert(planned(session, dirs, opt_view(me.pane_id), *resolve, r));
        if !reached {
            assert(is_empty_session(session));
        }
    }
    r
}

/// What git says of a repo; `None` where the thread that asked it died.
pub type StatsReply = Option<Result<RepoStats, GitError>>;

/// `g` is the repo at `root` with what git said of it.
pub open spec fn is_group(
    g: RepoGroup,
    root: String,
    panes: Vec<PaneRef>,
    stats: Result<RepoStats, GitError>,
) -> bool {
    &&& g.root == root
    &&& g.name@ == name_of(root@)
    &&& g.panes == panes
    &&& match stats {
        Ok(s) => g.stats == Ok::<RepoStats, String>(s),
        Err(e) => g.stats matches Err(msg) && msg@ == e.whole(),
    }
}

/// The indices of the replies that came.
pub open spec fn came(stats: Seq<StatsReply>) -> Seq<int>
    decreases stats.len(),
{
    if stats.len() == 0 {
        Seq::empty()
    } else if stats.last() is Some {
        came(stats.drop_last()).push(stats.len() - 1)
    } else {
        came(stats.drop_last())
    }
}

/// `groups` are the repos that git could be asked about, in their order, with what it said.
pub open spec fn groups_with_stats(
    groups: Seq<RepoGroup>,
    repos: Seq<(String, Vec<PaneRef>)>,
    stats: Seq<StatsReply>,
) -> bool {
    &&& groups.len() == came(stats).len()
    &&& forall|i: int|
        0 <= i < groups.len() ==> is_group(
            #[trigger] groups[i],
            repos[came(stats)[i]].0,
            repos[came(stats)[i]].1,
            stats[came(stats)[i]]->0,
        )
}

/// Put together what a refresh found: the plan, and what git said of each of its repos.
pub fn finish_refresh(mode: Mode, plan: Plan, stats: Vec<StatsReply>) -> (r: Refreshed)
    requires
        stats@.len() == plan.repos@.len(),
    ensures
        r.mode == mode,
        r.target == plan.target,
        r.non_repo_panes == plan.non_repo_panes,
        r.herdr_error == plan.herdr_error,
        groups_with_stats(r.groups@, plan.repos@, stats@),
{
    let Plan { target, repos, non_repo_panes, herdr_error } = plan;
    let ghost all = repos@;
    let ghost replies = stats@;
    let mut left: Vec<(String, Vec<PaneRef>)> = repos;
    let mut groups: Vec<RepoGroup> = Vec::new();
    for reply in it: stats
        invariant
            it.seq() == replies,
            all.len() == replies.len(),
            left@ == all.skip(it.index()),
            groups_with_stats(groups@, all, replies.take(it.index())),
            forall|i: int|
                0 <= i < came(replies.take(it.index())).len() ==> 0 <= (#[trigger] came(
                    replies.take(it.index()),
                )[i]) < it.index(),
    {
        let ghost n = it.index();
        let ghost seen = groups@;
        assert(replies.take(n + 1).drop_last() =~= replies.take(n));
        assert(replies.take(n + 1).last() == reply);
        let (root, panes) = left.remove(0);
        assert(left@ =~= all.skip(n + 1));
        assert(all[n] == (root, panes));
        if let Some(s) = reply {
            let name = repo_name(root.as_str());
            let g = RepoGroup {
                root,
                name,
                panes,
                stats: match s {
                    Ok(x) => Ok(x),
                    Err(e) => Err(e.full()),
                },
            };
            assert(is_group(g, root, panes, s));
            groups.push(g);
            assert forall|i: int| 0 <= i < groups@.len() implies is_group(
                #[trigger] groups@[i],
                all[came(replies.take(n + 1))[i]].0,
                all[came(replies.take(n + 1))[i]].1,
                replies.take(n + 1)[came(replies.take(n + 1))[i]]->0,
            ) by {
                if i < seen.len() {
                    assert(groups@[i] == seen[i]);
                    let k = came(replies.take(n))[i];
                    assert(replies.take(n)[k] == replies.take(n + 1)[k]);
                }
            }
        } else {
            assert forall|i: int| 0 <= i < groups@.len() implies is_group(
                #[trigger] groups@[i],
                all[came(replies.take(n + 1))[i]].0,
                all[came(replies.take(n + 1))[i]].1,
                replies.take(n + 1)[came(replies.take(n + 1))[i]]->0,
            ) by {
                let k = came(replies.take(n))[i];
                assert(replies.take(n)[k] == replies.take(n + 1)[k]);
            }
        }
    }
    assert(replies.take(replies.len() as int) =~= replies);
    Refreshed { mode, target, groups, non_repo_panes, herdr_error }
}

// ---------------------------------------------------------------------------------------
// Diffs

/// The lines of a diff that git may have printed, or what it said instead.
pub open spec fn lines_read(t: Result<String, GitError>, lines: Result<Vec<DiffLine>, String>) -> bool {
    match t {
        Ok(text) => lines matches Ok(l) && line_views(l@) == parsed(text@),
        Err(e) => lines matches Err(msg) && msg@ == e.summary(),
    }
}

/// Load the diff of a file, highlighted where there is a highlighter.
pub fn load_diff<F: Fn(&Vec<String>) -> Result<Output, String>>(
    git: &F,
    root: String,
    mode: Mode,
    file: FileChange,
    highlighter: &Option<Highlighter>,
) -> (r: DiffResult)
    requires
        forall|a: Vec<String>| call_requires(*git, (&a,)),
    ensures
        r.root == root,
        r.mode == mode,
        r.path == file.path,
        exists|t: Result<String, GitError>|
            #[trigger] diff_found(*git, mode, file, t) && lines_read(t, r.lines),
        match (*highlighter, r.lines) {
            (Some(h), Ok(l)) => highlight_views(r.highlights@) == highlighted(h, file.path@, l@),
            _ => r.highlights@.len() == 0,
        },
        r.lines matches Ok(l) ==> forall|i: int|
            0 <= i < r.highlights@.len() ==> starts_line(#[trigger] r.highlights@[i], l@[i].text@),
{
    let text = file_diff(git, mode, &file);
    assert(diff_found(*git, mode, file, text));
    let ghost answer = text;
    let lines: Result<Vec<DiffLine>, String> = match text {
        Ok(t) => Ok(parse_unified(t.as_str())),
        Err(e) => Err(e.message()),
    };
    assert(lines_read(answer, lines));
    let highlights = match (highlighter, &lines) {
        (Some(h), Ok(l)) => h.highlight(file.path.as_str(), l.as_slice()),
        _ => Vec::new(),
    };
    proof {
        if lines is Ok {
            let l = lines->Ok_0;
            let input = answer->Ok_0@;
            assert forall|i: int| 0 <= i < highlights@.len() implies starts_line(
                #[trigger] highlights@[i],
                l@[i].text@,
            ) by {
                assert(highlights@.len() == highlight_views(highlights@).len());
                assert(l@.len() == line_views(l@).len());
                assert(line_views(l@)[i] == l@[i]@);
                law_diff_lines_hold_no_newline(input, i);
                assert(keeps_text(highlights@[i], l@[i].text@));
            }
        }
    }
    DiffResult { root, mode, path: file.path, lines, highlights }
}

// ---------------------------------------------------------------------------------------
// herdr events

/// Only the focus moved.
pub open spec fn is_focus_event(raw: Seq<char>) -> bool {
    has(raw, "workspace.focused"@) || has(raw, "tab.focused"@) || has(raw, "pane.focused"@)
}

/// Whether an event is about the focus. Matches loosely: event envelopes differ between event
/// kinds.
pub fn event_is_focus(raw: &str) -> (r: bool)
    ensures
        r == is_focus_event(raw@),
{
    contains(raw, "workspace.focused") || contains(raw, "tab.focused") || contains(
        raw,
        "pane.focused",
    )
}

/// The set of panes changed.
pub open spec fn is_pane_set_event(raw: Seq<char>) -> bool {
    has(raw, "pane.created"@) || has(raw, "pane.closed"@) || has(raw, "pane.moved"@) || has(
        raw,
        "workspace.closed"@,
    )
}

/// Whether the set of panes changed, so that the subscriptions per pane have to be made anew.
pub fn event_changes_panes(raw: &str) -> (r: bool)
    ensures
        r == is_pane_set_event(raw@),
{
    contains(raw, "pane.created") || contains(raw, "pane.closed") || contains(raw, "pane.moved")
        || contains(raw, "workspace.closed")
}

/// Milliseconds to wait before subscribing again: longer where herdr could not be reached.
pub fn resubscribe_pause(failed: bool) -> (r: u64)
    ensures
        r == (if failed { 2000u64 } else { 100u64 }),
{
    if failed {
        2000
    } else {
        100
    }
}

} // verus!
