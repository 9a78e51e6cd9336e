//! What holds of what the background threads do.

use vstd::prelude::*;
use vstd::string::*;

use crate::diff::{line_views, parsed};
use crate::git::{FileChange, GitError, Mode, Output, RepoStats};
use crate::git_run::diff_found;
use crate::highlight::{highlight_views, highlighted, Highlighter};
use crate::herdr::Snapshot;
use crate::model::{grouped, name_of, pane_views, PaneView, Topology};
use crate::text::has;
use crate::worker::{
    came, coalesce, event_changes_panes, event_is_focus, finish_refresh, found_by, git_writes,
    last_diff, last_refresh, load_diff, looked_up, planned, repo_views, resubscribe_pause,
    with_roots, Batch, DiffResult, Job, Plan, Refreshed, RootCache, StatsReply,
};

verus! {

// ---------------------------------------------------------------------------------------
// Queued jobs

proof fn lemma_last_refresh(jobs: Seq<Job>, k: int)
    requires
        -1 <= k < jobs.len(),
        k >= 0 ==> jobs[k] is Refresh,
        forall|j: int| k < j < jobs.len() ==> !((#[trigger] jobs[j]) is Refresh),
    ensures
        k >= 0 ==> last_refresh(jobs) == Some((jobs[k]->Refresh_mode, jobs[k]->scope)),
        k < 0 ==> last_refresh(jobs) is None,
    decreases jobs.len(),
{
    if jobs.len() > 0 && k < jobs.len() - 1 {
        assert(!(jobs[jobs.len() - 1] is Refresh));
        lemma_last_refresh(jobs.drop_last(), k);
    }
}

proof fn lemma_last_diff(jobs: Seq<Job>, k: int)
    requires
        -1 <= k < jobs.len(),
        k >= 0 ==> jobs[k] is Diff,
        forall|j: int| k < j < jobs.len() ==> !((#[trigger] jobs[j]) is Diff),
    ensures
        k >= 0 ==> last_diff(jobs) == Some(jobs[k]),
        k < 0 ==> last_diff(jobs) is None,
    decreases jobs.len(),
{
    if jobs.len() > 0 && k < jobs.len() - 1 {
        assert(!(jobs[jobs.len() - 1] is Diff));
        lemma_last_diff(jobs.drop_last(), k);
    }
}

proof fn lemma_git_writes(jobs: Seq<Job>)
    ensures
        git_writes(jobs) == jobs.filter(|j: Job| j is Git),
    decreases jobs.len(),
{
    reveal(Seq::filter);
    if jobs.len() > 0 {
        lemma_git_writes(jobs.drop_last());
    } else {
        assert(git_writes(jobs) =~= jobs.filter(|j: Job| j is Git));
    }
}

/// Of several refreshes that wait only the last one is done, and of several diffs too; every
/// write is done, in their order. The focus is looked at by itself only where no refresh waits,
/// as a refresh does so anyway. `r` and `d` are the places of the last refresh and the last
/// diff; -1 where there is none.
pub proof fn law_last_requests_win(jobs: Vec<Job>, b: Batch, r: int, d: int)
    requires
        call_ensures(coalesce, (jobs,), b),
        -1 <= r < jobs@.len(),
        r >= 0 ==> jobs@[r] is Refresh,
        forall|j: int| r < j < jobs@.len() ==> !((#[trigger] jobs@[j]) is Refresh),
        -1 <= d < jobs@.len(),
        d >= 0 ==> jobs@[d] is Diff,
        forall|j: int| d < j < jobs@.len() ==> !((#[trigger] jobs@[j]) is Diff),
    ensures
        r < 0 ==> b.refresh is None,
        r >= 0 ==> b.refresh == Some((jobs@[r]->Refresh_mode, jobs@[r]->scope)),
        d < 0 ==> b.diff is None,
        d >= 0 ==> b.diff == Some(jobs@[d]),
        b.writes@ == jobs@.filter(|j: Job| j is Git),
        b.observe <==> r < 0 && exists|i: int|
            0 <= i < jobs@.len() && (#[trigger] jobs@[i]) is ObserveFocus,
{
    lemma_last_refresh(jobs@, r);
    lemma_last_diff(jobs@, d);
    lemma_git_writes(jobs@);
}

// ---------------------------------------------------------------------------------------
// Roots of directories

/// What was found for a directory counts for thirty seconds, given in nanoseconds.
pub proof fn law_found_roots_count_for_a_while(c: RootCache, dir: Seq<char>, now: u64)
    ensures
        !c.map@.contains_key(dir) ==> c.fresh(dir, now) is None,
        c.map@.contains_key(dir) && now < c.map@[dir].1 + 30_000_000_000 ==> c.fresh(dir, now)
            == Some(c.map@[dir].0),
        c.map@.contains_key(dir) && now >= c.map@[dir].1 + 30_000_000_000 ==> c.fresh(dir, now)
            is None,
{
}

/// What is looked up is kept for its directory and changes nothing for the others: within
/// thirty seconds it is found again.
pub proof fn law_looked_up_roots_are_kept<C: Fn() -> u64, L: Fn(&str) -> Option<String>>(
    old: RootCache,
    dir: Seq<char>,
    clock: C,
    lookup: L,
    new: RootCache,
    r: Option<String>,
    other: Seq<char>,
    t: u64,
    now: u64,
)
    requires
        looked_up(old, dir, clock, lookup, new, r),
        forall|at: u64| #[trigger] call_ensures(clock, (), at) ==> at == t,
        now < t + 30_000_000_000,
    ensures
        new.fresh(dir, now) == Some(r),
        other != dir ==> new.fresh(other, now) == old.fresh(other, now),
        exists|d: &str| d@ == dir && #[trigger] call_ensures(lookup, (d,), r),
{
    assert(found_by(lookup, dir, r));
}

// ---------------------------------------------------------------------------------------
// Refreshing

/// The repos that are asked for come behind those that panes work in, each once and without
/// panes; a directory outside every repo adds none.
pub proof fn law_asked_for_repos_come_last(
    repos: Seq<(Seq<char>, Seq<PaneView>)>,
    roots: Seq<Option<Seq<char>>>,
    root: Seq<char>,
)
    ensures
        with_roots(repos, Seq::empty()) == repos,
        with_roots(repos, roots.push(None)) == with_roots(repos, roots),
        (exists|i: int|
            0 <= i < with_roots(repos, roots).len() && (#[trigger] with_roots(repos, roots)[i]).0
                == root) ==> with_roots(repos, roots.push(Some(root))) == with_roots(repos, roots),
        !(exists|i: int|
            0 <= i < with_roots(repos, roots).len() && (#[trigger] with_roots(repos, roots)[i]).0
                == root) ==> with_roots(repos, roots.push(Some(root))) == with_roots(
            repos,
            roots,
        ).push((root, Seq::<PaneView>::empty())),
{
    assert(roots.push(None).drop_last() =~= roots);
    assert(roots.push(Some(root)).drop_last() =~= roots);
}

/// How many of these replies came.
pub open spec fn reply_count(stats: Seq<StatsReply>) -> nat {
    stats.filter(|s: StatsReply| s is Some).len()
}

proof fn lemma_came(stats: Seq<StatsReply>, k: int)
    ensures
        came(stats).len() == reply_count(stats),
        0 <= k < stats.len() && stats[k] is Some ==> {
            let i = reply_count(stats.take(k)) as int;
            0 <= i < came(stats).len() && came(stats)[i] == k
        },
    decreases stats.len(),
{
    reveal(Seq::filter);
    if stats.len() > 0 {
        let rest = stats.drop_last();
        if k == stats.len() - 1 {
            lemma_came(rest, 0);
            assert(stats.take(k) =~= rest);
        } else {
            lemma_came(rest, k);
            if 0 <= k < rest.len() {
                assert(stats.take(k) =~= rest.take(k));
            }
        }
    }
}

/// A refresh lists the repos that replies came for, in their order, each with its panes and its
/// stats, or the whole error. Nothing else of what was planned changes.
pub proof fn law_refreshes_list_what_came(
    mode: Mode,
    plan: Plan,
    stats: Vec<StatsReply>,
    r: Refreshed,
    k: int,
)
    requires
        call_ensures(finish_refresh, (mode, plan, stats), r),
        stats@.len() == plan.repos@.len(),
    ensures
        r.mode == mode,
        r.target == plan.target,
        r.non_repo_panes == plan.non_repo_panes,
        r.herdr_error == plan.herdr_error,
        r.groups@.len() == reply_count(stats@),
        0 <= k < stats@.len() && stats@[k] is Some ==> {
            let i = reply_count(stats@.take(k)) as int;
            let g = r.groups@[i];
            &&& 0 <= i < r.groups@.len()
            &&& g.root@ == plan.repos@[k].0@
            &&& g.name@ == name_of(plan.repos@[k].0@)
            &&& g.panes == plan.repos@[k].1
            &&& match stats@[k]->0 {
                Ok(s) => g.stats == Ok::<RepoStats, String>(s),
                Err(GitError::Failed(e)) => g.stats matches Err(msg) && msg@ == e@,
                Err(GitError::Spawn { command, cause }) => g.stats matches Err(msg) && msg@
                    == "spawn git "@ + command@ + ": "@ + cause@,
            }
        },
{
    lemma_came(stats@, k);
}

// ---------------------------------------------------------------------------------------
// Diffs

/// A diff that was loaded is that of the file asked for, read line by line and highlighted by
/// the file's path; where git failed, it is what happened, without its cause.
pub proof fn law_loaded_diffs_are_those_of_the_file<
    F: Fn(&Vec<String>) -> Result<Output, String>,
>(
    git: F,
    root: String,
    mode: Mode,
    file: FileChange,
    h: Option<Highlighter>,
    r: DiffResult,
) -> (t: Result<String, GitError>)
    requires
        call_ensures(load_diff::<F>, (&git, root, mode, file, &h), r),
        forall|a: Vec<String>| call_requires(git, (&a,)),
    ensures
        r.root@ == root@,
        r.mode == mode,
        r.path@ == file.path@,
        diff_found(git, mode, file, t),
        t matches Ok(text) ==> (r.lines matches Ok(l) && line_views(l@) == parsed(text@)),
        t matches Err(GitError::Failed(e)) ==> (r.lines matches Err(msg) && msg@ == e@),
        t matches Err(GitError::Spawn { command, .. }) ==> (r.lines matches Err(msg) && msg@
            == "spawn git "@ + command@),
        h is Some && r.lines is Ok ==> highlight_views(r.highlights@) == highlighted(
            h->0,
            file.path@,
            r.lines->Ok_0@,
        ),
        h is None || r.lines is Err ==> r.highlights@.len() == 0,
{
    choose|t: Result<String, GitError>|
        #[trigger] diff_found(git, mode, file, t) && crate::worker::lines_read(t, r.lines)
}

// ---------------------------------------------------------------------------------------
// Events

/// Which events say that the focus moved, and which that the set of panes changed.
pub proof fn law_events_are_told_by_their_type(raw: &str, focus: bool, panes: bool)
    requires
        call_ensures(event_is_focus, (raw,), focus),
        call_ensures(event_changes_panes, (raw,), panes),
    ensures
        focus <==> {
            ||| has(raw@, "workspace.focused"@)
            ||| has(raw@, "tab.focused"@)
            ||| has(raw@, "pane.focused"@)
        },
        panes <==> {
            ||| has(raw@, "pane.created"@)
            ||| has(raw@, "pane.closed"@)
            ||| has(raw@, "pane.moved"@)
            ||| has(raw@, "workspace.closed"@)
        },
{
}

/// A subscription that failed is tried again after two seconds, one that ended after a tenth of
/// one.
pub proof fn law_failed_subscriptions_wait_longer(failed: bool, r: u64)
    requires
        call_ensures(resubscribe_pause, (failed,), r),
    ensures
        failed ==> r == 2000,
        !failed ==> r == 100,
{
}

/// A plan starts with the repos that panes of the session work in, each with its panes, and
/// counts the panes outside.
pub proof fn law_plans_start_with_the_session<F: Fn(&str) -> Option<String>>(
    snap: Snapshot,
    dirs: Seq<Seq<char>>,
    own: Option<Seq<char>>,
    resolve: F,
    r: Plan,
) -> (topo: Topology)
    requires
        planned(snap, dirs, own, resolve, r),
    ensures
        grouped(snap, r.target, own, resolve, topo),
        r.non_repo_panes == topo.non_repo_panes,
        r.repos@.len() >= topo.repos@.len(),
        forall|k: int|
            0 <= k < topo.repos@.len() ==> {
                &&& (#[trigger] r.repos@[k]).0@ == topo.repos@[k].0@
                &&& pane_views(r.repos@[k].1@) == pane_views(topo.repos@[k].1@)
            },
{
    let (topo, roots) = choose|topo: Topology, roots: Seq<Option<Seq<char>>>|
        {
            &&& #[trigger] grouped(snap, r.target, own, resolve, topo)
            &&& #[trigger] crate::worker::all_resolved(resolve, dirs, roots)
            &&& repo_views(r.repos@) == with_roots(repo_views(topo.repos@), roots)
            &&& r.non_repo_panes == topo.non_repo_panes
        };
    let head = repo_views(topo.repos@);
    let all = repo_views(r.repos@);
    lemma_roots_behind(head, roots);
    assert forall|k: int| 0 <= k < topo.repos@.len() implies {
        &&& (#[trigger] r.repos@[k]).0@ == topo.repos@[k].0@
        &&& pane_views(r.repos@[k].1@) == pane_views(topo.repos@[k].1@)
    } by {
        assert(all[k] == head[k]);
    }
    topo
}

proof fn lemma_roots_behind(
    repos: Seq<(Seq<char>, Seq<PaneView>)>,
    roots: Seq<Option<Seq<char>>>,
)
    ensures
        with_roots(repos, roots).len() >= repos.len(),
        forall|k: int| 0 <= k < repos.len() ==> #[trigger] with_roots(repos, roots)[k] == repos[k],
    decreases roots.len(),
{
    if roots.len() > 0 {
        lemma_roots_behind(repos, roots.drop_last());
    }
}

} // verus!
