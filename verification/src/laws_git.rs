//! What holds of what git is asked and of what its answers add up to.

use vstd::prelude::*;
use vstd::string::*;

use crate::git::{added_lines, removed_lines, ChangeView, FileChange, Status};
use crate::git_output::{
    counted, initial, line_total, listed, lists, lossy_text, name_statuses, newlines, numstat,
    numstats, records, staged_entries, state, states, tabulates, with_state, with_states,
    with_untracked, Table,
};
use crate::laws_text::law_numbers_read_back;
use crate::text::{decimal, first, lemma_first};

verus! {

// ---------------------------------------------------------------------------------------
// The file list

proof fn lemma_listed_at(ns: Seq<(Status, Seq<char>)>, p: Seq<char>)
    ensures
        listed(ns).contains_key(p) <==> exists|j: int| 0 <= j < ns.len() && (#[trigger] ns[j]).1 == p,
        listed(ns).contains_key(p) ==> {
            let e = listed(ns)[p];
            e.path == p && e.added == Some(0u32) && e.removed == Some(0u32) && e.index == ' '
                && e.worktree == ' '
        },
    decreases ns.len(),
{
    if ns.len() > 0 {
        let head = ns.drop_last();
        lemma_listed_at(head, p);
        if ns.last().1 == p {
            assert(ns[ns.len() - 1].1 == p);
        } else if listed(ns).contains_key(p) {
            let j = choose|j: int| 0 <= j < head.len() && (#[trigger] head[j]).1 == p;
            assert(ns[j].1 == p);
        } else {
            assert forall|j: int| 0 <= j < ns.len() implies (#[trigger] ns[j]).1 != p by {
                if j < head.len() {
                    assert(head[j] == ns[j]);
                }
            }
        }
    }
}

proof fn lemma_listed_status(ns: Seq<(Status, Seq<char>)>, k: int)
    requires
        0 <= k < ns.len(),
        forall|j: int| k < j < ns.len() ==> (#[trigger] ns[j]).1 != ns[k].1,
    ensures
        listed(ns).contains_key(ns[k].1),
        listed(ns)[ns[k].1].status == ns[k].0,
    decreases ns.len(),
{
    if k < ns.len() - 1 {
        let head = ns.drop_last();
        assert(ns[ns.len() - 1].1 != ns[k].1);
        assert forall|j: int| k < j < head.len() implies (#[trigger] head[j]).1 != head[k].1 by {
            assert(head[j] == ns[j]);
        }
        lemma_listed_status(head, k);
    }
}

proof fn lemma_counted_keeps(m: Table, nums: Seq<(Option<u32>, Option<u32>, Seq<char>)>, p: Seq<char>)
    ensures
        counted(m, nums).contains_key(p) == m.contains_key(p),
        m.contains_key(p) ==> {
            let e = counted(m, nums)[p];
            e.path == m[p].path && e.status == m[p].status && e.index == m[p].index && e.worktree
                == m[p].worktree
        },
        m.contains_key(p) && (forall|j: int|
            0 <= j < nums.len() ==> (#[trigger] nums[j]).2 != p) ==> counted(m, nums)[p] == m[p],
    decreases nums.len(),
{
    if nums.len() > 0 {
        let head = nums.drop_last();
        lemma_counted_keeps(m, head, p);
        lemma_counted_keeps(m, head, nums.last().2);
        if forall|j: int| 0 <= j < nums.len() ==> (#[trigger] nums[j]).2 != p {
            assert(nums[nums.len() - 1].2 != p);
            assert forall|j: int| 0 <= j < head.len() implies (#[trigger] head[j]).2 != p by {
                assert(head[j] == nums[j]);
            }
        }
    }
}

proof fn lemma_counted_last(m: Table, nums: Seq<(Option<u32>, Option<u32>, Seq<char>)>, k: int)
    requires
        0 <= k < nums.len(),
        forall|j: int| k < j < nums.len() ==> (#[trigger] nums[j]).2 != nums[k].2,
        m.contains_key(nums[k].2),
    ensures
        counted(m, nums)[nums[k].2].added == nums[k].0,
        counted(m, nums)[nums[k].2].removed == nums[k].1,
    decreases nums.len(),
{
    let head = nums.drop_last();
    lemma_counted_keeps(m, head, nums[k].2);
    if k < nums.len() - 1 {
        assert(nums[nums.len() - 1].2 != nums[k].2);
        assert forall|j: int| k < j < head.len() implies (#[trigger] head[j]).2 != head[k].2 by {
            assert(head[j] == nums[j]);
        }
        lemma_counted_last(m, head, k);
    }
}

proof fn lemma_untracked_at(m: Table, u: Seq<(Seq<char>, Option<u32>)>, p: Seq<char>)
    ensures
        (forall|j: int| 0 <= j < u.len() ==> (#[trigger] u[j]).0 != p) ==> with_untracked(
            m,
            u,
        ).contains_key(p) == m.contains_key(p) && with_untracked(m, u)[p] == m[p],
        (exists|j: int| 0 <= j < u.len() && (#[trigger] u[j]).0 == p) ==> with_untracked(
            m,
            u,
        ).contains_key(p),
    decreases u.len(),
{
    if u.len() > 0 {
        let head = u.drop_last();
        lemma_untracked_at(m, head, p);
        if u.last().0 != p {
            if exists|j: int| 0 <= j < u.len() && (#[trigger] u[j]).0 == p {
                let j = choose|j: int| 0 <= j < u.len() && (#[trigger] u[j]).0 == p;
                assert(j < head.len());
                assert(head[j].0 == p);
            } else {
                assert forall|j: int| 0 <= j < head.len() implies (#[trigger] head[j]).0 != p by {
                    assert(head[j] == u[j]);
                }
            }
        } else {
            assert(u[u.len() - 1].0 == p);
        }
    }
}

proof fn lemma_untracked_last(m: Table, u: Seq<(Seq<char>, Option<u32>)>, k: int)
    requires
        0 <= k < u.len(),
        forall|j: int| k < j < u.len() ==> (#[trigger] u[j]).0 != u[k].0,
    ensures
        ({
            let e = with_untracked(m, u)[u[k].0];
            &&& with_untracked(m, u).contains_key(u[k].0)
            &&& e.path == u[k].0
            &&& e.status == Status::Untracked
            &&& e.added == u[k].1
            &&& e.removed == (match u[k].1 {
                Some(_) => Some(0u32),
                None => None,
            })
            &&& e.index == '?' && e.worktree == '?'
        }),
    decreases u.len(),
{
    if k < u.len() - 1 {
        let head = u.drop_last();
        assert(u[u.len() - 1].0 != u[k].0);
        assert forall|j: int| k < j < head.len() implies (#[trigger] head[j]).0 != head[k].0 by {
            assert(head[j] == u[j]);
        }
        lemma_untracked_last(m, head, k);
    }
}

proof fn lemma_with_state(m: Table, index: char, worktree: char, path: Seq<char>, p: Seq<char>)
    ensures
        with_state(m, (index, worktree, path)).contains_key(p) == m.contains_key(p),
        p != path ==> with_state(m, (index, worktree, path))[p] == m[p],
        m.contains_key(path) ==> with_state(m, (index, worktree, path))[path] == (ChangeView {
            index,
            worktree,
            ..m[path]
        }),
{
}

proof fn lemma_states_keep(m: Table, sts: Seq<(char, char, Seq<char>)>, p: Seq<char>)
    ensures
        with_states(m, sts).contains_key(p) == m.contains_key(p),
        m.contains_key(p) ==> {
            let e = with_states(m, sts)[p];
            e.path == m[p].path && e.status == m[p].status && e.added == m[p].added && e.removed
                == m[p].removed
        },
        m.contains_key(p) && (forall|j: int|
            0 <= j < sts.len() ==> (#[trigger] sts[j]).2 != p) ==> with_states(m, sts)[p] == m[p],
    decreases sts.len(),
{
    if sts.len() > 0 {
        let head = sts.drop_last();
        let (index, worktree, path) = sts.last();
        lemma_states_keep(m, head, p);
        lemma_with_state(with_states(m, head), index, worktree, path, p);
        if forall|j: int| 0 <= j < sts.len() ==> (#[trigger] sts[j]).2 != p {
            assert(sts[sts.len() - 1].2 != p);
            assert forall|j: int| 0 <= j < head.len() implies (#[trigger] head[j]).2 != p by {
                assert(head[j] == sts[j]);
            }
        }
    }
}

proof fn lemma_states_last(m: Table, sts: Seq<(char, char, Seq<char>)>, k: int)
    requires
        0 <= k < sts.len(),
        forall|j: int| k < j < sts.len() ==> (#[trigger] sts[j]).2 != sts[k].2,
        m.contains_key(sts[k].2),
    ensures
        with_states(m, sts)[sts[k].2].index == sts[k].0,
        with_states(m, sts)[sts[k].2].worktree == sts[k].1,
    decreases sts.len(),
{
    let head = sts.drop_last();
    let (index, worktree, path) = sts.last();
    lemma_states_keep(m, head, sts[k].2);
    lemma_with_state(with_states(m, head), index, worktree, path, sts[k].2);
    if k < sts.len() - 1 {
        assert(sts[sts.len() - 1].2 != sts[k].2);
        assert forall|j: int| k < j < head.len() implies (#[trigger] head[j]).2 != head[k].2 by {
            assert(head[j] == sts[j]);
        }
        lemma_states_last(m, head, k);
    }
}

/// `files` is the list that git's answers add up to: which files differ and how, how many lines
/// differ in each, the untracked files with their line counts, and the states in the index and
/// in the working tree.
pub open spec fn adds_up(
    ns: Seq<(Status, Seq<char>)>,
    nums: Seq<(Option<u32>, Option<u32>, Seq<char>)>,
    u: Seq<(Seq<char>, Option<u32>)>,
    sts: Seq<(char, char, Seq<char>)>,
    files: Seq<FileChange>,
) -> bool {
    tabulates(files, with_states(with_untracked(counted(listed(ns), nums), u), sts))
}

/// Some record of `ns` is about `p`.
pub open spec fn differs(ns: Seq<(Status, Seq<char>)>, p: Seq<char>) -> bool {
    exists|j: int| 0 <= j < ns.len() && (#[trigger] ns[j]).1 == p
}

/// `p` is among the untracked files.
pub open spec fn is_untracked(u: Seq<(Seq<char>, Option<u32>)>, p: Seq<char>) -> bool {
    exists|j: int| 0 <= j < u.len() && (#[trigger] u[j]).0 == p
}

/// A file is listed just where git lists it as changed or as untracked; counts and states add
/// none.
pub proof fn law_listed_files_are_those_git_names(
    ns: Seq<(Status, Seq<char>)>,
    nums: Seq<(Option<u32>, Option<u32>, Seq<char>)>,
    u: Seq<(Seq<char>, Option<u32>)>,
    sts: Seq<(char, char, Seq<char>)>,
    files: Seq<FileChange>,
    p: Seq<char>,
)
    requires
        adds_up(ns, nums, u, sts, files),
    ensures
        (exists|i: int| 0 <= i < files.len() && (#[trigger] files[i]).path@ == p) <==> differs(ns, p)
            || is_untracked(u, p),
{
    let m = counted(listed(ns), nums);
    lemma_listed_at(ns, p);
    lemma_counted_keeps(listed(ns), nums, p);
    lemma_untracked_at(m, u, p);
    lemma_states_keep(with_untracked(m, u), sts, p);
    let t = with_states(with_untracked(m, u), sts);
    if t.contains_key(p) {
        assert(lists(files, p));
    }
    if exists|i: int| 0 <= i < files.len() && (#[trigger] files[i]).path@ == p {
        let i = choose|i: int| 0 <= i < files.len() && (#[trigger] files[i]).path@ == p;
        assert(t.contains_key(files[i].path@));
    }
}

/// A tracked file has the status that git gave it last, and the counts of the last numstat
/// record about it, whatever its status; without such a record nothing was added or removed.
pub proof fn law_tracked_files_have_gits_counts(
    ns: Seq<(Status, Seq<char>)>,
    nums: Seq<(Option<u32>, Option<u32>, Seq<char>)>,
    u: Seq<(Seq<char>, Option<u32>)>,
    sts: Seq<(char, char, Seq<char>)>,
    files: Seq<FileChange>,
    i: int,
    s: int,
    k: int,
)
    requires
        adds_up(ns, nums, u, sts, files),
        0 <= i < files.len(),
        !is_untracked(u, files[i].path@),
    ensures
        0 <= s < ns.len() && ns[s].1 == files[i].path@ && (forall|j: int|
            s < j < ns.len() ==> (#[trigger] ns[j]).1 != files[i].path@) ==> files[i].status
            == ns[s].0,
        0 <= k < nums.len() && nums[k].2 == files[i].path@ && (forall|j: int|
            k < j < nums.len() ==> (#[trigger] nums[j]).2 != files[i].path@) ==> files[i].added
            == nums[k].0 && files[i].removed == nums[k].1,
        (forall|j: int| 0 <= j < nums.len() ==> (#[trigger] nums[j]).2 != files[i].path@)
            ==> files[i].added == Some(0u32) && files[i].removed == Some(0u32),
{
    let p = files[i].path@;
    let l = listed(ns);
    let m = counted(l, nums);
    let w = with_untracked(m, u);
    lemma_listed_at(ns, p);
    lemma_counted_keeps(l, nums, p);
    lemma_untracked_at(m, u, p);
    lemma_states_keep(w, sts, p);
    let t = with_states(w, sts);
    assert(t.contains_key(p) && t[p] == files[i]@);
    if 0 <= s < ns.len() && ns[s].1 == p && (forall|j: int|
        s < j < ns.len() ==> (#[trigger] ns[j]).1 != p) {
        lemma_listed_status(ns, s);
    }
    if 0 <= k < nums.len() && nums[k].2 == p && (forall|j: int|
        k < j < nums.len() ==> (#[trigger] nums[j]).2 != p) {
        lemma_counted_last(l, nums, k);
    }
}

/// An untracked file is shown as one, with all its lines as added and none as removed; one
/// whose lines cannot be counted has no counts.
pub proof fn law_untracked_files_are_all_new(
    ns: Seq<(Status, Seq<char>)>,
    nums: Seq<(Option<u32>, Option<u32>, Seq<char>)>,
    u: Seq<(Seq<char>, Option<u32>)>,
    sts: Seq<(char, char, Seq<char>)>,
    files: Seq<FileChange>,
    i: int,
    k: int,
)
    requires
        adds_up(ns, nums, u, sts, files),
        0 <= i < files.len(),
        0 <= k < u.len(),
        u[k].0 == files[i].path@,
        forall|j: int| k < j < u.len() ==> (#[trigger] u[j]).0 != u[k].0,
    ensures
        files[i].status == Status::Untracked,
        files[i].added == u[k].1,
        u[k].1 is Some ==> files[i].removed == Some(0u32),
        u[k].1 is None ==> files[i].removed is None,
        (forall|j: int| 0 <= j < sts.len() ==> (#[trigger] sts[j]).2 != files[i].path@)
            ==> files[i].index == '?' && files[i].worktree == '?',
{
    let m = counted(listed(ns), nums);
    let w = with_untracked(m, u);
    lemma_untracked_last(m, u, k);
    lemma_states_keep(w, sts, u[k].0);
    let t = with_states(w, sts);
    assert(t[files[i].path@] == files[i]@);
}

/// A file has the states of the last status record about it; without one a tracked file is
/// unchanged in both places and an untracked one unknown to both.
pub proof fn law_states_are_those_of_git_status(
    ns: Seq<(Status, Seq<char>)>,
    nums: Seq<(Option<u32>, Option<u32>, Seq<char>)>,
    u: Seq<(Seq<char>, Option<u32>)>,
    sts: Seq<(char, char, Seq<char>)>,
    files: Seq<FileChange>,
    i: int,
    k: int,
)
    requires
        adds_up(ns, nums, u, sts, files),
        0 <= i < files.len(),
    ensures
        0 <= k < sts.len() && sts[k].2 == files[i].path@ && (forall|j: int|
            k < j < sts.len() ==> (#[trigger] sts[j]).2 != files[i].path@) ==> files[i].index
            == sts[k].0 && files[i].worktree == sts[k].1,
        (forall|j: int| 0 <= j < sts.len() ==> (#[trigger] sts[j]).2 != files[i].path@) && !is_untracked(
            u,
            files[i].path@,
        ) ==> files[i].index == ' ' && files[i].worktree == ' ',
{
    let p = files[i].path@;
    let l = listed(ns);
    let m = counted(l, nums);
    let w = with_untracked(m, u);
    let t = with_states(w, sts);
    assert(t.contains_key(p) && t[p] == files[i]@);
    lemma_listed_at(ns, p);
    lemma_counted_keeps(l, nums, p);
    lemma_untracked_at(m, u, p);
    lemma_states_keep(w, sts, p);
    if 0 <= k < sts.len() && sts[k].2 == p && (forall|j: int|
        k < j < sts.len() ==> (#[trigger] sts[j]).2 != p) {
        lemma_states_last(w, sts, k);
    }
}

/// The files with something in the index are those whose index state is neither unchanged nor
/// unknown.
pub proof fn law_staged_files_are_counted(sts: Seq<(char, char, Seq<char>)>)
    ensures
        staged_entries(sts) == sts.filter(
            |s: (char, char, Seq<char>)| s.0 != ' ' && s.0 != '?',
        ).len(),
    decreases sts.len(),
{
    reveal(Seq::filter);
    if sts.len() > 0 {
        law_staged_files_are_counted(sts.drop_last());
    }
}

// ---------------------------------------------------------------------------------------
// Records

/// A list goes on behind the first NUL; what stands before it is a record, unless it is empty.
pub proof fn law_records_end_at_nul(piece: Seq<u8>, rest: Seq<u8>)
    requires
        forall|i: int| 0 <= i < piece.len() ==> #[trigger] piece[i] != 0u8,
    ensures
        piece.len() > 0 ==> records(piece + seq![0u8] + rest) == seq![lossy_text(piece)] + records(
            rest,
        ),
        piece.len() > 0 ==> records(piece) == seq![lossy_text(piece)],
        records(seq![0u8] + rest) == records(rest),
        records(Seq::<u8>::empty()).len() == 0,
{
    let gap = seq![0u8] + rest;
    assert(gap.skip(1) =~= rest);
    lemma_first(gap, 0u8, 0);
    let all = piece + seq![0u8] + rest;
    assert(all =~= piece + gap);
    lemma_first(all, 0u8, piece.len() as int);
    assert(all.take(piece.len() as int) =~= piece);
    assert(all.skip(piece.len() as int) =~= gap);
    assert(records(gap) == records(rest));
    lemma_first(piece, 0u8, piece.len() as int);
    assert(piece.take(piece.len() as int) =~= piece);
    assert(piece.skip(piece.len() as int) =~= Seq::<u8>::empty());
    assert(records(Seq::<u8>::empty()) =~= Seq::<Seq<char>>::empty());
    if piece.len() > 0 {
        assert(records(piece) == seq![lossy_text(piece)] + records(Seq::<u8>::empty()));
        assert(records(piece) =~= seq![lossy_text(piece)]);
    }
}

/// A status record and the path behind it are about one file, and the records go on behind
/// them. Git's letter tells the status.
pub proof fn law_status_records_come_in_pairs(recs: Seq<Seq<char>>, s: Seq<char>, p: Seq<char>, i: int)
    requires
        0 <= i < recs.len() / 2,
    ensures
        name_statuses(seq![s, p] + recs)[0] == (Status::of(initial(s)), p),
        name_statuses(seq![s, p] + recs)[i + 1] == name_statuses(recs)[i],
        name_statuses(seq![s, p] + recs).len() == name_statuses(recs).len() + 1,
        name_statuses(seq![s]).len() == 0,
        s.len() > 0 ==> initial(s) == s[0],
        s.len() == 0 ==> initial(s) == '?',
{
    let all = seq![s, p] + recs;
    assert(all[2 * (i + 1)] == recs[2 * i]);
    assert(all[2 * (i + 1) + 1] == recs[2 * i + 1]);
}

/// The letter of a status is the one that git writes for it, and git's letters are told apart.
pub proof fn law_letters_stand_for_statuses(c: char)
    ensures
        Status::of(c).code() == c,
        Status::of('A') == Status::Added,
        Status::of('M') == Status::Modified,
        Status::of('D') == Status::Deleted,
        Status::of('T') == Status::TypeChanged,
        Status::of(c) != Status::Untracked,
        Status::Untracked.code() == '?',
{
}

proof fn lemma_first_tab(a: Seq<char>, rest: Seq<char>)
    requires
        forall|i: int| 0 <= i < a.len() ==> #[trigger] a[i] != '\t',
    ensures
        first(a + seq!['\t'] + rest, '\t') == a.len(),
        (a + seq!['\t'] + rest).take(a.len() as int) == a,
        (a + seq!['\t'] + rest).skip(a.len() as int + 1) == rest,
{
    let s = a + seq!['\t'] + rest;
    lemma_first(s, '\t', a.len() as int);
    assert(s.take(a.len() as int) =~= a);
    assert(s.skip(a.len() as int + 1) =~= rest);
}

proof fn lemma_decimal_has_no_tab(n: u32)
    ensures
        forall|i: int| 0 <= i < decimal(n as nat).len() ==> #[trigger] decimal(n as nat)[i] != '\t',
{
    law_numbers_read_back(n);
    let d = decimal(n as nat);
    let e = if d.len() > 0 && d[0] == '+' {
        d.skip(1)
    } else {
        d
    };
    assert(crate::text::all_digits(e));
    assert forall|i: int| 0 <= i < d.len() implies #[trigger] d[i] != '\t' by {
        if d[0] == '+' {
            if i > 0 {
                assert(crate::text::is_digit(e[i - 1]));
                assert(e[i - 1] == d[i]);
            }
        } else {
            assert(crate::text::is_digit(e[i]));
        }
    }
}

proof fn lemma_numstat(a: Seq<char>, b: Seq<char>, p: Seq<char>)
    requires
        forall|i: int| 0 <= i < a.len() ==> #[trigger] a[i] != '\t',
        forall|i: int| 0 <= i < b.len() ==> #[trigger] b[i] != '\t',
    ensures
        numstat(a + seq!['\t'] + (b + seq!['\t'] + p)) == Some(
            (crate::text::parsed_u32(a), crate::text::parsed_u32(b), p),
        ),
{
    let rest = b + seq!['\t'] + p;
    lemma_first_tab(a, rest);
    lemma_first_tab(b, p);
}

proof fn lemma_tabbed(d: Seq<char>, e: Seq<char>, p: Seq<char>)
    ensures
        d + "\t"@ + e + "\t"@ + p == d + seq!['\t'] + (e + seq!['\t'] + p),
{
    reveal_strlit("\t");
    let t = "\t"@;
    assert(t =~= seq!['\t']);
    assert(d + t + e + t + p =~= d + t + (e + t + p));
}

proof fn lemma_dashed(p: Seq<char>)
    ensures
        "-\t-\t"@ + p == seq!['-'] + seq!['\t'] + (seq!['-'] + seq!['\t'] + p),
{
    reveal_strlit("-\t-\t");
    assert("-\t-\t"@ =~= seq!['-', '\t', '-', '\t']);
    assert(seq!['-', '\t', '-', '\t'] + p =~= seq!['-'] + seq!['\t'] + (seq!['-'] + seq!['\t']
        + p));
}

/// A numstat record holds the lines added, then the lines removed, then the path, whatever is
/// in it; dashes stand for a binary file.
#[verifier::spinoff_prover]
pub proof fn law_numstat_records_hold_counts_and_path(a: u32, r: u32, p: Seq<char>)
    ensures
        numstat(decimal(a as nat) + "\t"@ + decimal(r as nat) + "\t"@ + p) == Some(
            (Some(a), Some(r), p),
        ),
        numstat("-\t-\t"@ + p) == Some((None::<u32>, None::<u32>, p)),
{
    lemma_counts(a, r, p);
    lemma_tabbed(decimal(a as nat), decimal(r as nat), p);
    lemma_no_counts(p);
    lemma_dashed(p);
}

proof fn lemma_counts(a: u32, r: u32, p: Seq<char>)
    ensures
        numstat(decimal(a as nat) + seq!['\t'] + (decimal(r as nat) + seq!['\t'] + p)) == Some(
            (Some(a), Some(r), p),
        ),
{
    lemma_decimal_has_no_tab(a);
    lemma_decimal_has_no_tab(r);
    law_numbers_read_back(a);
    law_numbers_read_back(r);
    lemma_numstat(decimal(a as nat), decimal(r as nat), p);
}

proof fn lemma_no_counts(p: Seq<char>)
    ensures
        numstat(seq!['-'] + seq!['\t'] + (seq!['-'] + seq!['\t'] + p)) == Some(
            (None::<u32>, None::<u32>, p),
        ),
{
    let dash = seq!['-'];
    crate::laws_text::law_other_texts_are_no_numbers(dash, 0);
    lemma_numstat(dash, dash, p);
}

/// A status record holds the state in the index, that in the working tree, and behind a space
/// the path.
pub proof fn law_state_records_hold_states_and_path(x: char, y: char, p: Seq<char>)
    requires
        p.len() > 0,
    ensures
        state(seq![x, y, ' '] + p) == Some((x, y, p)),
{
    assert((seq![x, y, ' '] + p).skip(3) =~= p);
}

/// A record without two tabs holds no counts, and one of three characters or fewer, or without
/// a space behind the two states, no states. They are passed over; the others keep their order.
pub proof fn law_other_records_are_passed_over(recs: Seq<Seq<char>>, r: Seq<char>)
    ensures
        numstats(Seq::<Seq<char>>::empty()).len() == 0,
        states(Seq::<Seq<char>>::empty()).len() == 0,
        numstats(recs.push(r)) == (match numstat(r) {
            Some(n) => numstats(recs).push(n),
            None => numstats(recs),
        }),
        states(recs.push(r)) == (match state(r) {
            Some(s) => states(recs).push(s),
            None => states(recs),
        }),
        (forall|i: int, j: int|
            0 <= i < j < r.len() ==> !(#[trigger] r[i] == '\t' && #[trigger] r[j] == '\t'))
            ==> numstat(r) is None,
        r.len() <= 3 || r[2] != ' ' ==> state(r) is None,
{
    assert(recs.push(r).drop_last() =~= recs);
    crate::text::lemma_first_bounds(r, '\t');
    let a = first(r, '\t') as int;
    let rest = r.skip(a + 1);
    crate::text::lemma_first_bounds(rest, '\t');
    let b = first(rest, '\t') as int;
    if a < r.len() && b < rest.len() {
        assert(r[a] == '\t');
        assert(rest[b] == r[a + 1 + b]);
        assert(r[a + 1 + b] == '\t');
    }
}

// ---------------------------------------------------------------------------------------
// Counts

/// The newlines of a file are counted one by one.
pub proof fn law_newlines_are_counted(data: Seq<u8>)
    ensures
        newlines(data) == data.filter(|b: u8| b == 10u8).len(),
        data.len() > 0 && data.last() == 10u8 ==> line_total(data) == newlines(data),
    decreases data.len(),
{
    reveal(Seq::filter);
    if data.len() > 0 {
        law_newlines_are_counted(data.drop_last());
    }
}

/// Every newline ends a line, and what stands behind the last one is a line too unless it is
/// empty.
pub proof fn law_newlines_end_lines(data: Seq<u8>, more: Seq<u8>)
    ensures
        newlines(data + more) == newlines(data) + newlines(more),
        line_total(Seq::<u8>::empty()) == 0,
        line_total(data.push(10u8)) == newlines(data) + 1,
        data.len() > 0 && data.last() != 10u8 ==> line_total(data) == newlines(data) + 1,
    decreases more.len(),
{
    assert(data.push(10u8).drop_last() =~= data);
    if more.len() > 0 {
        law_newlines_end_lines(data, more.drop_last());
        assert((data + more).drop_last() =~= data + more.drop_last());
    } else {
        assert(data + more =~= data);
    }
}

/// The lines added and removed over all files are the sums over the files, in any order; a
/// binary file counts as none.
pub proof fn law_totals_are_sums(a: Seq<FileChange>, f: FileChange, b: Seq<FileChange>)
    ensures
        added_lines(a + b) == added_lines(a) + added_lines(b),
        removed_lines(a + b) == removed_lines(a) + removed_lines(b),
        added_lines(seq![f]) == (match f.added {
            Some(n) => n as nat,
            None => 0,
        }),
        removed_lines(seq![f]) == (match f.removed {
            Some(n) => n as nat,
            None => 0,
        }),
    decreases b.len(),
{
    let one = seq![f];
    assert(one.drop_last() =~= Seq::<FileChange>::empty());
    assert(added_lines(one.drop_last()) == 0 && removed_lines(one.drop_last()) == 0);
    if b.len() > 0 {
        law_totals_are_sums(a, f, b.drop_last());
        assert((a + b).drop_last() =~= a + b.drop_last());
    } else {
        assert(a + b =~= a);
    }
}

} // verus!
