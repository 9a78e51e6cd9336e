//! Readers for what git prints, and the file list made of it.

use vstd::prelude::*;
use vstd::utf8::{decode_utf8, valid_utf8};

use crate::git::{ChangeView, FileChange, Status, MAX_UNTRACKED_BYTES};
use crate::text::{
    chars_of, comes_before, find_from, first, parse_u32, same_text, text_of, views,
};

verus! {

/// What `String::from_utf8_lossy` makes of some bytes.
pub uninterp spec fn lossy_text(bytes: Seq<u8>) -> Seq<char>;

/// `String::from_utf8_lossy`: bytes that are UTF-8 are decoded, anything else becomes
/// replacement characters, in a way that the bytes alone determine.
#[verifier::external_body]
pub(crate) fn lossy(bytes: &[u8]) -> (r: String)
    ensures
        r@ == lossy_text(bytes@),
        valid_utf8(bytes@) ==> r@ == decode_utf8(bytes@),
{
    String::from_utf8_lossy(bytes).into_owned()
}

/// The records of a NUL-separated list: its non-empty pieces, as text.
pub open spec fn records(buf: Seq<u8>) -> Seq<Seq<char>>
    decreases buf.len(),
{
    let n = first(buf, 0u8) as int;
    if buf.len() == 0 {
        Seq::empty()
    } else if n == 0 {
        records(buf.skip(1))
    } else if n <= buf.len() {
        seq![lossy_text(buf.take(n))] + records(buf.skip(n))
    } else {
        Seq::empty()
    }
}

/// Split a NUL-separated list.
pub fn split_z(buf: &[u8]) -> (r: Vec<String>)
    ensures
        views(r@) == records(buf@),
{
    let mut out: Vec<String> = Vec::new();
    let mut start: usize = 0;
    proof {
        assert(buf@.skip(0) =~= buf@);
        assert(views(out@) + records(buf@.skip(0)) =~= records(buf@));
    }
    while start < buf.len()
        invariant
            start <= buf.len(),
            views(out@) + records(buf@.skip(start as int)) == records(buf@),
        decreases buf.len() - start,
    {
        let ghost rest = buf@.skip(start as int);
        let mut end: usize = start;
        while end < buf.len() && buf[end] != 0
            invariant
                start <= end <= buf.len(),
                forall|j: int| start <= j < end ==> buf[j] != 0,
            decreases buf.len() - end,
        {
            end += 1;
        }
        proof {
            assert forall|j: int| 0 <= j < end - start implies rest[j] != 0 by {
                assert(rest[j] == buf[start + j]);
            }
            crate::text::lemma_first(rest, 0u8, end - start);
        }
        if end == start {
            proof {
                assert(rest.skip(1) =~= buf@.skip(start + 1));
            }
            start += 1;
        } else {
            let ghost before = out@;
            let piece = lossy(vstd::slice::slice_subrange(buf, start, end));
            proof {
                assert(buf@.subrange(start as int, end as int) =~= rest.take(end - start));
                assert(rest.skip(end - start) =~= buf@.skip(end as int));
            }
            out.push(piece);
            proof {
                assert(views(out@) =~= views(before).push(piece@));
                assert(views(out@) + records(buf@.skip(end as int)) =~= views(before) + records(
                    rest,
                ));
            }
            start = end;
        }
    }
    proof {
        assert(buf@.skip(start as int) =~= Seq::<u8>::empty());
        assert(views(out@) + records(buf@.skip(start as int)) =~= views(out@));
    }
    out
}

/// First character of a text, `?` where it is empty.
pub open spec fn initial(s: Seq<char>) -> char {
    if s.len() > 0 { s[0] } else { '?' }
}

/// Records taken two by two: a status, then the path it is about.
pub open spec fn name_statuses(recs: Seq<Seq<char>>) -> Seq<(Status, Seq<char>)> {
    Seq::new(
        (recs.len() / 2) as nat,
        |i: int| (Status::of(initial(recs[2 * i])), recs[2 * i + 1]),
    )
}

/// The contents of a list of statuses with paths.
pub open spec fn status_views(v: Seq<(Status, String)>) -> Seq<(Status, Seq<char>)> {
    v.map_values(|p: (Status, String)| (p.0, p.1@))
}

/// `--name-status -z --no-renames`: `M\0path\0A\0path\0`
pub fn parse_name_status(buf: &[u8]) -> (r: Vec<(Status, String)>)
    ensures
        status_views(r@) == name_statuses(records(buf@)),
{
    statuses_of(&split_z(buf))
}

/// Take records two by two: a status, then the path it is about.
pub fn statuses_of(parts: &[String]) -> (r: Vec<(Status, String)>)
    ensures
        status_views(r@) == name_statuses(views(parts@)),
{
    let ghost recs = views(parts@);
    let mut out: Vec<(Status, String)> = Vec::new();
    let n: usize = parts.len() / 2;
    let mut i: usize = 0;
    while i < n
        invariant
            i <= n,
            n == parts.len() / 2,
            views(parts@) == recs,
            status_views(out@) == name_statuses(recs).take(i as int),
        decreases n - i,
    {
        let name = chars_of(parts[2 * i].as_str());
        let c: char = if name.len() > 0 { name[0] } else { '?' };
        let ghost before = out@;
        out.push((Status::from_letter(c), parts[2 * i + 1].clone()));
        proof {
            assert(parts[2 * i as int]@ == recs[2 * i as int]);
            assert(parts[2 * i + 1]@ == recs[2 * i + 1]);
            assert(status_views(out@) =~= status_views(before).push(name_statuses(recs)[i as int]));
            assert(status_views(out@) =~= name_statuses(recs).take(i + 1));
        }
        i += 1;
    }
    proof {
        assert(name_statuses(recs).take(n as int) =~= name_statuses(recs));
    }
    out
}

/// One `added<TAB>removed<TAB>path` record. A side that is no number, such as the `-` of a
/// binary file, has no count.
pub open spec fn numstat(rec: Seq<char>) -> Option<(Option<u32>, Option<u32>, Seq<char>)> {
    let a = first(rec, '\t') as int;
    let rest = rec.skip(a + 1);
    let b = first(rest, '\t') as int;
    if a >= rec.len() || b >= rest.len() {
        None
    } else {
        Some(
            (
                crate::text::parsed_u32(rec.take(a)),
                crate::text::parsed_u32(rest.take(b)),
                rest.skip(b + 1),
            ),
        )
    }
}

/// The records that hold counts, in order.
pub open spec fn numstats(recs: Seq<Seq<char>>) -> Seq<(Option<u32>, Option<u32>, Seq<char>)>
    decreases recs.len(),
{
    if recs.len() == 0 {
        Seq::empty()
    } else {
        let head = numstats(recs.drop_last());
        match numstat(recs.last()) {
            Some(n) => head.push(n),
            None => head,
        }
    }
}

/// The contents of a list of counts with paths.
pub open spec fn numstat_views(v: Seq<(Option<u32>, Option<u32>, String)>) -> Seq<
    (Option<u32>, Option<u32>, Seq<char>),
> {
    v.map_values(|p: (Option<u32>, Option<u32>, String)| (p.0, p.1, p.2@))
}

/// `--numstat -z --no-renames`: `12\t3\tpath\0` (`-\t-\t` for binary)
pub fn parse_numstat(buf: &[u8]) -> (r: Vec<(Option<u32>, Option<u32>, String)>)
    ensures
        numstat_views(r@) == numstats(records(buf@)),
{
    numstats_of(&split_z(buf))
}

/// Read the records that hold counts.
pub fn numstats_of(recs: &[String]) -> (r: Vec<(Option<u32>, Option<u32>, String)>)
    ensures
        numstat_views(r@) == numstats(views(recs@)),
{
    let ghost all = views(recs@);
    let mut out: Vec<(Option<u32>, Option<u32>, String)> = Vec::new();
    let mut i: usize = 0;
    while i < recs.len()
        invariant
            i <= recs.len(),
            views(recs@) == all,
            numstat_views(out@) == numstats(all.take(i as int)),
        decreases recs.len() - i,
    {
        let v = chars_of(recs[i].as_str());
        proof {
            assert(v@ == all[i as int]);
            assert(all.take(i + 1).drop_last() =~= all.take(i as int));
            assert(v@.skip(0) =~= v@);
        }
        let a = find_from(&v, '\t', 0);
        if a < v.len() {
            let b = find_from(&v, '\t', a + 1);
            let ghost rest = v@.skip(a + 1);
            if b < v.len() {
                let ghost before = out@;
                let added = text_of(&v, 0, a);
                let removed = text_of(&v, a + 1, b);
                let path = text_of(&v, b + 1, v.len());
                proof {
                    assert(added@ =~= v@.take(a as int));
                    assert(removed@ =~= rest.take(b - a - 1));
                    assert(path@ =~= rest.skip(b - a));
                }
                out.push((parse_u32(added.as_str()), parse_u32(removed.as_str()), path));
                proof {
                    assert(numstat_views(out@) =~= numstat_views(before).push(
                        numstat(v@)->0,
                    ));
                }
            }
        }
        i += 1;
    }
    proof {
        assert(all.take(i as int) =~= all);
    }
    out
}

/// One `XY path` record: state in the index, state in the working tree, path.
pub open spec fn state(rec: Seq<char>) -> Option<(char, char, Seq<char>)> {
    if rec.len() > 3 && rec[2] == ' ' {
        Some((rec[0], rec[1], rec.skip(3)))
    } else {
        None
    }
}

/// The records that hold a state, in order.
pub open spec fn states(recs: Seq<Seq<char>>) -> Seq<(char, char, Seq<char>)>
    decreases recs.len(),
{
    if recs.len() == 0 {
        Seq::empty()
    } else {
        let head = states(recs.drop_last());
        match state(recs.last()) {
            Some(s) => head.push(s),
            None => head,
        }
    }
}

/// The contents of a list of states with paths.
pub open spec fn state_views(v: Seq<(char, char, String)>) -> Seq<(char, char, Seq<char>)> {
    v.map_values(|p: (char, char, String)| (p.0, p.1, p.2@))
}

/// `status --porcelain -z --no-renames`: ` M path\0?? path\0`
pub fn parse_states(buf: &[u8]) -> (r: Vec<(char, char, String)>)
    ensures
        state_views(r@) == states(records(buf@)),
{
    states_of(&split_z(buf))
}

/// Read the records that hold a state.
pub fn states_of(recs: &[String]) -> (r: Vec<(char, char, String)>)
    ensures
        state_views(r@) == states(views(recs@)),
{
    let ghost all = views(recs@);
    let mut out: Vec<(char, char, String)> = Vec::new();
    let mut i: usize = 0;
    while i < recs.len()
        invariant
            i <= recs.len(),
            views(recs@) == all,
            state_views(out@) == states(all.take(i as int)),
        decreases recs.len() - i,
    {
        let v = chars_of(recs[i].as_str());
        proof {
            assert(v@ == all[i as int]);
            assert(all.take(i + 1).drop_last() =~= all.take(i as int));
        }
        if v.len() > 3 && v[2] == ' ' {
            let ghost before = out@;
            let path = text_of(&v, 3, v.len());
            proof {
                assert(path@ =~= v@.skip(3));
            }
            out.push((v[0], v[1], path));
            proof {
                assert(state_views(out@) =~= state_views(before).push(state(v@)->0));
            }
        }
        i += 1;
    }
    proof {
        assert(all.take(i as int) =~= all);
    }
    out
}

// ---------------------------------------------------------------------------------------
// The file list

/// Changed files by path.
pub type Table = Map<Seq<char>, ChangeView>;

/// The paths of a file list go up strictly.
pub open spec fn ascending(files: Seq<FileChange>) -> bool {
    forall|i: int, j: int|
        0 <= i < j < files.len() ==> crate::text::before(
            (#[trigger] files[i]).path@,
            (#[trigger] files[j]).path@,
        )
}

/// `files` lists the entries of `m`, each once, in the order of their paths.
pub open spec fn tabulates(files: Seq<FileChange>, m: Table) -> bool {
    &&& ascending(files)
    &&& forall|i: int|
        0 <= i < files.len() ==> m.contains_key((#[trigger] files[i]).path@) && m[files[i].path@]
            == files[i]@
    &&& forall|p: Seq<char>| #[trigger] m.contains_key(p) ==> lists(files, p)
}

/// Some entry of `files` is at path `p`.
pub open spec fn lists(files: Seq<FileChange>, p: Seq<char>) -> bool {
    exists|i: int| 0 <= i < files.len() && (#[trigger] files[i]).path@ == p
}

/// Where `path` is in the list, or where it would go.
fn place(files: &[FileChange], path: &str) -> (r: (usize, bool))
    requires
        ascending(files@),
    ensures
        r.0 <= files.len(),
        r.1 ==> r.0 < files.len() && files[r.0 as int].path@ == path@,
        !r.1 ==> !lists(files@, path@),
        !r.1 ==> forall|i: int|
            0 <= i < r.0 ==> crate::text::before((#[trigger] files[i]).path@, path@),
        !r.1 ==> forall|i: int|
            r.0 <= i < files.len() ==> crate::text::before(path@, (#[trigger] files[i]).path@),
{
    let mut i: usize = files.len();
    while i > 0
        invariant
            i <= files.len(),
            ascending(files@),
            forall|k: int|
                i <= k < files.len() ==> crate::text::before(path@, (#[trigger] files[k]).path@),
        decreases i,
    {
        let f = &files[i - 1];
        if same_text(f.path.as_str(), path) {
            return (i - 1, true);
        }
        if comes_before(f.path.as_str(), path) {
            proof {
                assert forall|k: int| 0 <= k < i implies crate::text::before(
                    (#[trigger] files[k]).path@,
                    path@,
                ) by {
                    if k < i - 1 {
                        crate::text::lemma_before_transitive(
                            files[k].path@,
                            files[i - 1].path@,
                            path@,
                        );
                    }
                }
                lemma_not_listed(files@, path@, i as int);
            }
            return (i, false);
        }
        proof {
            crate::text::lemma_before_total(f.path@, path@);
        }
        i -= 1;
    }
    proof {
        lemma_not_listed(files@, path@, 0);
    }
    (0, false)
}

proof fn lemma_not_listed(files: Seq<FileChange>, p: Seq<char>, at: int)
    requires
        0 <= at <= files.len(),
        forall|i: int| 0 <= i < at ==> crate::text::before((#[trigger] files[i]).path@, p),
        forall|i: int| at <= i < files.len() ==> crate::text::before(p, (#[trigger] files[i]).path@),
    ensures
        !lists(files, p),
{
    crate::text::lemma_before_total(p, p);
}

/// Put an entry into the list, in place of one with the same path.
fn put(files: &mut Vec<FileChange>, f: FileChange)
    requires
        ascending(old(files)@),
    ensures
        ascending(final(files)@),
        forall|m: Table|
            #![trigger tabulates(old(files)@, m)]
            tabulates(old(files)@, m) ==> tabulates(final(files)@, m.insert(f.path@, f@)),
{
    let (at, found) = place(files, f.path.as_str());
    if found {
        files.set(at, f);
        proof {
            assert forall|m: Table| #![trigger tabulates(old(files)@, m)] tabulates(
                old(files)@,
                m,
            ) implies tabulates(files@, m.insert(f.path@, f@)) by {
                let n = m.insert(f.path@, f@);
                assert forall|i: int| 0 <= i < files.len() implies n.contains_key(
                    (#[trigger] files[i]).path@,
                ) && n[files[i].path@] == files[i]@ by {
                    if i != at {
                        assert(files[i] == old(files)@[i]);
                        if files[i].path@ == f.path@ {
                            crate::text::lemma_before_total(f.path@, f.path@);
                            if i < at {
                                assert(crate::text::before(
                                    old(files)@[i].path@,
                                    old(files)@[at as int].path@,
                                ));
                            } else {
                                assert(crate::text::before(
                                    old(files)@[at as int].path@,
                                    old(files)@[i].path@,
                                ));
                            }
                        }
                    }
                }
                assert forall|p: Seq<char>| #[trigger] n.contains_key(p) implies lists(
                    files@,
                    p,
                ) by {
                    if p == f.path@ {
                        assert(files[at as int].path@ == p);
                    } else {
                        assert(m.contains_key(p));
                        assert(lists(old(files)@, p));
                        let i = choose|i: int|
                            0 <= i < old(files)@.len() && (#[trigger] old(files)@[i]).path@ == p;
                        assert(files[i].path@ == p);
                    }
                }
            }
        }
    } else {
        files.insert(at, f);
        proof {
            let was = old(files)@;
            assert forall|i: int| 0 <= i < files.len() implies #[trigger] files[i] == (if i < at {
                was[i]
            } else if i == at {
                f
            } else {
                was[i - 1]
            }) by {}
            assert forall|m: Table| #![trigger tabulates(was, m)] tabulates(
                was,
                m,
            ) implies tabulates(files@, m.insert(f.path@, f@)) by {
                let n = m.insert(f.path@, f@);
                assert forall|i: int| 0 <= i < files.len() implies n.contains_key(
                    (#[trigger] files[i]).path@,
                ) && n[files[i].path@] == files[i]@ by {
                    if i != at {
                        let k = if i < at { i } else { i - 1 };
                        assert(was[k].path@ != f.path@);
                    }
                }
                assert forall|p: Seq<char>| #[trigger] n.contains_key(p) implies lists(
                    files@,
                    p,
                ) by {
                    if p == f.path@ {
                        assert(files[at as int].path@ == p);
                    } else {
                        assert(m.contains_key(p));
                        assert(lists(was, p));
                        let k = choose|k: int|
                            0 <= k < was.len() && (#[trigger] was[k]).path@ == p;
                        let i = if k < at { k } else { k + 1 };
                        assert(files[i].path@ == p);
                    }
                }
            }
        }
    }
}

/// What git lists as changed, before it is known how much.
pub open spec fn listed(ns: Seq<(Status, Seq<char>)>) -> Table
    decreases ns.len(),
{
    if ns.len() == 0 {
        Map::empty()
    } else {
        let (status, path) = ns.last();
        listed(ns.drop_last()).insert(
            path,
            ChangeView {
                path,
                status,
                added: Some(0),
                removed: Some(0),
                index: ' ',
                worktree: ' ',
            },
        )
    }
}

/// Counts filled in for the paths that are listed.
pub open spec fn counted(m: Table, nums: Seq<(Option<u32>, Option<u32>, Seq<char>)>) -> Table
    decreases nums.len(),
{
    if nums.len() == 0 {
        m
    } else {
        let (added, removed, path) = nums.last();
        let rest = counted(m, nums.drop_last());
        if rest.contains_key(path) {
            rest.insert(path, ChangeView { added, removed, ..rest[path] })
        } else {
            rest
        }
    }
}

/// Untracked files added, with their line counts.
pub open spec fn with_untracked(m: Table, files: Seq<(Seq<char>, Option<u32>)>) -> Table
    decreases files.len(),
{
    if files.len() == 0 {
        m
    } else {
        let (path, lines) = files.last();
        with_untracked(m, files.drop_last()).insert(
            path,
            ChangeView {
                path,
                status: Status::Untracked,
                added: lines,
                removed: if lines is Some { Some(0u32) } else { None },
                index: '?',
                worktree: '?',
            },
        )
    }
}

/// One pair of states filled in, where its path is listed.
pub open spec fn with_state(m: Table, s: (char, char, Seq<char>)) -> Table {
    let (index, worktree, path) = s;
    if m.contains_key(path) {
        m.insert(path, ChangeView { index, worktree, ..m[path] })
    } else {
        m
    }
}

/// Index and working tree states filled in for the paths that are listed.
pub open spec fn with_states(m: Table, sts: Seq<(char, char, Seq<char>)>) -> Table
    decreases sts.len(),
{
    if sts.len() == 0 {
        m
    } else {
        with_state(with_states(m, sts.drop_last()), sts.last())
    }
}

/// The contents of a list of untracked files with their line counts.
pub open spec fn untracked_views(v: Seq<(String, Option<u32>)>) -> Seq<(Seq<char>, Option<u32>)> {
    v.map_values(|p: (String, Option<u32>)| (p.0@, p.1))
}

/// The file list that git's answers add up to.
pub open spec fn table(
    name_status: Seq<u8>,
    numstat: Seq<u8>,
    untracked: Seq<(Seq<char>, Option<u32>)>,
    porcelain: Seq<u8>,
) -> Table {
    with_states(
        with_untracked(
            counted(listed(name_statuses(records(name_status))), numstats(records(numstat))),
            untracked,
        ),
        states(records(porcelain)),
    )
}

/// Build the file list.
pub fn file_table(
    name_status: &[u8],
    numstat: &[u8],
    untracked: &[(String, Option<u32>)],
    porcelain: &[u8],
) -> (r: Vec<FileChange>)
    ensures
        tabulates(
            r@,
            table(name_status@, numstat@, untracked_views(untracked@), porcelain@),
        ),
{
    tabulate(
        &parse_name_status(name_status),
        &parse_numstat(numstat),
        untracked,
        &parse_states(porcelain),
    )
}

/// Build the file list from what git's answers hold.
pub fn tabulate(
    ns: &[(Status, String)],
    nums: &[(Option<u32>, Option<u32>, String)],
    untracked: &[(String, Option<u32>)],
    sts: &[(char, char, String)],
) -> (r: Vec<FileChange>)
    ensures
        tabulates(
            r@,
            with_states(
                with_untracked(
                    counted(listed(status_views(ns@)), numstat_views(nums@)),
                    untracked_views(untracked@),
                ),
                state_views(sts@),
            ),
        ),
{
    let mut files: Vec<FileChange> = Vec::new();
    let ghost nsv = status_views(ns@);
    let mut i: usize = 0;
    while i < ns.len()
        invariant
            i <= ns.len(),
            status_views(ns@) == nsv,
            tabulates(files@, listed(nsv.take(i as int))),
        decreases ns.len() - i,
    {
        proof {
            assert(nsv.take(i + 1).drop_last() =~= nsv.take(i as int));
            assert(nsv.take(i + 1).last() == (ns[i as int].0, ns[i as int].1@));
        }
        put(
            &mut files,
            FileChange {
                path: ns[i].1.clone(),
                status: ns[i].0,
                added: Some(0),
                removed: Some(0),
                index: ' ',
                worktree: ' ',
            },
        );
        i += 1;
    }
    assert(nsv.take(i as int) =~= nsv);
    let ghost numv = numstat_views(nums@);
    let ghost m1 = listed(nsv);
    i = 0;
    assert(numv.take(0) =~= Seq::empty());
    while i < nums.len()
        invariant
            i <= nums.len(),
            numstat_views(nums@) == numv,
            tabulates(files@, counted(m1, numv.take(i as int))),
        decreases nums.len() - i,
    {
        proof {
            assert(numv.take(i + 1).drop_last() =~= numv.take(i as int));
            assert(numv.take(i + 1).last() == (nums[i as int].0, nums[i as int].1, nums[i as int].2@));
        }
        let (at, found) = place(&files, nums[i].2.as_str());
        if found {
            let mut f = files[at].clone();
            f.added = nums[i].0;
            f.removed = nums[i].1;
            put(&mut files, f);
        }
        i += 1;
    }
    assert(numv.take(i as int) =~= numv);
    let ghost m2 = counted(m1, numv);
    let ghost uv = untracked_views(untracked@);
    i = 0;
    assert(uv.take(0) =~= Seq::empty());
    while i < untracked.len()
        invariant
            i <= untracked.len(),
            untracked_views(untracked@) == uv,
            tabulates(files@, with_untracked(m2, uv.take(i as int))),
        decreases untracked.len() - i,
    {
        proof {
            assert(uv.take(i + 1).drop_last() =~= uv.take(i as int));
            assert(uv.take(i + 1).last() == (untracked[i as int].0@, untracked[i as int].1));
        }
        let lines = untracked[i].1;
        let removed: Option<u32> = match lines {
            Some(_) => Some(0),
            None => None,
        };
        put(
            &mut files,
            FileChange {
                path: untracked[i].0.clone(),
                status: Status::Untracked,
                added: lines,
                removed,
                index: '?',
                worktree: '?',
            },
        );
        i += 1;
    }
    assert(uv.take(i as int) =~= uv);
    let ghost m3 = with_untracked(m2, uv);
    let ghost sv = state_views(sts@);
    i = 0;
    assert(sv.take(0) =~= Seq::empty());
    while i < sts.len()
        invariant
            i <= sts.len(),
            state_views(sts@) == sv,
            tabulates(files@, with_states(m3, sv.take(i as int))),
        decreases sts.len() - i,
    {
        proof {
            assert(sv.take(i + 1).drop_last() =~= sv.take(i as int));
            assert(sv.take(i + 1).last() == (sts[i as int].0, sts[i as int].1, sts[i as int].2@));
        }
        let (at, found) = place(&files, sts[i].2.as_str());
        if found {
            let mut f = files[at].clone();
            f.index = sts[i].0;
            f.worktree = sts[i].1;
            put(&mut files, f);
        }
        i += 1;
    }
    assert(sv.take(i as int) =~= sv);
    files
}

/// There is one way to list the entries of a table: two lists of the same one hold the same
/// files in the same order.
pub proof fn law_file_list_is_determined(a: Seq<FileChange>, b: Seq<FileChange>, m: Table)
    requires
        tabulates(a, m),
        tabulates(b, m),
    ensures
        a.len() == b.len(),
        forall|i: int| 0 <= i < a.len() ==> (#[trigger] a[i])@ == b[i]@,
{
    lemma_lists_agree(a, b, m, a.len() as int);
    lemma_lists_agree(b, a, m, b.len() as int);
}

/// The first `n` entries of one list of a table are those of any other.
proof fn lemma_lists_agree(a: Seq<FileChange>, b: Seq<FileChange>, m: Table, n: int)
    requires
        tabulates(a, m),
        tabulates(b, m),
        0 <= n <= a.len(),
    ensures
        n <= b.len(),
        forall|i: int| 0 <= i < n ==> (#[trigger] a[i])@ == b[i]@,
    decreases n,
{
    if n > 0 {
        let k = n - 1;
        lemma_lists_agree(a, b, m, k);
        let p = a[k].path@;
        assert(m.contains_key(p));
        assert(lists(b, p));
        let j = choose|j: int| 0 <= j < b.len() && (#[trigger] b[j]).path@ == p;
        crate::text::lemma_before_total(p, p);
        if j < k {
            assert(a[j]@ == b[j]@);
            assert(crate::text::before(a[j].path@, a[k].path@));
        }
        if j > k {
            let q = b[k].path@;
            assert(m.contains_key(q));
            assert(lists(a, q));
            let i = choose|i: int| 0 <= i < a.len() && (#[trigger] a[i]).path@ == q;
            assert(crate::text::before(b[k].path@, b[j].path@));
            if i < k {
                assert(a[i]@ == b[i]@);
                assert(crate::text::before(b[i].path@, b[k].path@));
                crate::text::lemma_before_total(q, q);
            } else if i > k {
                assert(crate::text::before(a[k].path@, a[i].path@));
                crate::text::lemma_before_transitive(p, q, p);
            }
        }
        assert(j == k);
    }
}

/// No entry is an untracked file.
pub open spec fn all_tracked(m: Table) -> bool {
    forall|p: Seq<char>| #[trigger] m.contains_key(p) ==> m[p].status != Status::Untracked
}

proof fn lemma_listed_tracked(recs: Seq<Seq<char>>, n: int)
    requires
        0 <= n <= name_statuses(recs).len(),
    ensures
        all_tracked(listed(name_statuses(recs).take(n))),
    decreases n,
{
    let ns = name_statuses(recs);
    if n > 0 {
        lemma_listed_tracked(recs, n - 1);
        assert(ns.take(n).drop_last() =~= ns.take(n - 1));
    }
}

proof fn lemma_counted_tracked(m: Table, nums: Seq<(Option<u32>, Option<u32>, Seq<char>)>)
    requires
        all_tracked(m),
    ensures
        all_tracked(counted(m, nums)),
    decreases nums.len(),
{
    if nums.len() > 0 {
        lemma_counted_tracked(m, nums.drop_last());
    }
}

proof fn lemma_state_tracked(m: Table, index: char, worktree: char, path: Seq<char>)
    requires
        all_tracked(m),
    ensures
        all_tracked(with_state(m, (index, worktree, path))),
{
}

proof fn lemma_states_tracked(m: Table, sts: Seq<(char, char, Seq<char>)>)
    requires
        all_tracked(m),
    ensures
        all_tracked(with_states(m, sts)),
    decreases sts.len(),
{
    if sts.len() > 0 {
        lemma_states_tracked(m, sts.drop_last());
        let (index, worktree, path) = sts.last();
        lemma_state_tracked(with_states(m, sts.drop_last()), index, worktree, path);
    }
}

/// Where the untracked files are left out, as they are in staged mode, no file of the list is
/// one.
pub proof fn law_untracked_files_come_from_their_list(
    files: Seq<FileChange>,
    name_status: Seq<u8>,
    numstat: Seq<u8>,
    porcelain: Seq<u8>,
)
    requires
        tabulates(files, table(name_status, numstat, Seq::empty(), porcelain)),
    ensures
        forall|i: int|
            0 <= i < files.len() ==> (#[trigger] files[i]).status != Status::Untracked,
{
    let recs = records(name_status);
    let ns = name_statuses(recs);
    lemma_listed_tracked(recs, ns.len() as int);
    assert(ns.take(ns.len() as int) =~= ns);
    lemma_counted_tracked(listed(ns), numstats(records(numstat)));
    let m = counted(listed(ns), numstats(records(numstat)));
    lemma_states_tracked(with_untracked(m, Seq::empty()), states(records(porcelain)));
}

/// Number of entries with something in the index.
pub open spec fn staged_entries(sts: Seq<(char, char, Seq<char>)>) -> nat
    decreases sts.len(),
{
    if sts.len() == 0 {
        0
    } else {
        let c = sts.last().0;
        staged_entries(sts.drop_last()) + (if c != ' ' && c != '?' { 1nat } else { 0nat })
    }
}

/// Count the files with something in the index.
pub fn count_staged(porcelain: &[u8]) -> (r: usize)
    ensures
        r == staged_entries(states(records(porcelain@))),
{
    staged_in(&parse_states(porcelain))
}

/// Count the entries with something in the index.
pub fn staged_in(sts: &[(char, char, String)]) -> (r: usize)
    ensures
        r == staged_entries(state_views(sts@)),
{
    let ghost sv = state_views(sts@);
    let mut n: usize = 0;
    let mut i: usize = 0;
    while i < sts.len()
        invariant
            n <= i <= sts.len(),
            state_views(sts@) == sv,
            n == staged_entries(sv.take(i as int)),
        decreases sts.len() - i,
    {
        proof {
            assert(sv.take(i + 1).drop_last() =~= sv.take(i as int));
            assert(sv.take(i + 1).last().0 == sts[i as int].0);
        }
        if sts[i].0 != ' ' && sts[i].0 != '?' {
            n += 1;
        }
        i += 1;
    }
    assert(sv.take(i as int) =~= sv);
    n
}

// ---------------------------------------------------------------------------------------
// Line counts

/// Number of newlines.
pub open spec fn newlines(data: Seq<u8>) -> nat
    decreases data.len(),
{
    if data.len() == 0 {
        0
    } else {
        newlines(data.drop_last()) + (if data.last() == 10u8 { 1nat } else { 0nat })
    }
}

/// Number of lines; a last line without a newline counts.
pub open spec fn line_total(data: Seq<u8>) -> nat {
    newlines(data) + (if data.len() > 0 && data.last() != 10u8 { 1nat } else { 0nat })
}

/// `r` is the line count of `data`, none where they hold a NUL.
pub open spec fn text_lines(data: Seq<u8>, r: Option<u32>) -> bool {
    if data.contains(0u8) {
        r is None
    } else {
        r == Some((line_total(data) % 0x1_0000_0000) as u32)
    }
}

/// Line count of a file's contents; `None` where they hold a NUL and so are no text.
/// Counts wrap around past the largest `u32`.
pub fn count_lines(data: &[u8]) -> (r: Option<u32>)
    ensures
        text_lines(data@, r),
{
    let mut n: u32 = 0;
    let mut i: usize = 0;
    while i < data.len()
        invariant
            i <= data.len(),
            n == newlines(data@.take(i as int)) % 0x1_0000_0000,
            forall|j: int| 0 <= j < i ==> data[j] != 0,
        decreases data.len() - i,
    {
        proof {
            assert(data@.take(i + 1).drop_last() =~= data@.take(i as int));
        }
        if data[i] == 0 {
            assert(data@[i as int] == 0u8);
            return None;
        }
        if data[i] == 10 {
            n = n.wrapping_add(1);
        }
        i += 1;
    }
    proof {
        assert(data@.take(i as int) =~= data@);
    }
    if data.len() > 0 && data[data.len() - 1] != 10 {
        n = n.wrapping_add(1);
    }
    Some(n)
}

/// `r` may be the line count of a file: `meta` tells whether it is a plain file and how many
/// bytes it has, `read` hands over its contents.
pub open spec fn file_lines<R: Fn() -> Option<Vec<u8>>>(
    meta: Option<(bool, u64)>,
    read: R,
    r: Option<u32>,
) -> bool {
    match meta {
        Some((true, bytes)) if bytes <= MAX_UNTRACKED_BYTES => exists|data: Option<Vec<u8>>|
            #[trigger] call_ensures(read, (), data) && match data {
                Some(d) => text_lines(d@, r),
                None => r is None,
            },
        _ => r is None,
    }
}

/// Line count of a text file; `None` for binary or huge files.
pub fn count_file<R: Fn() -> Option<Vec<u8>>>(meta: Option<(bool, u64)>, read: &R) -> (r: Option<
    u32,
>)
    requires
        call_requires(*read, ()),
    ensures
        file_lines(meta, *read, r),
{
    match meta {
        Some((is_file, bytes)) => {
            if !is_file || bytes > MAX_UNTRACKED_BYTES {
                return None;
            }
            match read() {
                Some(data) => count_lines(data.as_slice()),
                None => None,
            }
        },
        None => None,
    }
}

} // verus!
