//! What the calls of the library return and change, for every input: how two calls relate, and
//! that they return what the other laws speak of.

use vstd::prelude::*;
use vstd::string::*;

use crate::diff::{
    hunk_above, hunk_from, hunk_header, hunk_index, hunk_start, kinds, line_views,
    parse_hunk_header, parse_unified, parsed, DiffLine, LineKind, Row, Rows,
};
use crate::git::{FileChange, GitError, Mode, Output, RepoStats, Status};
use crate::git_output::{
    count_file, count_lines, count_staged, file_table, line_total, name_statuses, newlines,
    numstat_views, numstats, numstats_of, parse_name_status, parse_numstat, parse_states, records,
    split_z, staged_entries, staged_in, state_views, states, states_of, status_views, statuses_of,
    tabulate, untracked_views,
};
use crate::git_run::{
    base_found, base_rev, branch_found, branch_name, default_branch, diff_args, diff_found,
    file_diff, has_head, ran, repo_root, repo_stats, run, run_str, stats_found,
};
use crate::highlight::{
    highlight_views, opt_spans, spans, spans_of, theme_names, theme_place, Highlighter, Highlights,
    HlSpan, Piece,
};
use crate::laws_diff::{
    law_hunk_lines_are_numbered_from_their_header, law_replaced_lines_are_paired, new_lines,
    old_lines, one_hunk, replaced_lines, side_by_side,
};
use crate::laws_git::{adds_up, law_staged_files_are_counted, law_tracked_files_have_gits_counts};
use crate::laws_highlight::{
    law_lines_are_read_in_their_version, law_removed_lines_are_those_of_the_old_version,
    law_turned_diffs_swap_the_versions, old_alone, shown_as, swapped, version,
};
use crate::laws_repo::{
    answers_as, has_revision, law_only_staged_mode_reads_the_index, prints, reply, succeeds,
};
use crate::text::{before, lines, opt_view, views};

verus! {

// ---------------------------------------------------------------------------------------
// Highlighting

proof fn lemma_highlights(h: Highlighter, path: &str, ls: &[DiffLine], r: Highlights, i: int)
    requires
        call_ensures(Highlighter::highlight, (&h, path, ls), r),
        0 <= i < ls@.len(),
    ensures
        r@.len() == ls@.len(),
        opt_spans(r@[i]) == crate::highlight::highlighted(h, path@, ls@)[i],
{
    let v = highlight_views(r@);
    assert(v.len() == r@.len());
    assert(v[i] == opt_spans(r@[i]));
}

/// Highlighting the old version of a diff alone, without the added lines and with the removed
/// ones as lines that stay, gives each removed line the spans that it has in the whole diff.
pub proof fn law_old_version_alone_gives_the_same_spans(
    h: Highlighter,
    path: &str,
    whole: &[DiffLine],
    a: Highlights,
    alone: &[DiffLine],
    b: Highlights,
    i: int,
)
    requires
        call_ensures(Highlighter::highlight, (&h, path, whole), a),
        call_ensures(Highlighter::highlight, (&h, path, alone), b),
        alone@ == old_alone(whole@),
        whole@.len() <= 10_000,
        0 <= i < whole@.len(),
        whole@[i].kind == LineKind::Removed,
    ensures
        ({
            let k = old_alone(whole@.take(i)).len() as int;
            &&& 0 <= k < alone@.len()
            &&& alone@[k].text == whole@[i].text
            &&& opt_spans(a@[i]) == opt_spans(b@[k])
        }),
{
    law_removed_lines_are_those_of_the_old_version(h, path@, whole@, i);
    let k = old_alone(whole@.take(i)).len() as int;
    lemma_highlights(h, path, whole, a, i);
    lemma_highlights(h, path, alone, b, k);
}

/// Turning a diff round, so that what was removed is added, gives each added and each removed
/// line the spans that it had.
pub proof fn law_turned_diff_gives_the_same_spans(
    h: Highlighter,
    path: &str,
    lines: &[DiffLine],
    a: Highlights,
    turned: &[DiffLine],
    b: Highlights,
    i: int,
)
    requires
        call_ensures(Highlighter::highlight, (&h, path, lines), a),
        call_ensures(Highlighter::highlight, (&h, path, turned), b),
        turned@ == swapped(lines@),
        0 <= i < lines@.len(),
        lines@[i].kind == LineKind::Removed || lines@[i].kind == LineKind::Added,
    ensures
        opt_spans(a@[i]) == opt_spans(b@[i]),
{
    law_turned_diffs_swap_the_versions(h, path@, lines@, i);
    lemma_highlights(h, path, lines, a, i);
    lemma_highlights(h, path, turned, b, i);
}

/// A removed line gets the spans that the highlighter makes of it behind every line of its hunk
/// that stays or is removed, an added one, or one that stays, those that it makes of it behind
/// every line that stays or is added. `start` is where the hunk starts.
pub proof fn law_spans_follow_each_version(
    h: Highlighter,
    path: &str,
    ls: &[DiffLine],
    r: Highlights,
    syntax: syntect::parsing::SyntaxReference,
    start: int,
    i: int,
)
    requires
        call_ensures(Highlighter::highlight, (&h, path, ls), r),
        crate::laws_highlight::hunk_start(ls@, start, i),
        ls@.len() <= 10_000,
        crate::highlight::syntax_of(h.definitions(), path@) == Some(syntax),
        vstd::utf8::encode_utf8(ls@[i].text@).len() <= 2000,
        ls@[i].kind == LineKind::Removed || ls@[i].kind == LineKind::Added || ls@[i].kind
            == LineKind::Context,
    ensures
        r@.len() == ls@.len(),
        opt_spans(r@[i]) == shown_as(
            syntax,
            h.colors(),
            version(
                h.definitions(),
                ls@.subrange(start, i + 1),
                if ls@[i].kind == LineKind::Removed {
                    LineKind::Removed
                } else {
                    LineKind::Added
                },
            ),
        ),
{
    law_lines_are_read_in_their_version(h, path@, syntax, ls@, start, i);
    lemma_highlights(h, path, ls, r, i);
}

/// Styled stretches become spans one by one; the list of themes is that of their names.
pub proof fn law_stretches_become_spans(pieces: Vec<Piece>, r: Vec<HlSpan>)
    requires
        call_ensures(spans_of, (&pieces,), r),
    ensures
        r@.map_values(|s: HlSpan| s@) == spans(pieces@.map_values(|p: Piece| p@)),
{
}

/// A highlighter has the theme that was asked for, in any case; where there is none of that
/// name, the error lists those there are.
pub proof fn law_highlighters_have_their_theme(
    name: &str,
    names: Vec<String>,
    r: Result<Highlighter, String>,
)
    requires
        call_ensures(Highlighter::new, (name,), r),
        call_ensures(theme_names, (), names),
    ensures
        match theme_place(views(names@), name@) {
            Some(i) => r is Ok && r->Ok_0.colors() == crate::highlight::bundled_theme(i),
            None => r matches Err(e) && e@ == "unknown theme "@ + crate::highlight::quoted(name@)
                + "; available: "@ + crate::text::join(views(names@), ", "@),
        },
{
}

// ---------------------------------------------------------------------------------------
// Diffs

proof fn lemma_parsed(input: &str, r: Vec<DiffLine>)
    requires
        call_ensures(parse_unified, (input,), r),
    ensures
        r@.len() == parsed(input@).len(),
        forall|i: int| 0 <= i < r@.len() ==> (#[trigger] r@[i])@ == parsed(input@)[i],
{
    assert(line_views(r@).len() == r@.len());
    assert forall|i: int| 0 <= i < r@.len() implies (#[trigger] r@[i])@ == parsed(input@)[i] by {
        assert(line_views(r@)[i] == r@[i]@);
    }
}

/// Each line of the text is one line of the diff. The lines of a hunk are numbered from the
/// starts that its header names, whatever stands above that header: a line of the old version by
/// the lines of the old version above it in the hunk, one of the new version by those of the new
/// one.
pub proof fn law_headers_number_their_hunks(
    input: &str,
    r: Vec<DiffLine>,
    h: int,
    o: u32,
    n: u32,
    j: int,
)
    requires
        call_ensures(parse_unified, (input,), r),
        0 <= h < j < r@.len(),
        "@@"@.is_prefix_of(lines(input@)[h]),
        hunk_header(lines(input@)[h]) == Some((o, n)),
        one_hunk(input@, h, j),
    ensures
        r@.len() == lines(input@).len(),
        ({
            let views = line_views(r@);
            let l = r@[j];
            let old_no = (o + old_lines(views, h + 1, j)) % 0x1_0000_0000;
            let new_no = (n + new_lines(views, h + 1, j)) % 0x1_0000_0000;
            &&& l.kind == LineKind::Context ==> l.old_no == Some(old_no as u32) && l.new_no == Some(
                new_no as u32,
            )
            &&& l.kind == LineKind::Removed ==> l.old_no == Some(old_no as u32) && l.new_no is None
            &&& l.kind == LineKind::Added ==> l.new_no == Some(new_no as u32) && l.old_no is None
        }),
{
    lemma_parsed(input, r);
    assert(r@[h]@ == parsed(input@)[h]);
    crate::laws_diff::law_headers_start_hunks(input@, h);
    law_hunk_lines_are_numbered_from_their_header(input@, h, o, n, j);
    assert(r@[j]@ == parsed(input@)[j]);
}

/// What a diff is read as, line by line, and what a header names.
pub proof fn law_diffs_are_read(
    input: &str,
    r: Vec<DiffLine>,
    i: int,
    header: &str,
    starts: Option<(u32, u32)>,
)
    requires
        call_ensures(parse_unified, (input,), r),
        call_ensures(parse_hunk_header, (header,), starts),
    ensures
        r@.len() == parsed(input@).len(),
        0 <= i < r@.len() ==> r@[i]@ == parsed(input@)[i],
        starts == hunk_header(header@),
{
    lemma_parsed(input, r);
}

/// Lines that were removed share their rows, one by one from the first, with the lines that were
/// added right behind them, whichever of the two runs is longer, and the two runs take as many
/// rows as the longer one. Lines `a..b` were removed and lines `b..c` added.
pub proof fn law_replaced_lines_share_rows(
    ls: &[DiffLine],
    r: Rows,
    a: int,
    b: int,
    c: int,
)
    requires
        call_ensures(Rows::split, (ls,), r),
        replaced_lines(kinds(ls@), a, b, c),
        ls@.len() <= usize::MAX,
    ensures
        forall|k: int|
            #![trigger r.line_row@[a + k]]
            0 <= k < b - a && k < c - b ==> r.line_row@[a + k] == r.line_row@[b + k],
        forall|k: int| 0 <= k < b - a ==> #[trigger] r.line_row@[a + k] == r.line_row@[a] + k,
        forall|k: int|
            0 <= k < c - b ==> #[trigger] r.line_row@[b + k] == (if b > a {
                r.line_row@[a] + k
            } else {
                r.line_row@[b] + k
            }),
        c < ls@.len() ==> r.line_row@[c] == r.line_row@[if b > a {
            a
        } else {
            b
        }] + (if b - a >= c - b {
            b - a
        } else {
            c - b
        }),
        side_by_side(ls@, r.rows@, r.line_row@),
{
    law_replaced_lines_are_paired(ls@, r.rows@, r.line_row@, a, b, c);
}

/// In the other layout each line has a row of its own.
pub proof fn law_unified_rows_are_the_lines(ls: &[DiffLine], r: Rows, none: Rows, i: int)
    requires
        call_ensures(Rows::unified, (ls,), r),
        call_ensures(Rows::empty, (), none),
        ls@.len() <= usize::MAX,
    ensures
        r.rows@.len() == ls@.len(),
        r.line_row@.len() == ls@.len(),
        0 <= i < ls@.len() ==> r.rows@[i] == Row::Full(i as usize) && r.line_row@[i] == i,
        none.rows@.len() == 0,
        none.line_row@.len() == 0,
{
    if 0 <= i < ls@.len() {
        assert(r.rows@[i].holds(i));
    }
}

/// The hunk header at or below a line, above a line, and at or above it, are the nearest ones,
/// and a hunk's number is how many headers stand above its own.
pub proof fn law_headers_are_the_nearest(
    ls: &[DiffLine],
    at: usize,
    below: Option<usize>,
    above: Option<usize>,
    top: Option<usize>,
    index: usize,
)
    requires
        call_ensures(hunk_from, (ls, at), below),
        call_ensures(hunk_above, (ls, at), above),
        call_ensures(hunk_start, (ls, at), top),
        at <= ls@.len() ==> call_ensures(hunk_index, (ls, at), index),
    ensures
        match below {
            Some(k) => at <= k < ls@.len() && ls@[k as int].kind == LineKind::Hunk && forall|j: int|
                at <= j < k ==> (#[trigger] ls@[j]).kind != LineKind::Hunk,
            None => forall|j: int|
                at <= j < ls@.len() ==> (#[trigger] ls@[j]).kind != LineKind::Hunk,
        },
        match above {
            Some(k) => k < at && k < ls@.len() && ls@[k as int].kind == LineKind::Hunk && forall|
                j: int,
            |
                k < j < at && j < ls@.len() ==> (#[trigger] ls@[j]).kind != LineKind::Hunk,
            None => forall|j: int|
                0 <= j < at && j < ls@.len() ==> (#[trigger] ls@[j]).kind != LineKind::Hunk,
        },
        match top {
            Some(k) => k <= at && k < ls@.len() && ls@[k as int].kind == LineKind::Hunk && forall|
                j: int,
            |
                k < j <= at && j < ls@.len() ==> (#[trigger] ls@[j]).kind != LineKind::Hunk,
            None => forall|j: int|
                0 <= j <= at && j < ls@.len() ==> (#[trigger] ls@[j]).kind != LineKind::Hunk,
        },
        at <= ls@.len() ==> index == ls@.take(at as int).filter(
            |l: DiffLine| l.kind == LineKind::Hunk,
        ).len(),
{
    crate::laws_keys::lemma_next(ls@, at as int);
    crate::laws_keys::lemma_prev(ls@, at as int);
    crate::laws_keys::lemma_prev(ls@, at + 1);
    if at <= ls@.len() {
        crate::laws_diff::law_hunks_are_counted(ls@, at as int);
    }
}

// ---------------------------------------------------------------------------------------
// Git's answers

/// The file list is in the order of the paths, each path once, and a tracked file in it has the
/// counts of the last record about it, whatever its status: `k` is that record.
pub proof fn law_counts_are_those_of_git(
    ns: &[(Status, String)],
    nums: &[(Option<u32>, Option<u32>, String)],
    untracked: &[(String, Option<u32>)],
    sts: &[(char, char, String)],
    r: Vec<FileChange>,
    i: int,
    k: int,
)
    requires
        call_ensures(tabulate, (ns, nums, untracked, sts), r),
        0 <= i < r@.len(),
    ensures
        adds_up(
            status_views(ns@),
            numstat_views(nums@),
            untracked_views(untracked@),
            state_views(sts@),
            r@,
        ),
        forall|a: int, b: int|
            0 <= a < b < r@.len() ==> before((#[trigger] r@[a]).path@, (#[trigger] r@[b]).path@),
        (forall|j: int| 0 <= j < untracked@.len() ==> (#[trigger] untracked@[j]).0@ != r@[i].path@)
            && 0 <= k < nums@.len() && nums@[k].2@ == r@[i].path@ && (forall|j: int|
            k < j < nums@.len() ==> (#[trigger] nums@[j]).2@ != r@[i].path@) ==> r@[i].added
            == nums@[k].0 && r@[i].removed == nums@[k].1,
{
    let u = untracked_views(untracked@);
    let n = numstat_views(nums@);
    if (forall|j: int| 0 <= j < untracked@.len() ==> (#[trigger] untracked@[j]).0@ != r@[i].path@)
        && 0 <= k < nums@.len() && nums@[k].2@ == r@[i].path@ && (forall|j: int|
        k < j < nums@.len() ==> (#[trigger] nums@[j]).2@ != r@[i].path@) {
        assert forall|j: int| 0 <= j < u.len() implies (#[trigger] u[j]).0 != r@[i].path@ by {
            assert(untracked@[j].0@ != r@[i].path@);
        }
        assert forall|j: int| k < j < n.len() implies (#[trigger] n[j]).2 != r@[i].path@ by {
            assert(nums@[j].2@ != r@[i].path@);
        }
        law_tracked_files_have_gits_counts(
            status_views(ns@),
            n,
            u,
            state_views(sts@),
            r@,
            i,
            0,
            k,
        );
    }
}

/// What git prints is read record by record.
pub proof fn law_answers_are_read_by_record(
    buf: &[u8],
    recs: Vec<String>,
    ns: Vec<(Status, String)>,
    nums: Vec<(Option<u32>, Option<u32>, String)>,
    sts: Vec<(char, char, String)>,
    staged: usize,
)
    requires
        call_ensures(split_z, (buf,), recs),
        call_ensures(parse_name_status, (buf,), ns),
        call_ensures(parse_numstat, (buf,), nums),
        call_ensures(parse_states, (buf,), sts),
        call_ensures(count_staged, (buf,), staged),
    ensures
        views(recs@) == records(buf@),
        ns@.map_values(|p: (Status, String)| (p.0, p.1@)) == name_statuses(records(buf@)),
        nums@.map_values(|p: (Option<u32>, Option<u32>, String)| (p.0, p.1, p.2@)) == numstats(
            records(buf@),
        ),
        sts@.map_values(|p: (char, char, String)| (p.0, p.1, p.2@)) == states(records(buf@)),
        staged == states(records(buf@)).filter(
            |s: (char, char, Seq<char>)| s.0 != ' ' && s.0 != '?',
        ).len(),
{
    law_staged_files_are_counted(states(records(buf@)));
}

/// Records that are at hand are read as those in what git prints.
pub proof fn law_records_are_read_alike(
    parts: &[String],
    ns: Vec<(Status, String)>,
    nums: Vec<(Option<u32>, Option<u32>, String)>,
    sts: Vec<(char, char, String)>,
    given: &[(char, char, String)],
    staged: usize,
)
    requires
        call_ensures(statuses_of, (parts,), ns),
        call_ensures(numstats_of, (parts,), nums),
        call_ensures(states_of, (parts,), sts),
        call_ensures(staged_in, (given,), staged),
    ensures
        ns@.map_values(|p: (Status, String)| (p.0, p.1@)) == name_statuses(views(parts@)),
        nums@.map_values(|p: (Option<u32>, Option<u32>, String)| (p.0, p.1, p.2@)) == numstats(
            views(parts@),
        ),
        sts@.map_values(|p: (char, char, String)| (p.0, p.1, p.2@)) == states(views(parts@)),
        staged == given@.filter(|s: (char, char, String)| s.0 != ' ' && s.0 != '?').len(),
{
    law_staged_files_are_counted(state_views(given@));
    lemma_staged(given@);
}

proof fn lemma_staged(v: Seq<(char, char, String)>)
    ensures
        staged_entries(state_views(v)) == v.filter(
            |s: (char, char, String)| s.0 != ' ' && s.0 != '?',
        ).len(),
    decreases v.len(),
{
    reveal(Seq::filter);
    if v.len() > 0 {
        lemma_staged(v.drop_last());
        assert(state_views(v).drop_last() =~= state_views(v.drop_last()));
        assert(state_views(v).last().0 == v.last().0);
    }
}

/// The file list of git's whole answers.
pub proof fn law_answers_add_up(
    names: &[u8],
    counts: &[u8],
    untracked: &[(String, Option<u32>)],
    status: &[u8],
    r: Vec<FileChange>,
)
    requires
        call_ensures(file_table, (names, counts, untracked, status), r),
    ensures
        adds_up(
            name_statuses(records(names@)),
            numstats(records(counts@)),
            untracked@.map_values(|p: (String, Option<u32>)| (p.0@, p.1)),
            states(records(status@)),
            r@,
        ),
{
}

/// The lines of a text are its newlines, and what stands behind the last one where that is not
/// empty. What holds a NUL is no text.
pub proof fn law_lines_of_texts_are_counted(data: &[u8], r: Option<u32>)
    requires
        call_ensures(count_lines, (data,), r),
    ensures
        data@.contains(0u8) ==> r is None,
        !data@.contains(0u8) ==> {
            let n = data@.filter(|b: u8| b == 10u8).len();
            let m = if data@.len() > 0 && data@.last() != 10u8 {
                n + 1
            } else {
                n
            };
            r == Some((m % 0x1_0000_0000) as u32)
        },
{
    crate::laws_git::law_newlines_are_counted(data@);
}

/// Only a file of at most two mebibytes is read to count its lines.
pub proof fn law_large_files_are_not_counted<R: Fn() -> Option<Vec<u8>>>(
    meta: Option<(bool, u64)>,
    read: R,
    data: Option<Vec<u8>>,
    r: Option<u32>,
)
    requires
        call_ensures(count_file::<R>, (meta, &read), r),
        forall|d: Option<Vec<u8>>| #[trigger] call_ensures(read, (), d) ==> d == data,
    ensures
        ({
            let counted = (meta matches Some((is_file, bytes)) && is_file && bytes <= 2_097_152)
                && data is Some;
            &&& !counted ==> r is None
            &&& counted && data->0@.contains(0u8) ==> r is None
            &&& counted && !data->0@.contains(0u8) ==> r == Some(
                (line_total(data->0@) % 0x1_0000_0000) as u32,
            )
        }),
{
}

// ---------------------------------------------------------------------------------------
// Asking git

/// The arguments that select what to compare: the index in staged mode and only there, and the
/// base where there is one.
pub proof fn law_modes_select_what_is_compared(mode: Mode, base: Option<String>, r: Vec<String>)
    requires
        call_ensures(diff_args, (mode, &base), r),
    ensures
        mode == Mode::Staged && base is Some ==> views(r@) == seq![
            "diff"@,
            "--no-ext-diff"@,
            "--no-renames"@,
            "--cached"@,
            base->0@,
        ],
        mode == Mode::Staged && base is None ==> views(r@) == seq![
            "diff"@,
            "--no-ext-diff"@,
            "--no-renames"@,
            "--cached"@,
        ],
        mode != Mode::Staged && base is Some ==> views(r@) == seq![
            "diff"@,
            "--no-ext-diff"@,
            "--no-renames"@,
            base->0@,
        ],
        mode != Mode::Staged && base is None ==> views(r@) == seq![
            "diff"@,
            "--no-ext-diff"@,
            "--no-renames"@,
        ],
        base is None || base->0@ != "--cached"@ ==> (views(r@).contains("--cached"@) <==> mode
            == Mode::Staged),
{
    if base is None || base->0@ != "--cached"@ {
        law_only_staged_mode_reads_the_index(mode, opt_view(base));
    } else if mode == Mode::Staged {
        assert(views(r@) =~= seq![
            "diff"@,
            "--no-ext-diff"@,
            "--no-renames"@,
            "--cached"@,
            base->0@,
        ]);
    } else {
        assert(views(r@) =~= seq!["diff"@, "--no-ext-diff"@, "--no-renames"@, base->0@]);
    }
}

/// A directory that is none is in no repo; of any other it is asked. The names of branches, the
/// base and the default branch are those found by asking.
pub proof fn law_repos_are_asked<F: Fn(&Vec<String>) -> Result<Output, String>>(
    git: F,
    script: spec_fn(Seq<Seq<char>>) -> Output,
    is_dir: bool,
    root: Option<String>,
    branch: String,
    head: bool,
    default: Option<String>,
    mode: Mode,
    base: (Option<String>, String),
)
    requires
        answers_as(git, script),
        call_ensures(repo_root::<F>, (is_dir, &git), root),
        call_ensures(branch_name::<F>, (&git,), branch),
        call_ensures(has_head::<F>, (&git,), head),
        call_ensures(default_branch::<F>, (&git,), default),
        call_ensures(base_rev::<F>, (&git, mode), base),
    ensures
        !is_dir ==> root is None,
        is_dir ==> opt_view(root) == reply(script, seq!["rev-parse"@, "--show-toplevel"@]),
        branch_found(git, branch@),
        head == has_revision(script, "HEAD"@),
        opt_view(default) == crate::laws_repo::main_branch(script),
        base_found(git, mode, (opt_view(base.0), base.1@)),
{
    if is_dir {
        crate::laws_repo::law_root_is_the_top_level(git, script, opt_view(root));
    }
    crate::laws_repo::lemma_verified(git, script, "HEAD"@, head);
    crate::laws_repo::law_default_branch(git, script, opt_view(default));
}

/// A command's output is taken as it is, or as text without the white space around it, where the
/// command succeeded.
pub proof fn law_commands_are_run<F: Fn(&Vec<String>) -> Result<Output, String>>(
    git: F,
    script: spec_fn(Seq<Seq<char>>) -> Output,
    args: Vec<String>,
    ok: &[i32],
    out: Result<Vec<u8>, GitError>,
    text: Result<String, GitError>,
)
    requires
        answers_as(git, script),
        call_ensures(run::<F>, (&git, &args, ok), out),
        call_ensures(run_str::<F>, (&git, &args), text),
    ensures
        ran(git, views(args@), ok@, out),
        out matches Ok(bytes) ==> bytes == script(views(args@)).stdout,
        text is Ok <==> succeeds(script, views(args@)),
        text matches Ok(s) ==> s@ == prints(script, views(args@)),
{
    crate::laws_repo::law_exit_codes_decide(git, script, views(args@), ok@, out);
    crate::laws_repo::lemma_reply(git, script, views(args@), text);
}

/// The state of a repo and the diff of a file are those found by asking git.
pub proof fn law_stats_and_diffs_are_asked_for<
    F: Fn(&Vec<String>) -> Result<Output, String>,
    C: Fn(&String) -> Option<u32>,
>(
    git: F,
    count: C,
    mode: Mode,
    file: FileChange,
    stats: Result<RepoStats, GitError>,
    diff: Result<String, GitError>,
)
    requires
        call_ensures(repo_stats::<F, C>, (&git, &count, mode), stats),
        call_ensures(file_diff::<F>, (&git, mode, &file), diff),
    ensures
        stats_found(git, count, mode, stats),
        diff_found(git, mode, file, diff),
{
}

} // verus!
