//! What holds of parsed diffs and of the rows they are laid out in.

use vstd::prelude::*;
use vstd::string::*;

use crate::diff::{
    cursor, expanded, hunk_header, hunks_above, kinds, lays_out, line_of, moved, next_hunk, paired,
    parsed, prev_hunk, run_end, split_rows, succ, Cursor, DiffLine, LineKind, LineView, Row,
};
use crate::text::lines;

verus! {

// ---------------------------------------------------------------------------------------
// Line numbers

/// Lines from `i` up to `j` that the old version of the file has.
pub open spec fn old_lines(r: Seq<LineView>, i: int, j: int) -> nat
    decreases j - i,
{
    if i >= j {
        0
    } else {
        old_lines(r, i, j - 1) + (if r[j - 1].kind == LineKind::Context || r[j - 1].kind
            == LineKind::Removed {
            1nat
        } else {
            0nat
        })
    }
}

/// Lines from `i` up to `j` that the new version of the file has.
pub open spec fn new_lines(r: Seq<LineView>, i: int, j: int) -> nat
    decreases j - i,
{
    if i >= j {
        0
    } else {
        new_lines(r, i, j - 1) + (if r[j - 1].kind == LineKind::Context || r[j - 1].kind
            == LineKind::Added {
            1nat
        } else {
            0nat
        })
    }
}

/// The lines strictly between `h` and `j` belong to the hunk that starts at `h`: there is
/// nothing among them that ends a hunk, and no other header that can be read.
pub open spec fn one_hunk(input: Seq<char>, h: int, j: int) -> bool {
    forall|k: int|
        h < k < j ==> (#[trigger] parsed(input)[k]).kind != LineKind::Meta && (parsed(input)[k].kind
            == LineKind::Hunk ==> hunk_header(lines(input)[k]) is None)
}

/// `d` is where the parser is behind a line of a hunk, once it was at `c`.
spec fn stepped(kind: LineKind, c: Cursor, d: Cursor) -> bool {
    &&& d.in_hunk
    &&& d.old_no == (if kind == LineKind::Context || kind == LineKind::Removed {
        succ(c.old_no)
    } else {
        c.old_no
    })
    &&& d.new_no == (if kind == LineKind::Context || kind == LineKind::Added {
        succ(c.new_no)
    } else {
        c.new_no
    })
}

proof fn lemma_moved_in_hunk(c: Cursor, raw: Seq<char>)
    requires
        line_of(c, raw).kind == LineKind::Hunk ==> hunk_header(raw) is None,
        line_of(c, raw).kind != LineKind::Meta,
        c.in_hunk,
    ensures
        stepped(line_of(c, raw).kind, c, moved(c, raw)),
{
}

proof fn lemma_steps_count(r: Seq<LineView>, cs: Seq<Cursor>, h: int, o: u32, n: u32, j: int)
    requires
        0 <= h < j < cs.len(),
        cs[h + 1] == (Cursor { old_no: o, new_no: n, in_hunk: true }),
        forall|k: int|
            #![trigger r[k]]
            h < k < j && cs[k].in_hunk ==> stepped(r[k].kind, cs[k], cs[k + 1]),
    ensures
        cs[j].in_hunk,
        cs[j].old_no == (o + old_lines(r, h + 1, j)) % 0x1_0000_0000,
        cs[j].new_no == (n + new_lines(r, h + 1, j)) % 0x1_0000_0000,
    decreases j - h,
{
    if j > h + 1 {
        lemma_steps_count(r, cs, h, o, n, j - 1);
        assert(stepped(r[j - 1].kind, cs[j - 1], cs[j]));
    }
}

/// Where the parser is before each line of a diff.
spec fn cursors(raws: Seq<Seq<char>>) -> Seq<Cursor> {
    Seq::new(raws.len() + 1, |k: int| cursor(raws.take(k)))
}

proof fn lemma_cursors_move(raws: Seq<Seq<char>>, k: int)
    requires
        0 <= k < raws.len(),
    ensures
        cursors(raws)[k + 1] == moved(cursors(raws)[k], raws[k]),
{
    assert(raws.take(k + 1).drop_last() =~= raws.take(k));
}

proof fn lemma_cursor_in_hunk(input: Seq<char>, h: int, o: u32, n: u32, j: int)
    requires
        0 <= h < j <= parsed(input).len(),
        parsed(input)[h].kind == LineKind::Hunk,
        hunk_header(lines(input)[h]) == Some((o, n)),
        one_hunk(input, h, j),
    ensures
        cursor(lines(input).take(j)).in_hunk,
        cursor(lines(input).take(j)).old_no == (o + old_lines(parsed(input), h + 1, j))
            % 0x1_0000_0000,
        cursor(lines(input).take(j)).new_no == (n + new_lines(parsed(input), h + 1, j))
            % 0x1_0000_0000,
{
    let raws = lines(input);
    let r = parsed(input);
    let cs = cursors(raws);
    lemma_cursors_move(raws, h);
    assert(r[h] == line_of(cs[h], raws[h]));
    assert forall|k: int|
        #![trigger r[k]]
        h < k < j && cs[k].in_hunk implies stepped(r[k].kind, cs[k], cs[k + 1]) by {
        lemma_cursors_move(raws, k);
        assert(r[k] == line_of(cs[k], raws[k]));
        lemma_moved_in_hunk(cs[k], raws[k]);
    }
    lemma_steps_count(r, cs, h, o, n, j);
}

/// The lines of a hunk are numbered from the starts that its header names, whatever stands
/// above the header: a line of the old version by the lines of the old version above it in the
/// hunk, one of the new version by those of the new version. The others have no number.
pub proof fn law_hunk_lines_are_numbered_from_their_header(
    input: Seq<char>,
    h: int,
    o: u32,
    n: u32,
    j: int,
)
    requires
        0 <= h < j < parsed(input).len(),
        parsed(input)[h].kind == LineKind::Hunk,
        hunk_header(lines(input)[h]) == Some((o, n)),
        one_hunk(input, h, j),
    ensures
        ({
            let r = parsed(input);
            let l = r[j];
            let old_no = (o + old_lines(r, h + 1, j)) % 0x1_0000_0000;
            let new_no = (n + new_lines(r, h + 1, j)) % 0x1_0000_0000;
            &&& l.kind == LineKind::Context ==> l.old_no == Some(old_no as u32) && l.new_no == Some(
                new_no as u32,
            )
            &&& l.kind == LineKind::Removed ==> l.old_no == Some(old_no as u32) && l.new_no is None
            &&& l.kind == LineKind::Added ==> l.new_no == Some(new_no as u32) && l.old_no is None
            &&& (l.kind == LineKind::Hunk || l.kind == LineKind::Meta || l.kind
                == LineKind::NoNewline) ==> l.old_no is None && l.new_no is None
        }),
{
    lemma_cursor_in_hunk(input, h, o, n, j);
    let c = cursor(lines(input).take(j));
    lemma_line_numbers(c, lines(input)[j]);
    lemma_parsed_at(input, j);
}

proof fn lemma_parsed_at(input: Seq<char>, j: int)
    requires
        0 <= j < parsed(input).len(),
    ensures
        parsed(input)[j] == line_of(cursor(lines(input).take(j)), lines(input)[j]),
{
}

proof fn lemma_line_numbers(c: Cursor, raw: Seq<char>)
    ensures
        ({
            let l = line_of(c, raw);
            &&& l.kind == LineKind::Context ==> l.old_no == Some(c.old_no) && l.new_no == Some(
                c.new_no,
            )
            &&& l.kind == LineKind::Removed ==> l.old_no == Some(c.old_no) && l.new_no is None
            &&& l.kind == LineKind::Added ==> l.new_no == Some(c.new_no) && l.old_no is None
            &&& (l.kind == LineKind::Hunk || l.kind == LineKind::Meta || l.kind
                == LineKind::NoNewline) ==> l.old_no is None && l.new_no is None
        }),
{
}

/// In a hunk the first character of a line of the diff tells what the line is, and what stands
/// behind it is the line of the file; an empty line is an empty context line.
pub proof fn law_signs_tell_kinds(input: Seq<char>, h: int, o: u32, n: u32, j: int)
    requires
        0 <= h < j < parsed(input).len(),
        parsed(input)[h].kind == LineKind::Hunk,
        hunk_header(lines(input)[h]) == Some((o, n)),
        one_hunk(input, h, j),
    ensures
        ({
            let raw = lines(input)[j];
            let l = parsed(input)[j];
            &&& raw.len() == 0 ==> l.kind == LineKind::Context && l.text.len() == 0
            &&& raw.len() > 0 && raw[0] == '+' ==> l.kind == LineKind::Added && l.text == expanded(
                raw.skip(1),
            )
            &&& raw.len() > 0 && raw[0] == '-' ==> l.kind == LineKind::Removed && l.text == expanded(
                raw.skip(1),
            )
            &&& raw.len() > 0 && raw[0] == ' ' ==> l.kind == LineKind::Context && l.text == expanded(
                raw.skip(1),
            )
            &&& raw.len() > 0 && raw[0] == '\\' ==> l.kind == LineKind::NoNewline && l.text
                == expanded(raw)
            &&& raw.len() > 0 && raw[0] != '+' && raw[0] != '-' && raw[0] != ' ' && raw[0] != '\\'
                && !("@@"@.is_prefix_of(raw)) ==> l.kind == LineKind::Meta && l.text == expanded(raw)
        }),
{
    reveal_strlit("@@");
    reveal_strlit("diff --git");
    lemma_cursor_in_hunk(input, h, o, n, j);
    let raw = lines(input)[j];
    if "@@"@.is_prefix_of(raw) {
        assert(raw.subrange(0, 2)[0] == '@');
        assert(raw[0] == '@');
    }
    if "diff --git"@.is_prefix_of(raw) {
        assert(raw.subrange(0, 10)[0] == 'd');
        assert(raw[0] == 'd');
    }
    if raw.len() > 0 {
        assert(!("@@"@.is_prefix_of(raw)) || raw[0] == '@');
    }
}

/// A line that starts with `@@` is a hunk header wherever it stands, and nothing else is; what
/// starts with `diff --git`, and what stands above the first header, is no line of a file.
pub proof fn law_headers_start_hunks(input: Seq<char>, j: int)
    requires
        0 <= j < parsed(input).len(),
    ensures
        (parsed(input)[j].kind == LineKind::Hunk) == "@@"@.is_prefix_of(lines(input)[j]),
        parsed(input).len() == lines(input).len(),
        parsed(input)[j].kind == LineKind::Hunk ==> parsed(input)[j].text == expanded(
            lines(input)[j],
        ),
        "diff --git"@.is_prefix_of(lines(input)[j]) && !("@@"@.is_prefix_of(lines(input)[j]))
            ==> parsed(input)[j].kind == LineKind::Meta,
        parsed(input)[j].kind != LineKind::Hunk && (forall|k: int|
            0 <= k < j ==> ((#[trigger] parsed(input)[k]).kind == LineKind::Hunk ==> hunk_header(
                lines(input)[k],
            ) is None)) ==> parsed(input)[j].kind == LineKind::Meta && parsed(input)[j].text
            == expanded(lines(input)[j]),
{
    lemma_parsed_at(input, j);
    if forall|k: int|
        0 <= k < j ==> ((#[trigger] parsed(input)[k]).kind == LineKind::Hunk ==> hunk_header(
            lines(input)[k],
        ) is None) {
        lemma_no_hunk_above(input, j);
    }
}

proof fn lemma_no_hunk_above(input: Seq<char>, j: int)
    requires
        0 <= j <= parsed(input).len(),
        forall|k: int|
            0 <= k < j ==> ((#[trigger] parsed(input)[k]).kind == LineKind::Hunk ==> hunk_header(
                lines(input)[k],
            ) is None),
    ensures
        !cursor(lines(input).take(j)).in_hunk,
    decreases j,
{
    let raws = lines(input);
    if j > 0 {
        lemma_no_hunk_above(input, j - 1);
        assert(raws.take(j).drop_last() =~= raws.take(j - 1));
        assert(raws.take(j).last() == raws[j - 1]);
        lemma_parsed_at(input, j - 1);
        assert(parsed(input)[j - 1].kind == LineKind::Hunk ==> hunk_header(raws[j - 1]) is None);
    }
}

proof fn lemma_out_of_hunk(input: Seq<char>, h: int, j: int)
    requires
        0 <= h < j <= parsed(input).len(),
        parsed(input)[h].kind == LineKind::Meta,
        forall|k: int|
            h < k < j ==> ((#[trigger] parsed(input)[k]).kind == LineKind::Hunk ==> hunk_header(
                lines(input)[k],
            ) is None),
    ensures
        !cursor(lines(input).take(j)).in_hunk,
    decreases j,
{
    let raws = lines(input);
    assert(raws.take(j).drop_last() =~= raws.take(j - 1));
    assert(raws.take(j).last() == raws[j - 1]);
    lemma_parsed_at(input, j - 1);
    if j > h + 1 {
        lemma_out_of_hunk(input, h, j - 1);
        assert(parsed(input)[j - 1].kind == LineKind::Hunk ==> hunk_header(raws[j - 1]) is None);
    }
}

/// Behind a line that is of no file nothing is, up to the next hunk header that can be read:
/// the lines there are kept as they are and have no numbers.
pub proof fn law_hunks_end_at_foreign_lines(input: Seq<char>, h: int, j: int)
    requires
        0 <= h < j < parsed(input).len(),
        parsed(input)[h].kind == LineKind::Meta,
        forall|k: int|
            h < k < j ==> ((#[trigger] parsed(input)[k]).kind == LineKind::Hunk ==> hunk_header(
                lines(input)[k],
            ) is None),
        parsed(input)[j].kind != LineKind::Hunk,
    ensures
        parsed(input)[j].kind == LineKind::Meta,
        parsed(input)[j].text == expanded(lines(input)[j]),
        parsed(input)[j].old_no is None,
        parsed(input)[j].new_no is None,
{
    lemma_out_of_hunk(input, h, j);
    lemma_parsed_at(input, j);
}

// ---------------------------------------------------------------------------------------
// Side by side

/// Lines `a..b` were removed and lines `b..c` added, and neither run goes on.
pub open spec fn replaced_lines(ks: Seq<LineKind>, a: int, b: int, c: int) -> bool {
    &&& 0 <= a <= b <= c <= ks.len()
    &&& a < c
    &&& forall|k: int| a <= k < b ==> #[trigger] ks[k] == LineKind::Removed
    &&& forall|k: int| b <= k < c ==> #[trigger] ks[k] == LineKind::Added
    &&& a > 0 ==> ks[a - 1] != LineKind::Removed
    &&& a == b && a > 0 ==> ks[a - 1] != LineKind::Added
    &&& c < ks.len() ==> ks[c] != LineKind::Added
    &&& b == c && c < ks.len() ==> ks[c] != LineKind::Removed
}

/// A row can start at line `i`: it is in no run that started above.
spec fn fresh(ks: Seq<LineKind>, i: int) -> bool {
    i <= 0 || i >= ks.len() || !(ks[i - 1] == LineKind::Removed && (ks[i] == LineKind::Removed
        || ks[i] == LineKind::Added)) && !(ks[i - 1] == LineKind::Added && ks[i]
        == LineKind::Added)
}

proof fn lemma_run(ks: Seq<LineKind>, kind: LineKind, i: int)
    requires
        0 <= i <= ks.len(),
    ensures
        i <= run_end(ks, kind, i) <= ks.len(),
        forall|k: int| i <= k < run_end(ks, kind, i) ==> #[trigger] ks[k] == kind,
        run_end(ks, kind, i) < ks.len() ==> ks[run_end(ks, kind, i)] != kind,
    decreases ks.len() - i,
{
    if i < ks.len() && ks[i] == kind {
        lemma_run(ks, kind, i + 1);
    }
}

/// The rows from line `i` on end with those from line `a` on.
proof fn lemma_rows_continue(ks: Seq<LineKind>, i: int, a: int) -> (head: Seq<Row>)
    requires
        0 <= i <= a <= ks.len(),
        fresh(ks, i),
        fresh(ks, a),
    ensures
        split_rows(ks, i) == head + split_rows(ks, a),
    decreases a - i,
{
    if i == a {
        assert(split_rows(ks, i) =~= Seq::<Row>::empty() + split_rows(ks, a));
        Seq::empty()
    } else if ks[i] == LineKind::Removed || ks[i] == LineKind::Added {
        let b = run_end(ks, LineKind::Removed, i);
        lemma_run(ks, LineKind::Removed, i);
        let c = run_end(ks, LineKind::Added, b);
        lemma_run(ks, LineKind::Added, b);
        assert(i < c);
        if a < c {
            assert(ks[a - 1] == LineKind::Removed || ks[a - 1] == LineKind::Added);
            if a <= b {
                assert(ks[a - 1] == LineKind::Removed);
                assert(a < b ==> ks[a] == LineKind::Removed);
                assert(a == b ==> ks[a] == LineKind::Added);
            } else {
                assert(ks[a - 1] == LineKind::Added && ks[a] == LineKind::Added);
            }
        }
        let head = lemma_rows_continue(ks, c, a);
        let all = paired(i, b, c) + head;
        assert(split_rows(ks, i) =~= all + split_rows(ks, a));
        all
    } else {
        let head = lemma_rows_continue(ks, i + 1, a);
        let row = if ks[i] == LineKind::Context {
            Row::Pair { left: Some(i as usize), right: Some(i as usize) }
        } else {
            Row::Full(i as usize)
        };
        let all = seq![row] + head;
        assert(split_rows(ks, i) =~= all + split_rows(ks, a));
        all
    }
}

/// `rows` and `line_row` are the side-by-side layout of some lines.
pub open spec fn side_by_side(ls: Seq<DiffLine>, rows: Seq<Row>, line_row: Seq<usize>) -> bool {
    &&& rows == split_rows(kinds(ls), 0)
    &&& lays_out(rows, line_row, ls.len() as int)
}

proof fn lemma_replaced_rows(ks: Seq<LineKind>, a: int, b: int, c: int)
    requires
        replaced_lines(ks, a, b, c),
    ensures
        fresh(ks, a),
        split_rows(ks, a) == paired(a, b, c) + split_rows(ks, c),
{
    lemma_run(ks, LineKind::Removed, a);
    lemma_run(ks, LineKind::Added, b);
    assert(run_end(ks, LineKind::Removed, a) == b) by {
        let e = run_end(ks, LineKind::Removed, a);
        if e < b {
            assert(ks[e] == LineKind::Removed);
        }
        if e > b {
            assert(ks[b] == LineKind::Removed);
            if b < c {
                assert(ks[b] == LineKind::Added);
            }
        }
    }
    assert(run_end(ks, LineKind::Added, b) == c) by {
        let e = run_end(ks, LineKind::Added, b);
        if e < c {
            assert(ks[e] == LineKind::Added);
        }
        if e > c {
            assert(ks[c] == LineKind::Added);
        }
    }
    if a < b {
        assert(ks[a] == LineKind::Removed);
    } else {
        assert(ks[a] == LineKind::Added);
    }
}

/// Where rows hold the pairs of two runs from row `h` on, the lines of the runs are there.
proof fn lemma_pairs_hold(
    rows: Seq<Row>,
    line_row: Seq<usize>,
    n: int,
    head: Seq<Row>,
    tail: Seq<Row>,
    a: int,
    b: int,
    c: int,
)
    requires
        lays_out(rows, line_row, n),
        rows == head + (paired(a, b, c) + tail),
        0 <= a <= b <= c <= n,
        n <= usize::MAX,
    ensures
        forall|k: int| 0 <= k < b - a ==> #[trigger] line_row[a + k] == head.len() + k,
        forall|k: int| 0 <= k < c - b ==> #[trigger] line_row[b + k] == head.len() + k,
        c < n && tail.len() > 0 && tail[0].holds(c) ==> line_row[c] == head.len() + (if b - a >= c
            - b {
            b - a
        } else {
            c - b
        }),
{
    let h = head.len() as int;
    let p = paired(a, b, c);
    assert forall|k: int| 0 <= k < b - a implies #[trigger] line_row[a + k] == h + k by {
        assert(rows[h + k] == p[k]);
        assert(rows[h + k].holds(a + k));
    }
    assert forall|k: int| 0 <= k < c - b implies #[trigger] line_row[b + k] == h + k by {
        assert(rows[h + k] == p[k]);
        assert(rows[h + k].holds(b + k));
    }
    if c < n && tail.len() > 0 && tail[0].holds(c) {
        assert(rows[h + p.len()] == tail[0]);
        assert(rows[h + p.len()].holds(c));
    }
}

/// Lines that were removed are paired row by row with the lines that were added right behind
/// them: the k-th of each are on one row, as long as both sides have one, and the rest of the
/// longer side takes a row each. So the two runs together take as many rows as the longer one,
/// one below the other.
pub proof fn law_replaced_lines_are_paired(
    ls: Seq<DiffLine>,
    rows: Seq<Row>,
    line_row: Seq<usize>,
    a: int,
    b: int,
    c: int,
)
    requires
        side_by_side(ls, rows, line_row),
        replaced_lines(kinds(ls), a, b, c),
        ls.len() <= usize::MAX,
    ensures
        forall|k: int| 0 <= k < b - a ==> #[trigger] line_row[a + k] == line_row[a] + k,
        forall|k: int|
            0 <= k < c - b ==> #[trigger] line_row[b + k] == (if b > a {
                line_row[a] + k
            } else {
                line_row[b] + k
            }),
        forall|k: int|
            #![trigger line_row[a + k]]
            0 <= k < b - a && k < c - b ==> line_row[a + k] == line_row[b + k],
        c < ls.len() ==> line_row[c] == line_row[if b > a { a } else { b }] + (if b - a >= c - b {
            b - a
        } else {
            c - b
        }),
{
    let ks = kinds(ls);
    lemma_replaced_rows(ks, a, b, c);
    let head = lemma_rows_continue(ks, 0, a);
    let tail = split_rows(ks, c);
    lemma_pairs_hold(rows, line_row, ls.len() as int, head, tail, a, b, c);
    if a < b {
        assert(line_row[a + 0] == head.len());
    } else {
        assert(line_row[b + 0] == head.len());
    }
    if c < ls.len() {
        lemma_first_row(ks, c);
    }
}

/// The rows from line `i` on start with the row of line `i`.
proof fn lemma_first_row(ks: Seq<LineKind>, i: int)
    requires
        0 <= i < ks.len(),
        ks.len() <= usize::MAX,
    ensures
        split_rows(ks, i).len() > 0,
        split_rows(ks, i)[0].holds(i),
{
    if ks[i] == LineKind::Removed || ks[i] == LineKind::Added {
        lemma_run(ks, LineKind::Removed, i);
        let b = run_end(ks, LineKind::Removed, i);
        lemma_run(ks, LineKind::Added, b);
        let c = run_end(ks, LineKind::Added, b);
        assert(paired(i, b, c)[0].holds(i));
        assert(split_rows(ks, i)[0] == paired(i, b, c)[0]);
    }
}

/// Which side a line is on: a context line on both, a removed one on the left and an added one
/// on the right; headers and remarks take the full width.
pub proof fn law_lines_keep_to_their_side(
    ls: Seq<DiffLine>,
    rows: Seq<Row>,
    line_row: Seq<usize>,
    i: int,
)
    requires
        side_by_side(ls, rows, line_row),
        0 <= i < ls.len(),
        ls.len() <= usize::MAX,
    ensures
        ({
            let row = rows[line_row[i] as int];
            match ls[i].kind {
                LineKind::Context => row == (Row::Pair {
                    left: Some(i as usize),
                    right: Some(i as usize),
                }),
                LineKind::Removed => row matches Row::Pair { left, .. } && left == Some(i as usize),
                LineKind::Added => row matches Row::Pair { right, .. } && right == Some(i as usize),
                _ => row == Row::Full(i as usize),
            }
        }),
{
    let ks = kinds(ls);
    assert(ks[i] == ls[i].kind);
    lemma_sides(ks, 0, rows.len() as int - 1, line_row[i] as int, i);
}

/// Row `q` of the rows from line `from` on, where it shows line `i`, shows it on its side.
proof fn lemma_sides(ks: Seq<LineKind>, from: int, last: int, q: int, i: int)
    requires
        0 <= from <= ks.len(),
        ks.len() <= usize::MAX,
        0 <= q < split_rows(ks, from).len(),
        last == split_rows(ks, from).len() - 1,
        0 <= i < ks.len(),
        split_rows(ks, from)[q].holds(i),
    ensures
        ({
            let row = split_rows(ks, from)[q];
            match ks[i] {
                LineKind::Context => row == (Row::Pair {
                    left: Some(i as usize),
                    right: Some(i as usize),
                }),
                LineKind::Removed => row matches Row::Pair { left, .. } && left == Some(i as usize),
                LineKind::Added => row matches Row::Pair { right, .. } && right == Some(i as usize),
                _ => row == Row::Full(i as usize),
            }
        }),
    decreases ks.len() - from,
{
    if ks[from] == LineKind::Removed || ks[from] == LineKind::Added {
        lemma_run(ks, LineKind::Removed, from);
        let b = run_end(ks, LineKind::Removed, from);
        lemma_run(ks, LineKind::Added, b);
        let c = run_end(ks, LineKind::Added, b);
        let p = paired(from, b, c);
        if q < p.len() {
            assert(split_rows(ks, from)[q] == p[q]);
            if from <= i < b {
                assert(ks[i] == LineKind::Removed);
            } else {
                assert(b <= i < c);
                assert(ks[i] == LineKind::Added);
            }
        } else {
            assert(split_rows(ks, from)[q] == split_rows(ks, c)[q - p.len()]);
            lemma_sides(ks, c, split_rows(ks, c).len() - 1, q - p.len(), i);
        }
    } else if q > 0 {
        assert(split_rows(ks, from)[q] == split_rows(ks, from + 1)[q - 1]);
        lemma_sides(ks, from + 1, split_rows(ks, from + 1).len() - 1, q - 1, i);
    }
}

/// A line that is paired with none has a blank beside it.
pub proof fn law_shorter_side_is_filled(
    ls: Seq<DiffLine>,
    rows: Seq<Row>,
    line_row: Seq<usize>,
    i: int,
)
    requires
        side_by_side(ls, rows, line_row),
        0 <= i < ls.len(),
        ls.len() <= usize::MAX,
        forall|j: int| 0 <= j < ls.len() && j != i ==> #[trigger] line_row[j] != line_row[i],
    ensures
        ls[i].kind == LineKind::Removed ==> rows[line_row[i] as int] == (Row::Pair {
            left: Some(i as usize),
            right: None,
        }),
        ls[i].kind == LineKind::Added ==> rows[line_row[i] as int] == (Row::Pair {
            left: None,
            right: Some(i as usize),
        }),
{
    law_lines_keep_to_their_side(ls, rows, line_row, i);
    let row = rows[line_row[i] as int];
    match row {
        Row::Pair { left, right } => {
            if left is Some {
                assert(rows[line_row[i] as int].holds(left->0 as int));
                assert(line_row[left->0 as int] == line_row[i]);
                if left->0 != i && right == Some(i as usize) {
                    assert(false);
                }
            }
            if right is Some {
                assert(rows[line_row[i] as int].holds(right->0 as int));
                assert(line_row[right->0 as int] == line_row[i]);
            }
            if left == Some(i as usize) && right == Some(i as usize) {
                lemma_both_sides(kinds(ls), 0, line_row[i] as int, i);
            }
        },
        Row::Full(_) => {},
    }
}

proof fn lemma_both_sides(ks: Seq<LineKind>, from: int, q: int, i: int)
    requires
        0 <= from <= ks.len(),
        ks.len() <= usize::MAX,
        0 <= q < split_rows(ks, from).len(),
        0 <= i < ks.len(),
        split_rows(ks, from)[q] == (Row::Pair {
            left: Some(i as usize),
            right: Some(i as usize),
        }),
    ensures
        ks[i] == LineKind::Context,
    decreases ks.len() - from,
{
    if ks[from] == LineKind::Removed || ks[from] == LineKind::Added {
        lemma_run(ks, LineKind::Removed, from);
        let b = run_end(ks, LineKind::Removed, from);
        lemma_run(ks, LineKind::Added, b);
        let c = run_end(ks, LineKind::Added, b);
        let p = paired(from, b, c);
        if q < p.len() {
            assert(split_rows(ks, from)[q] == p[q]);
        } else {
            assert(split_rows(ks, from)[q] == split_rows(ks, c)[q - p.len()]);
            lemma_both_sides(ks, c, q - p.len(), i);
        }
    } else if q > 0 {
        assert(split_rows(ks, from)[q] == split_rows(ks, from + 1)[q - 1]);
        lemma_both_sides(ks, from + 1, q - 1, i);
    }
}

// ---------------------------------------------------------------------------------------
// Hunks

/// The next hunk is the nearest header at or below a line, and there is one where any is.
pub proof fn law_next_hunk_is_nearest(ls: Seq<DiffLine>, i: int)
    requires
        0 <= i,
    ensures
        match next_hunk(ls, i) {
            Some(k) => {
                &&& i <= k < ls.len()
                &&& ls[k].kind == LineKind::Hunk
                &&& forall|j: int| i <= j < k ==> (#[trigger] ls[j]).kind != LineKind::Hunk
            },
            None => forall|j: int|
                i <= j < ls.len() ==> (#[trigger] ls[j]).kind != LineKind::Hunk,
        },
    decreases ls.len() - i,
{
    if i < ls.len() {
        law_next_hunk_is_nearest(ls, i + 1);
    }
}

/// The hunk before is the nearest header above a line, and there is one where any is.
pub proof fn law_previous_hunk_is_nearest(ls: Seq<DiffLine>, n: int)
    requires
        0 <= n <= ls.len(),
    ensures
        match prev_hunk(ls, n) {
            Some(k) => {
                &&& 0 <= k < n
                &&& ls[k].kind == LineKind::Hunk
                &&& forall|j: int| k < j < n ==> (#[trigger] ls[j]).kind != LineKind::Hunk
            },
            None => forall|j: int| 0 <= j < n ==> (#[trigger] ls[j]).kind != LineKind::Hunk,
        },
    decreases n,
{
    if n > 0 {
        law_previous_hunk_is_nearest(ls, n - 1);
    }
}

/// How many hunks start above a line is how many of the lines above it are headers.
pub proof fn law_hunks_are_counted(ls: Seq<DiffLine>, n: int)
    requires
        0 <= n <= ls.len(),
    ensures
        hunks_above(ls, n) == ls.take(n).filter(|l: DiffLine| l.kind == LineKind::Hunk).len(),
    decreases n,
{
    reveal(Seq::filter);
    if n > 0 {
        law_hunks_are_counted(ls, n - 1);
        assert(ls.take(n).drop_last() =~= ls.take(n - 1));
        assert(ls.take(n).last() == ls[n - 1]);
    }
}

/// The line that stands for a row is the one on the left where there is one, else the one on
/// the right.
pub proof fn law_rows_stand_for_a_line(row: Row, i: usize, other: Option<usize>)
    ensures
        Row::Full(i).anchor_line() == i,
        (Row::Pair { left: Some(i), right: other }).anchor_line() == i,
        (Row::Pair { left: None, right: Some(i) }).anchor_line() == i,
        row.holds(i as int) <==> row == Row::Full(i) || (row matches Row::Pair { left, right } && (
        left == Some(i) || right == Some(i))),
{
}

} // verus!
