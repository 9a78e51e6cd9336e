//! Unified diff parsing into typed, numbered lines, and the row layouts they are shown in.

use vstd::prelude::*;

use crate::text::{chars_of, parse_u32, replace_from, split_at, starts_with, words_of};

verus! {

#[derive(Debug, Clone, Copy, PartialEq, Eq, Structural)]
pub enum LineKind {
    /// `diff --git`, `index`, `---`, `+++`, mode lines, etc.
    Meta,
    Hunk,
    Context,
    Added,
    Removed,
    /// `\ No newline at end of file`
    NoNewline,
}

#[derive(Debug, Clone, PartialEq, Eq)]
pub struct DiffLine {
    pub kind: LineKind,
    pub old_no: Option<u32>,
    pub new_no: Option<u32>,
    pub text: String,
}

/// A diff line as a value.
pub struct LineView {
    pub kind: LineKind,
    pub old_no: Option<u32>,
    pub new_no: Option<u32>,
    pub text: Seq<char>,
}

impl View for DiffLine {
    type V = LineView;

    open spec fn view(&self) -> LineView {
        LineView { kind: self.kind, old_no: self.old_no, new_no: self.new_no, text: self.text@ }
    }
}

/// Tabs are shown as four spaces.
pub open spec fn expanded(s: Seq<char>) -> Seq<char> {
    crate::text::replaced(s, '\t', "    "@)
}

/// Where the parser is: the numbers of the next old and new line, and whether a hunk is open.
pub struct Cursor {
    pub old_no: u32,
    pub new_no: u32,
    pub in_hunk: bool,
}

/// The number after `n`.
pub open spec fn succ(n: u32) -> u32 {
    if n == u32::MAX { 0 } else { (n + 1) as u32 }
}

/// The start lines that a hunk header names: `@@ -12,5 +12,7 @@ fn x` gives 12 and 12.
pub open spec fn hunk_header(h: Seq<char>) -> Option<(u32, u32)> {
    let w = crate::text::words(h);
    if w.len() < 3 {
        None
    } else {
        match (start_line(w[1], '-'), start_line(w[2], '+')) {
            (Some(o), Some(n)) => Some((o, n)),
            _ => None,
        }
    }
}

/// The number between the sign and the first comma of one side of a hunk header.
pub open spec fn start_line(w: Seq<char>, sign: char) -> Option<u32> {
    if w.len() > 0 && w[0] == sign {
        crate::text::parsed_u32(crate::text::split(w.skip(1), ',')[0])
    } else {
        None
    }
}

/// The diff line that `raw` is when the parser reaches it at `c`.
pub open spec fn line_of(c: Cursor, raw: Seq<char>) -> LineView {
    let plain = |kind: LineKind| LineView { kind, old_no: None, new_no: None, text: expanded(raw) };
    if "@@"@.is_prefix_of(raw) {
        plain(LineKind::Hunk)
    } else if !c.in_hunk || "diff --git"@.is_prefix_of(raw) {
        plain(LineKind::Meta)
    } else if raw.len() == 0 {
        LineView {
            kind: LineKind::Context,
            old_no: Some(c.old_no),
            new_no: Some(c.new_no),
            text: Seq::empty(),
        }
    } else if raw[0] == '+' {
        LineView {
            kind: LineKind::Added,
            old_no: None,
            new_no: Some(c.new_no),
            text: expanded(raw.skip(1)),
        }
    } else if raw[0] == '-' {
        LineView {
            kind: LineKind::Removed,
            old_no: Some(c.old_no),
            new_no: None,
            text: expanded(raw.skip(1)),
        }
    } else if raw[0] == ' ' {
        LineView {
            kind: LineKind::Context,
            old_no: Some(c.old_no),
            new_no: Some(c.new_no),
            text: expanded(raw.skip(1)),
        }
    } else if raw[0] == '\\' {
        plain(LineKind::NoNewline)
    } else {
        plain(LineKind::Meta)
    }
}

/// Where the parser is after `raw`: a hunk header sets the numbers and opens the hunk, a
/// counted line moves the numbers on, anything else that is no diff line closes the hunk.
pub open spec fn moved(c: Cursor, raw: Seq<char>) -> Cursor {
    let kind = line_of(c, raw).kind;
    match kind {
        LineKind::Hunk => match hunk_header(raw) {
            Some((o, n)) => Cursor { old_no: o, new_no: n, in_hunk: true },
            None => c,
        },
        LineKind::Meta => Cursor { in_hunk: false, ..c },
        LineKind::Added => Cursor { new_no: succ(c.new_no), ..c },
        LineKind::Removed => Cursor { old_no: succ(c.old_no), ..c },
        LineKind::Context => Cursor { old_no: succ(c.old_no), new_no: succ(c.new_no), ..c },
        LineKind::NoNewline => c,
    }
}

/// Where the parser is after all of `raws`.
pub open spec fn cursor(raws: Seq<Seq<char>>) -> Cursor
    decreases raws.len(),
{
    if raws.len() == 0 {
        Cursor { old_no: 0, new_no: 0, in_hunk: false }
    } else {
        moved(cursor(raws.drop_last()), raws.last())
    }
}

/// The diff that a unified diff text stands for: one line for each line of the text.
pub open spec fn parsed(input: Seq<char>) -> Seq<LineView> {
    let raws = crate::text::lines(input);
    Seq::new(raws.len(), |i: int| line_of(cursor(raws.take(i)), raws[i]))
}

proof fn lemma_lines_hold_no_newline(s: Seq<char>)
    ensures
        forall|i: int|
            0 <= i < crate::text::lines(s).len() ==> !(#[trigger] crate::text::lines(s)[i]).contains(
                '\n',
            ),
    decreases s.len(),
{
    let n = crate::text::first(s, '\n') as int;
    crate::text::lemma_first_bounds(s, '\n');
    if s.len() > 0 && n < s.len() {
        let rest = crate::text::lines(s.skip(n + 1));
        let head = crate::text::without_cr(s.take(n));
        lemma_lines_hold_no_newline(s.skip(n + 1));
        assert forall|i: int| 0 <= i < crate::text::lines(s).len() implies !(
        #[trigger] crate::text::lines(s)[i]).contains('\n') by {
            if i > 0 {
                assert(crate::text::lines(s)[i] == rest[i - 1]);
            } else {
                assert(crate::text::lines(s)[0] == head);
            }
        }
    }
}

proof fn lemma_expanded_holds_no_newline(s: Seq<char>)
    requires
        !s.contains('\n'),
    ensures
        !expanded(s).contains('\n'),
    decreases s.len(),
{
    reveal_strlit("    ");
    if s.len() > 0 {
        let head = s.drop_last();
        if head.contains('\n') {
            let i = choose|i: int| 0 <= i < head.len() && head[i] == '\n';
            assert(s[i] == '\n');
        }
        lemma_expanded_holds_no_newline(head);
        assert(s[s.len() - 1] != '\n');
        let front = expanded(head);
        if expanded(s).contains('\n') {
            let i = choose|i: int| 0 <= i < expanded(s).len() && expanded(s)[i] == '\n';
            if i < front.len() {
                assert(front[i] == '\n');
            }
        }
    }
}

/// No line of a diff has a newline in it.
pub proof fn law_diff_lines_hold_no_newline(input: Seq<char>, i: int)
    requires
        0 <= i < parsed(input).len(),
    ensures
        !parsed(input)[i].text.contains('\n'),
{
    let raw = crate::text::lines(input)[i];
    lemma_lines_hold_no_newline(input);
    assert(!raw.contains('\n'));
    lemma_expanded_holds_no_newline(raw);
    if raw.len() > 0 {
        let tail = raw.skip(1);
        if tail.contains('\n') {
            let k = choose|k: int| 0 <= k < tail.len() && tail[k] == '\n';
            assert(raw[k + 1] == '\n');
        }
        lemma_expanded_holds_no_newline(tail);
    }
}

/// The values of a list of diff lines.
pub open spec fn line_views(lines: Seq<DiffLine>) -> Seq<LineView> {
    lines.map_values(|l: DiffLine| l@)
}

/// Parse a unified diff. Line numbers wrap around past the largest one.
pub fn parse_unified(input: &str) -> (r: Vec<DiffLine>)
    ensures
        line_views(r@) == parsed(input@),
{
    let v = chars_of(input);
    let raws = crate::text::lines_of(&v);
    let ghost all = crate::text::lines(input@);
    let mut out: Vec<DiffLine> = Vec::new();
    let mut old_no: u32 = 0;
    let mut new_no: u32 = 0;
    let mut in_hunk = false;
    let mut i: usize = 0;
    while i < raws.len()
        invariant
            i <= raws.len(),
            crate::text::views(raws@) == all,
            out.len() == i,
            forall|j: int|
                0 <= j < i ==> #[trigger] out[j]@ == line_of(cursor(all.take(j)), all[j]),
            cursor(all.take(i as int)) == (Cursor { old_no, new_no, in_hunk }),
        decreases raws.len() - i,
    {
        let raw = chars_of(raws[i].as_str());
        let ghost c = Cursor { old_no, new_no, in_hunk };
        proof {
            assert(raw@ == all[i as int]);
            assert(all.take(i + 1).drop_last() =~= all.take(i as int));
            assert(all.take(i + 1).last() == raw@);
        }
        i += 1;
        if starts_with(&raw, "@@") {
            if let Some((o, n)) = parse_hunk_header(raws[i - 1].as_str()) {
                old_no = o;
                new_no = n;
                in_hunk = true;
            }
            out.push(line(LineKind::Hunk, None, None, &raw, 0));
            assert(raw@.skip(0) =~= raw@);
            continue;
        }
        if starts_with(&raw, "diff --git") {
            in_hunk = false;
        }
        assert(raw@.skip(0) =~= raw@);
        if !in_hunk {
            out.push(line(LineKind::Meta, None, None, &raw, 0));
            continue;
        }
        if raw.len() == 0 {
            // Some tools strip the leading space from empty context lines.
            assert(raw@ =~= Seq::<char>::empty());
            out.push(line(LineKind::Context, Some(old_no), Some(new_no), &raw, 0));
            old_no = old_no.wrapping_add(1);
            new_no = new_no.wrapping_add(1);
        } else if raw[0] == '+' {
            out.push(line(LineKind::Added, None, Some(new_no), &raw, 1));
            new_no = new_no.wrapping_add(1);
        } else if raw[0] == '-' {
            out.push(line(LineKind::Removed, Some(old_no), None, &raw, 1));
            old_no = old_no.wrapping_add(1);
        } else if raw[0] == '\\' {
            out.push(line(LineKind::NoNewline, None, None, &raw, 0));
        } else if raw[0] == ' ' {
            out.push(line(LineKind::Context, Some(old_no), Some(new_no), &raw, 1));
            old_no = old_no.wrapping_add(1);
            new_no = new_no.wrapping_add(1);
        } else {
            in_hunk = false;
            out.push(line(LineKind::Meta, None, None, &raw, 0));
        }
    }
    proof {
        assert(line_views(out@) =~= parsed(input@));
    }
    out
}

/// A diff line whose text is `raw[from..]`, tabs expanded.
fn line(kind: LineKind, old_no: Option<u32>, new_no: Option<u32>, raw: &[char], from: usize) -> (r:
    DiffLine)
    requires
        from <= raw.len(),
    ensures
        r@ == (LineView { kind, old_no, new_no, text: expanded(raw@.skip(from as int)) }),
{
    DiffLine { kind, old_no, new_no, text: replace_from(raw, from, '\t', "    ") }
}

/// `@@ -12,5 +12,7 @@ fn x` → (12, 12)
pub fn parse_hunk_header(h: &str) -> (r: Option<(u32, u32)>)
    ensures
        r == hunk_header(h@),
{
    let v = chars_of(h);
    let w = words_of(&v);
    let ghost ws = crate::text::words(h@);
    proof {
        assert(ws.len() == w.len());
    }
    if w.len() < 3 {
        return None;
    }
    proof {
        assert(w[1]@ == ws[1]);
        assert(w[2]@ == ws[2]);
    }
    let old = side_start(w[1].as_str(), '-')?;
    let new = side_start(w[2].as_str(), '+')?;
    Some((old, new))
}

/// The start line of one side of a hunk header.
fn side_start(w: &str, sign: char) -> (r: Option<u32>)
    ensures
        r == start_line(w@, sign),
{
    let v = chars_of(w);
    if v.len() == 0 || v[0] != sign {
        return None;
    }
    let rest = chars_of(crate::text::text_of(&v, 1, v.len()).as_str());
    let parts = split_at(&rest, ',');
    proof {
        let p = crate::text::split(rest@, ',');
        assert(rest@ =~= w@.skip(1));
        assert(crate::text::views(parts@) == p);
        assert(p.len() >= 1);
        assert(parts[0]@ == p[0]);
    }
    parse_u32(parts[0].as_str())
}

// ---------------------------------------------------------------------------------------
// Rows

/// One screen row of a diff, by the indices of the lines on it.
#[derive(Debug, Clone, Copy, PartialEq, Eq, Structural)]
pub enum Row {
    /// A line over the full width.
    Full(usize),
    /// Old side and new side; `None` is a blank filler.
    Pair { left: Option<usize>, right: Option<usize> },
}

impl Row {
    /// Line `i` is on this row.
    pub open spec fn holds(self, i: int) -> bool {
        match self {
            Row::Full(k) => k == i,
            Row::Pair { left, right } => {
                ||| left is Some && left->0 == i
                ||| right is Some && right->0 == i
            },
        }
    }

    /// The line that stands for the row: the old one where there is one.
    pub open spec fn anchor_line(self) -> usize {
        match self {
            Row::Full(k) => k,
            Row::Pair { left: Some(k), .. } => k,
            Row::Pair { left: None, right: Some(k) } => k,
            Row::Pair { left: None, right: None } => 0,
        }
    }

    /// The line that stands for the row when it is at the top of the viewport.
    pub fn anchor(&self) -> (r: usize)
        ensures
            r == self.anchor_line(),
    {
        match *self {
            Row::Full(k) => k,
            Row::Pair { left: Some(k), .. } => k,
            Row::Pair { left: None, right: Some(k) } => k,
            Row::Pair { left: None, right: None } => 0,
        }
    }
}

/// A row layout: the rows from top to bottom, and the row of each line.
#[derive(Debug, Clone, PartialEq, Eq)]
pub struct Rows {
    pub rows: Vec<Row>,
    pub line_row: Vec<usize>,
}

/// The kinds of a list of diff lines.
pub open spec fn kinds(lines: Seq<DiffLine>) -> Seq<LineKind> {
    lines.map_values(|l: DiffLine| l.kind)
}

/// End of the run of `kind` that starts at `i`.
pub open spec fn run_end(ks: Seq<LineKind>, kind: LineKind, i: int) -> int
    decreases ks.len() - i,
{
    if 0 <= i < ks.len() && ks[i] == kind {
        run_end(ks, kind, i + 1)
    } else {
        i
    }
}

/// Rows of a run of removed lines `a..b` with the added lines `b..c` that follow it.
pub open spec fn paired(a: int, b: int, c: int) -> Seq<Row> {
    let n = if b - a >= c - b { b - a } else { c - b };
    Seq::new(
        n as nat,
        |t: int| Row::Pair {
            left: if t < b - a { Some((a + t) as usize) } else { None },
            right: if t < c - b { Some((b + t) as usize) } else { None },
        },
    )
}

/// The side-by-side rows of the lines from `i` on: context lines sit on both sides, a run of
/// removed lines is paired row by row with the added lines that follow it, and every other
/// line takes the full width.
pub open spec fn split_rows(ks: Seq<LineKind>, i: int) -> Seq<Row>
    decreases ks.len() - i,
{
    if i < 0 || i >= ks.len() {
        Seq::empty()
    } else if ks[i] == LineKind::Context {
        seq![Row::Pair { left: Some(i as usize), right: Some(i as usize) }] + split_rows(ks, i + 1)
    } else if ks[i] == LineKind::Removed || ks[i] == LineKind::Added {
        let b = run_end(ks, LineKind::Removed, i);
        let c = run_end(ks, LineKind::Added, b);
        if i < c <= ks.len() {
            paired(i, b, c) + split_rows(ks, c)
        } else {
            Seq::empty()
        }
    } else {
        seq![Row::Full(i as usize)] + split_rows(ks, i + 1)
    }
}

/// `rows` and `line_row` lay out `n` lines: each line is on exactly one row, the one that
/// `line_row` names, no row is blank, and the rows go down the diff.
pub open spec fn lays_out(rows: Seq<Row>, line_row: Seq<usize>, n: int) -> bool {
    &&& line_row.len() == n
    &&& forall|i: int|
        0 <= i < n ==> (#[trigger] line_row[i]) < rows.len() && rows[line_row[i] as int].holds(i)
    &&& forall|r: int, i: int|
        0 <= r < rows.len() && #[trigger] rows[r].holds(i) ==> 0 <= i < n && line_row[i] == r
    &&& forall|r: int|
        0 <= r < rows.len() ==> (#[trigger] rows[r]).holds(rows[r].anchor_line() as int)
    &&& forall|r: int, q: int|
        0 <= r < q < rows.len() ==> #[trigger] rows[r].anchor_line() < #[trigger] rows[q].anchor_line()
}

/// What `run_end` is.
proof fn lemma_run_end(ks: Seq<LineKind>, kind: LineKind, i: int, j: int)
    requires
        0 <= i <= j <= ks.len(),
        forall|k: int| i <= k < j ==> ks[k] == kind,
        j == ks.len() || ks[j] != kind,
    ensures
        run_end(ks, kind, i) == j,
    decreases j - i,
{
    if i < j {
        lemma_run_end(ks, kind, i + 1, j);
    }
}

/// End of the run of `kind` that starts at `from`.
fn end_of_run(lines: &[DiffLine], kind: LineKind, from: usize) -> (r: usize)
    requires
        from <= lines.len(),
    ensures
        from <= r <= lines.len(),
        r == run_end(kinds(lines@), kind, from as int),
        from < lines.len() && lines[from as int].kind == kind ==> r > from,
{
    let mut i: usize = from;
    while i < lines.len() && lines[i].kind == kind
        invariant
            from <= i <= lines.len(),
            forall|k: int| from <= k < i ==> kinds(lines@)[k] == kind,
        decreases lines.len() - i,
    {
        i += 1;
    }
    proof {
        lemma_run_end(kinds(lines@), kind, from as int, i as int);
    }
    i
}

impl Rows {
    /// The layout of an empty diff.
    pub fn empty() -> (r: Rows)
        ensures
            r.rows@.len() == 0,
            r.line_row@.len() == 0,
            lays_out(r.rows@, r.line_row@, 0),
    {
        Rows { rows: Vec::new(), line_row: Vec::new() }
    }

    /// One row for each line.
    pub fn unified(lines: &[DiffLine]) -> (r: Rows)
        ensures
            r.rows@ == Seq::new(lines@.len(), |i: int| Row::Full(i as usize)),
            lays_out(r.rows@, r.line_row@, lines@.len() as int),
    {
        let mut rows: Vec<Row> = Vec::new();
        let mut line_row: Vec<usize> = Vec::new();
        let mut i: usize = 0;
        while i < lines.len()
            invariant
                i <= lines.len(),
                rows@ == Seq::new(i as nat, |k: int| Row::Full(k as usize)),
                line_row.len() == i,
                forall|k: int| 0 <= k < i ==> line_row[k] == k,
            decreases lines.len() - i,
        {
            rows.push(Row::Full(i));
            line_row.push(i);
            i += 1;
        }
        Rows { rows, line_row }
    }

    /// Old on the left, new on the right.
    pub fn split(lines: &[DiffLine]) -> (r: Rows)
        ensures
            r.rows@ == split_rows(kinds(lines@), 0),
            lays_out(r.rows@, r.line_row@, lines@.len() as int),
    {
        let mut rows: Vec<Row> = Vec::new();
        let mut line_row: Vec<usize> = Vec::new();
        let ghost ks = kinds(lines@);
        let mut i: usize = 0;
        proof {
            assert(rows@ + split_rows(ks, 0) =~= split_rows(ks, 0));
        }
        while i < lines.len()
            invariant
                i <= lines.len(),
                ks == kinds(lines@),
                rows@ + split_rows(ks, i as int) == split_rows(ks, 0),
                lays_out(rows@, line_row@, i as int),
                forall|r: int| 0 <= r < rows.len() ==> #[trigger] rows[r].anchor_line() < i,
                rows.len() <= i,
            decreases lines.len() - i,
        {
            let kind = lines[i].kind;
            let ghost before = rows@;
            assert(ks[i as int] == kind);
            if kind == LineKind::Removed || kind == LineKind::Added {
                let mid = end_of_run(lines, LineKind::Removed, i);
                let end = end_of_run(lines, LineKind::Added, mid);
                push_pairs(&mut rows, &mut line_row, i, mid, end);
                proof {
                    assert(rows@ + split_rows(ks, end as int) =~= before + split_rows(ks, i as int));
                }
                i = end;
            } else {
                let row = if kind == LineKind::Context {
                    Row::Pair { left: Some(i), right: Some(i) }
                } else {
                    Row::Full(i)
                };
                line_row.push(rows.len());
                rows.push(row);
                proof {
                    assert(rows@ + split_rows(ks, i + 1) =~= before + split_rows(ks, i as int));
                }
                i += 1;
            }
        }
        proof {
            assert(rows@ + split_rows(ks, i as int) =~= rows@);
        }
        Rows { rows, line_row }
    }
}

/// Append the rows of the removed lines `a..b` paired with the added lines `b..c`.
fn push_pairs(rows: &mut Vec<Row>, line_row: &mut Vec<usize>, a: usize, b: usize, c: usize)
    requires
        a <= b <= c,
        a < c,
        old(rows).len() <= a,
        lays_out(old(rows)@, old(line_row)@, a as int),
        forall|r: int| 0 <= r < old(rows).len() ==> #[trigger] old(rows)@[r].anchor_line() < a,
    ensures
        final(rows)@ == old(rows)@ + paired(a as int, b as int, c as int),
        lays_out(final(rows)@, final(line_row)@, c as int),
        final(rows).len() <= c,
        forall|r: int| 0 <= r < final(rows).len() ==> #[trigger] final(rows)@[r].anchor_line() < c,
{
    let base: usize = rows.len();
    let gone: usize = b - a;
    let came: usize = c - b;
    let n: usize = if gone >= came { gone } else { came };
    let mut t: usize = 0;
    while t < n
        invariant
            t <= n,
            base == old(rows).len() <= a,
            a <= b <= c,
            gone == b - a,
            came == c - b,
            n == (if gone >= came { gone } else { came }),
            rows@ == old(rows)@ + paired(a as int, b as int, c as int).take(t as int),
        decreases n - t,
    {
        let left: Option<usize> = if t < gone { Some(a + t) } else { None };
        let right: Option<usize> = if t < came { Some(b + t) } else { None };
        rows.push(Row::Pair { left, right });
        t += 1;
        assert(rows@ =~= old(rows)@ + paired(a as int, b as int, c as int).take(t as int));
    }
    assert(rows@ =~= old(rows)@ + paired(a as int, b as int, c as int));
    let mut k: usize = a;
    while k < c
        invariant
            a <= k <= c,
            a <= b <= c,
            base <= a,
            line_row.len() == k,
            forall|j: int| 0 <= j < a ==> line_row[j] == old(line_row)@[j],
            forall|j: int|
                a <= j < k ==> #[trigger] line_row[j] == (if j < b { base + j - a } else { base + j - b }),
        decreases c - k,
    {
        line_row.push(if k < b { base + (k - a) } else { base + (k - b) });
        k += 1;
    }
}

/// Line `i` starts a hunk.
pub open spec fn is_hunk(lines: Seq<DiffLine>, i: int) -> bool {
    0 <= i < lines.len() && lines[i].kind == LineKind::Hunk
}

/// The first hunk header at or below line `i`.
pub open spec fn next_hunk(lines: Seq<DiffLine>, i: int) -> Option<int>
    decreases lines.len() - i,
{
    if i >= lines.len() {
        None
    } else if is_hunk(lines, i) {
        Some(i)
    } else {
        next_hunk(lines, i + 1)
    }
}

/// The last hunk header above line `n`.
pub open spec fn prev_hunk(lines: Seq<DiffLine>, n: int) -> Option<int>
    decreases n,
{
    if n <= 0 {
        None
    } else if is_hunk(lines, n - 1) {
        Some(n - 1)
    } else {
        prev_hunk(lines, n - 1)
    }
}

/// Find the first hunk header at or below line `from`.
pub fn hunk_from(lines: &[DiffLine], from: usize) -> (r: Option<usize>)
    ensures
        match r {
            Some(i) => next_hunk(lines@, from as int) == Some(i as int) && from <= i < lines@.len(),
            None => next_hunk(lines@, from as int) is None,
        },
{
    let mut i: usize = from;
    while i < lines.len()
        invariant
            from <= i,
            next_hunk(lines@, from as int) == next_hunk(lines@, i as int),
        decreases lines.len() - i,
    {
        if lines[i].kind == LineKind::Hunk {
            return Some(i);
        }
        i += 1;
    }
    None
}

/// Find the last hunk header above line `below`.
pub fn hunk_above(lines: &[DiffLine], below: usize) -> (r: Option<usize>)
    ensures
        match r {
            Some(i) => prev_hunk(lines@, below as int) == Some(i as int) && i < below && i
                < lines@.len(),
            None => prev_hunk(lines@, below as int) is None,
        },
{
    let mut n: usize = below;
    while n > 0
        invariant
            n <= below,
            prev_hunk(lines@, below as int) == prev_hunk(lines@, n as int),
        decreases n,
    {
        n -= 1;
        if n < lines.len() && lines[n].kind == LineKind::Hunk {
            return Some(n);
        }
    }
    None
}

/// The header of the hunk that line `at` belongs to: the last one at or above it.
pub fn hunk_start(lines: &[DiffLine], at: usize) -> (r: Option<usize>)
    ensures
        match r {
            Some(i) => prev_hunk(lines@, at + 1) == Some(i as int) && i <= at && i < lines@.len(),
            None => prev_hunk(lines@, at + 1) is None,
        },
{
    if at < lines.len() && lines[at].kind == LineKind::Hunk {
        Some(at)
    } else {
        hunk_above(lines, at)
    }
}

/// Number of hunk headers among the first `n` lines.
pub open spec fn hunks_above(lines: Seq<DiffLine>, n: int) -> nat
    decreases n,
{
    if n <= 0 {
        0
    } else {
        hunks_above(lines, n - 1) + (if is_hunk(lines, n - 1) { 1nat } else { 0nat })
    }
}

/// Which hunk of the diff starts at line `start`, counted from zero.
pub fn hunk_index(lines: &[DiffLine], start: usize) -> (r: usize)
    requires
        start <= lines.len(),
    ensures
        r == hunks_above(lines@, start as int),
{
    let mut n: usize = 0;
    let mut i: usize = 0;
    while i < start
        invariant
            i <= start <= lines.len(),
            n == hunks_above(lines@, i as int),
            n <= i,
        decreases start - i,
    {
        if lines[i].kind == LineKind::Hunk {
            n += 1;
        }
        i += 1;
    }
    n
}

} // verus!
