//! The diff panel, in one column or side by side.

use vstd::prelude::*;
use vstd::string::*;

use crate::app::{App, DiffView, Focus};
use crate::diff::{DiffLine, LineKind, Row};
use crate::highlight::{span_views, Fg, Highlights, HlSpan, SpanView};
use crate::text::{
    align_right, aligned_right, blank, char_count, chars_of, decimal, decimal_of, spaces, text_of,
};
use crate::ui::{
    add_bg, bold, bold_fg, bold_fg_style, bold_style, del_bg, fg, fg_style, from_char, less, line,
    line_width, message_panel, message_view, one, plain, plain_style, put, skip_chars, st,
    text_lines, width_of, Body, BodyView, Color, Panel, PanelView, Style, Styled, StyledView,
};

verus! {

// ---------------------------------------------------------------------------------------
// Line numbers

/// The larger of two numbers that a line may have.
pub open spec fn larger(a: Option<u32>, b: Option<u32>) -> u32 {
    match (a, b) {
        (Some(x), Some(y)) => if x >= y {
            x
        } else {
            y
        },
        (Some(x), None) => x,
        (None, Some(y)) => y,
        (None, None) => 0,
    }
}

/// The largest line number of a diff.
pub open spec fn largest_no(lines: Seq<DiffLine>) -> u32
    decreases lines.len(),
{
    if lines.len() == 0 {
        0
    } else {
        let rest = largest_no(lines.drop_last());
        let n = larger(lines.last().old_no, lines.last().new_no);
        if n >= rest {
            n
        } else {
            rest
        }
    }
}

/// Columns that line numbers take: enough for the largest, three at least.
pub open spec fn number_width(lines: Seq<DiffLine>) -> nat {
    let n = decimal(largest_no(lines) as nat).len();
    if n >= 3 {
        n
    } else {
        3
    }
}

fn number_columns(lines: &[DiffLine]) -> (r: usize)
    ensures
        r == number_width(lines@),
{
    let mut top: u32 = 0;
    let mut i: usize = 0;
    while i < lines.len()
        invariant
            i <= lines.len(),
            top == largest_no(lines@.take(i as int)),
        decreases lines.len() - i,
    {
        assert(lines@.take(i + 1).drop_last() =~= lines@.take(i as int));
        if let Some(n) = lines[i].old_no {
            if n > top {
                top = n;
            }
        }
        if let Some(n) = lines[i].new_no {
            if n > top {
                top = n;
            }
        }
        i += 1;
    }
    assert(lines@.take(i as int) =~= lines@);
    let n: usize = char_count(decimal_of(top as u64).as_str());
    if n >= 3 {
        n
    } else {
        3
    }
}

/// A line number in its column; blank where the line has none.
pub open spec fn number_text(n: Option<u32>, w: int) -> Seq<char> {
    match n {
        Some(k) => aligned_right(decimal(k as nat), w),
        None => spaces(w),
    }
}

fn number(n: Option<u32>, w: usize) -> (r: String)
    ensures
        r@ == number_text(n, w as int),
{
    match n {
        Some(k) => align_right(decimal_of(k as u64).as_str(), w),
        None => blank(w),
    }
}

// ---------------------------------------------------------------------------------------
// The text of a line

/// The sign of a line.
pub open spec fn sign_text(kind: LineKind) -> Seq<char> {
    match kind {
        LineKind::Added => "+"@,
        LineKind::Removed => "-"@,
        _ => " "@,
    }
}

/// The background of a line.
pub open spec fn kind_bg(kind: LineKind) -> Option<Color> {
    match kind {
        LineKind::Added => Some(add_bg()),
        LineKind::Removed => Some(del_bg()),
        _ => None,
    }
}

/// The style of a sign.
pub open spec fn sign_style(kind: LineKind) -> Style {
    Style {
        fg: Some(
            match kind {
                LineKind::Added => Color::Green,
                LineKind::Removed => Color::Red,
                _ => Color::Reset,
            },
        ),
        bg: Some(
            match kind_bg(kind) {
                Some(c) => c,
                None => Color::Reset,
            },
        ),
        bold: true,
        italic: false,
    }
}

/// The style of the text of a line.
pub open spec fn body_style(kind: LineKind) -> Style {
    match kind_bg(kind) {
        Some(c) => Style { fg: Some(Color::Reset), bg: Some(c), bold: false, italic: false },
        None => plain_style(),
    }
}

/// The line takes the full width: a header or a remark, not a line of the file.
pub open spec fn is_remark(kind: LineKind) -> bool {
    kind == LineKind::Meta || kind == LineKind::Hunk || kind == LineKind::NoNewline
}

/// The style of a remark.
pub open spec fn remark_style(kind: LineKind) -> Style {
    if kind == LineKind::Hunk {
        bold_fg_style(Color::Cyan)
    } else {
        fg_style(Color::DarkGray)
    }
}

fn sign_of(kind: LineKind) -> (r: (String, Style))
    ensures
        r.0@ == sign_text(kind),
        r.1 == sign_style(kind),
{
    match kind {
        LineKind::Added => (
            "+".to_owned(),
            Style {
                fg: Some(Color::Green),
                bg: Some(Color::Rgb(18, 46, 28)),
                bold: true,
                italic: false,
            },
        ),
        LineKind::Removed => (
            "-".to_owned(),
            Style {
                fg: Some(Color::Red),
                bg: Some(Color::Rgb(58, 22, 26)),
                bold: true,
                italic: false,
            },
        ),
        _ => (
            " ".to_owned(),
            Style { fg: Some(Color::Reset), bg: Some(Color::Reset), bold: true, italic: false },
        ),
    }
}

fn body_style_of(kind: LineKind) -> (r: Style)
    ensures
        r == body_style(kind),
{
    match kind {
        LineKind::Added => Style {
            fg: Some(Color::Reset),
            bg: Some(Color::Rgb(18, 46, 28)),
            bold: false,
            italic: false,
        },
        LineKind::Removed => Style {
            fg: Some(Color::Reset),
            bg: Some(Color::Rgb(58, 22, 26)),
            bold: false,
            italic: false,
        },
        _ => plain(),
    }
}

/// The style of a highlighted stretch over a line's own.
pub open spec fn over(s: SpanView, base: Style) -> Style {
    Style {
        fg: match s.fg {
            Fg::Rgb(r, g, b) => Some(Color::Rgb(r, g, b)),
            Fg::Indexed(n) => Some(Color::Indexed(n)),
            Fg::Default => base.fg,
        },
        bg: base.bg,
        bold: s.bold,
        italic: s.italic,
    }
}

fn over_of(s: &HlSpan, base: Style) -> (r: Style)
    ensures
        r == over(s@, base),
{
    Style {
        fg: match s.fg {
            Fg::Rgb(r, g, b) => Some(Color::Rgb(r, g, b)),
            Fg::Indexed(n) => Some(Color::Indexed(n)),
            Fg::Default => base.fg,
        },
        bg: base.bg,
        bold: s.bold,
        italic: s.italic,
    }
}

/// The highlighted stretches from `i` on without their first `skip` characters.
pub open spec fn clipped(spans: Seq<SpanView>, i: int, skip: int, base: Style) -> Seq<StyledView>
    decreases spans.len() - i,
{
    if i < 0 || i >= spans.len() {
        Seq::empty()
    } else {
        let s = spans[i];
        if skip >= s.text.len() {
            clipped(spans, i + 1, skip - s.text.len(), base)
        } else {
            seq![st(from_char(s.text, skip), over(s, base))] + clipped(spans, i + 1, 0, base)
        }
    }
}

fn clip(spans: &Vec<HlSpan>, skip: usize, base: Style) -> (r: Vec<Styled>)
    ensures
        line(r@) == clipped(span_views(spans@), 0, skip as int, base),
{
    let ghost all = span_views(spans@);
    let ghost goal = clipped(all, 0, skip as int, base);
    let mut out: Vec<Styled> = Vec::new();
    let mut left: usize = skip;
    let mut i: usize = 0;
    assert(line(out@) + goal =~= goal);
    while i < spans.len()
        invariant
            i <= spans.len(),
            all == span_views(spans@),
            line(out@) + clipped(all, i as int, left as int, base) == goal,
        decreases spans.len() - i,
    {
        let n: usize = char_count(spans[i].text.as_str());
        let ghost seen = line(out@);
        assert(all[i as int] == spans[i as int]@);
        if left >= n {
            left -= n;
        } else {
            let text = skip_chars(spans[i].text.as_str(), left);
            let style = over_of(&spans[i], base);
            put(&mut out, text, style);
            assert(line(out@) + clipped(all, i + 1, 0, base) =~= seen + (seq![st(text@, style)]
                + clipped(all, i + 1, 0, base)));
            left = 0;
        }
        i += 1;
    }
    assert(line(out@) =~= goal);
    out
}

/// The text of a line from column `skip` on: highlighted where it is, plain else.
pub open spec fn body_view(l: DiffLine, hl: Option<Seq<SpanView>>, skip: int) -> Seq<StyledView> {
    match hl {
        Some(spans) => clipped(spans, 0, skip, body_style(l.kind)),
        None => seq![st(from_char(l.text@, skip), body_style(l.kind))],
    }
}

fn body(l: &DiffLine, hl: Option<&Vec<HlSpan>>, skip: usize) -> (r: Vec<Styled>)
    ensures
        line(r@) == body_view(
            *l,
            match hl {
                Some(v) => Some(span_views(v@)),
                None => None,
            },
            skip as int,
        ),
{
    let base = body_style_of(l.kind);
    match hl {
        Some(v) => clip(v, skip, base),
        None => one(skip_chars(l.text.as_str(), skip), base),
    }
}

// ---------------------------------------------------------------------------------------
// Columns

/// What `ratatui::text::Span::width` says of a text.
pub uninterp spec fn span_width(s: Seq<char>) -> nat;

/// `ratatui::text::Span::width` of an unstyled span: the columns that a text takes on screen,
/// which the text alone determines.
#[verifier::external_body]
fn displayed(s: &str) -> (r: usize)
    ensures
        r == span_width(s@),
{
    ratatui::text::Span::raw(s).width()
}

/// Columns that a character takes on screen. Printable ASCII takes one each.
pub open spec fn columns(c: char) -> nat {
    if 32 <= c as int && (c as int) < 127 {
        1
    } else {
        span_width(seq![c])
    }
}

/// Columns that the characters of a text take on screen.
pub open spec fn text_columns(s: Seq<char>) -> nat
    decreases s.len(),
{
    if s.len() == 0 {
        0
    } else {
        text_columns(s.drop_last()) + columns(s.last())
    }
}

/// Columns that the characters of a line take on screen.
pub open spec fn line_columns(l: Seq<StyledView>) -> nat
    decreases l.len(),
{
    if l.len() == 0 {
        0
    } else {
        line_columns(l.drop_last()) + text_columns(l.last().text)
    }
}

fn columns_of(c: char) -> (r: usize)
    ensures
        r == columns(c),
{
    if 32 <= c as u32 && (c as u32) < 127 {
        1
    } else {
        let mut t = String::new();
        t.push(c);
        assert(t@ =~= seq![c]);
        displayed(t.as_str())
    }
}

/// Where the characters of `s` from `i` on no longer fit into `room` columns.
pub open spec fn fits_to(s: Seq<char>, i: int, room: int) -> int
    decreases s.len() - i,
{
    if i < 0 || i >= s.len() || columns(s[i]) > room {
        i
    } else {
        fits_to(s, i + 1, room - columns(s[i]))
    }
}

/// Find where `v` no longer fits into `room` columns, and how many of them stay free.
fn fill(v: &[char], room: usize) -> (r: (usize, usize))
    ensures
        r.0 <= v.len(),
        r.0 == fits_to(v@, 0, room as int),
        r.1 == room - text_columns(v@.take(r.0 as int)),
{
    let mut n: usize = 0;
    let mut left: usize = room;
    assert(v@.take(0) =~= Seq::<char>::empty());
    while n < v.len()
        invariant
            n <= v.len(),
            left <= room,
            left == room - text_columns(v@.take(n as int)),
            fits_to(v@, 0, room as int) == fits_to(v@, n as int, left as int),
        decreases v.len() - n,
    {
        let w: usize = columns_of(v[n]);
        if w > left {
            return (n, left);
        }
        assert(v@.take(n + 1).drop_last() =~= v@.take(n as int));
        left -= w;
        n += 1;
    }
    (n, left)
}

proof fn lemma_fits_to(s: Seq<char>, i: int, room: int)
    requires
        0 <= i <= s.len(),
        0 <= room,
    ensures
        i <= fits_to(s, i, room) <= s.len(),
        text_columns(s.take(fits_to(s, i, room))) <= text_columns(s.take(i)) + room,
    decreases s.len() - i,
{
    if i < s.len() && columns(s[i]) <= room {
        assert(s.take(i + 1).drop_last() =~= s.take(i));
        lemma_fits_to(s, i + 1, room - columns(s[i]));
    }
}

proof fn lemma_blank_columns(n: int)
    requires
        0 <= n,
    ensures
        text_columns(spaces(n)) == n,
    decreases n,
{
    if n > 0 {
        assert(spaces(n).drop_last() =~= spaces(n - 1));
        lemma_blank_columns(n - 1);
    }
}

/// `room` columns in `style`.
pub open spec fn filler(room: int, style: Style) -> Seq<StyledView> {
    if room <= 0 {
        Seq::empty()
    } else {
        seq![st(spaces(room), style)]
    }
}

/// The stretches of a line from `i` on in exactly `room` columns: what is too much is cut off,
/// what is left is filled in `style`. A wide character is never cut in half.
pub open spec fn fitted(l: Seq<StyledView>, i: int, room: int, style: Style) -> Seq<StyledView>
    decreases l.len() - i,
{
    if room <= 0 || i < 0 || i >= l.len() {
        filler(room, style)
    } else {
        let s = l[i];
        let n = fits_to(s.text, 0, room);
        let free = room - text_columns(s.text.take(n));
        if n < s.text.len() {
            seq![st(s.text.take(n), s.style)] + filler(free, style)
        } else {
            seq![s] + fitted(l, i + 1, free, style)
        }
    }
}

/// A line that is fitted into `room` columns takes just these, however wide its characters
/// are.
pub proof fn law_fitted_line_fills_its_room(l: Seq<StyledView>, i: int, room: int, style: Style)
    requires
        0 <= i,
        0 <= room,
    ensures
        line_columns(fitted(l, i, room, style)) == room,
    decreases l.len() - i,
{
    if room > 0 && i < l.len() {
        let s = l[i];
        let n = fits_to(s.text, 0, room);
        let free = room - text_columns(s.text.take(n));
        assert(s.text.take(0) =~= Seq::<char>::empty());
        lemma_fits_to(s.text, 0, room);
        if n < s.text.len() {
            lemma_filler(free, style);
            lemma_line_columns(st(s.text.take(n), s.style), filler(free, style));
        } else {
            assert(s.text.take(n) =~= s.text);
            law_fitted_line_fills_its_room(l, i + 1, free, style);
            lemma_line_columns(s, fitted(l, i + 1, free, style));
        }
    } else {
        lemma_filler(room, style);
    }
}

proof fn lemma_filler(room: int, style: Style)
    requires
        0 <= room,
    ensures
        line_columns(filler(room, style)) == room,
{
    lemma_blank_columns(room);
    if room > 0 {
        lemma_line_columns(st(spaces(room), style), Seq::empty());
        assert(seq![st(spaces(room), style)] + Seq::<StyledView>::empty() =~= filler(room, style));
    }
}

proof fn lemma_line_columns(s: StyledView, rest: Seq<StyledView>)
    ensures
        line_columns(seq![s] + rest) == text_columns(s.text) + line_columns(rest),
    decreases rest.len(),
{
    let all = seq![s] + rest;
    if rest.len() == 0 {
        assert(all.drop_last() =~= Seq::<StyledView>::empty());
        assert(line_columns(all.drop_last()) == 0);
    } else {
        assert(all.drop_last() =~= seq![s] + rest.drop_last());
        lemma_line_columns(s, rest.drop_last());
    }
}

fn fit(l: Vec<Styled>, room: usize, style: Style) -> (r: Vec<Styled>)
    ensures
        line(r@) == fitted(line(l@), 0, room as int, style),
{
    let ghost all = line(l@);
    let ghost goal = fitted(all, 0, room as int, style);
    let mut out: Vec<Styled> = Vec::new();
    let mut left: usize = room;
    let mut i: usize = 0;
    let mut cut = false;
    assert(line(out@) + goal =~= goal);
    while i < l.len() && left > 0 && !cut
        invariant
            i <= l.len(),
            all == line(l@),
            !cut ==> line(out@) + fitted(all, i as int, left as int, style) == goal,
            cut ==> line(out@) + filler(left as int, style) == goal,
        decreases l.len() - i,
    {
        let ghost seen = line(out@);
        let v = chars_of(l[i].text.as_str());
        let (n, free) = fill(&v, left);
        assert(all[i as int] == l[i as int]@);
        if n < v.len() {
            let text = text_of(&v, 0, n);
            assert(text@ =~= l[i as int].text@.take(n as int));
            put(&mut out, text, l[i].style);
            assert(line(out@) + filler(free as int, style) =~= seen + (seq![
                st(text@, l[i as int].style),
            ] + filler(free as int, style)));
            cut = true;
        } else {
            assert(v@.take(n as int) =~= v@);
            put(&mut out, l[i].text.clone(), l[i].style);
            assert(line(out@) + fitted(all, i + 1, free as int, style) =~= seen + (seq![
                all[i as int],
            ] + fitted(all, i + 1, free as int, style)));
        }
        left = free;
        i += 1;
    }
    if left > 0 {
        let ghost seen = line(out@);
        put(&mut out, blank(left), style);
        assert(line(out@) =~= seen + seq![st(spaces(left as int), style)]);
    } else {
        assert(line(out@) =~= goal);
    }
    out
}

// ---------------------------------------------------------------------------------------
// One column

/// The text of a line of the file in the column of a diff with `room` columns for it. Changed
/// lines are filled up so that the background spans the full width.
pub open spec fn column_body(
    l: DiffLine,
    hl: Option<Seq<SpanView>>,
    skip: int,
    room: int,
) -> Seq<StyledView> {
    let b = body_view(l, hl, skip);
    if kind_bg(l.kind) is Some && width_of(b) < room {
        b.push(st(spaces(room - width_of(b)), body_style(l.kind)))
    } else {
        b
    }
}

/// A line of a diff in one column, in a panel with `w` columns.
pub open spec fn unified_view(
    l: DiffLine,
    hl: Option<Seq<SpanView>>,
    num_w: int,
    skip: int,
    w: int,
) -> Seq<StyledView> {
    if is_remark(l.kind) {
        seq![st(from_char(l.text@, skip), remark_style(l.kind))]
    } else {
        let gutter = number_text(l.old_no, num_w) + " "@ + number_text(l.new_no, num_w) + " "@;
        seq![
            st(gutter, fg_style(Color::DarkGray)),
            st(sign_text(l.kind), sign_style(l.kind)),
        ] + column_body(l, hl, skip, less(w, gutter.len() as int + 1))
    }
}

/// A remark.
fn remark(l: &DiffLine, skip: usize) -> (r: Vec<Styled>)
    ensures
        line(r@) == seq![st(from_char(l.text@, skip as int), remark_style(l.kind))],
{
    let style = if l.kind == LineKind::Hunk {
        bold_fg(Color::Cyan)
    } else {
        fg(Color::DarkGray)
    };
    one(skip_chars(l.text.as_str(), skip), style)
}

fn unified_line(l: &DiffLine, hl: Option<&Vec<HlSpan>>, num_w: usize, skip: usize, w: usize) -> (r:
    Vec<Styled>)
    ensures
        line(r@) == unified_view(
            *l,
            match hl {
                Some(v) => Some(span_views(v@)),
                None => None,
            },
            num_w as int,
            skip as int,
            w as int,
        ),
{
    if l.kind == LineKind::Meta || l.kind == LineKind::Hunk || l.kind == LineKind::NoNewline {
        return remark(l, skip);
    }
    let ghost spans = match hl {
        Some(v) => Some(span_views(v@)),
        None => None,
    };
    let mut gutter = number(l.old_no, num_w);
    gutter.append(" ");
    gutter.append(number(l.new_no, num_w).as_str());
    gutter.append(" ");
    let ghost gt = gutter@;
    let used: usize = char_count(gutter.as_str());
    let room: usize = if w > used {
        w - used - 1
    } else {
        0
    };
    let (sign, sign_st) = sign_of(l.kind);
    let mut out: Vec<Styled> = Vec::new();
    put(&mut out, gutter, fg(Color::DarkGray));
    put(&mut out, sign, sign_st);
    let mut text = body(l, hl, skip);
    let n: usize = line_width(&text);
    let changed = l.kind == LineKind::Added || l.kind == LineKind::Removed;
    if changed && n < room {
        put(&mut text, blank(room - n), body_style_of(l.kind));
    }
    assert(line(text@) =~= column_body(*l, spans, skip as int, room as int));
    let ghost head = line(out@);
    let ghost tail = line(text@);
    out.append(&mut text);
    assert(line(out@) =~= head + tail);
    assert(head =~= seq![
        st(gt, fg_style(Color::DarkGray)),
        st(sign_text(l.kind), sign_style(l.kind)),
    ]);
    out
}

// ---------------------------------------------------------------------------------------
// Side by side

/// One side of a row, in `w` columns: the number that the line has on this side, its sign and
/// its text; blank where there is no line.
pub open spec fn cell_view(
    l: Option<DiffLine>,
    hl: Option<Seq<SpanView>>,
    old: bool,
    num_w: int,
    skip: int,
    w: int,
) -> Seq<StyledView> {
    match l {
        None => seq![st(spaces(w), plain_style())],
        Some(l) => {
            let no = if old {
                l.old_no
            } else {
                l.new_no
            };
            fitted(
                seq![
                    st(number_text(no, num_w) + " "@, fg_style(Color::DarkGray)),
                    st(sign_text(l.kind), sign_style(l.kind)),
                ] + body_view(l, hl, skip),
                0,
                w,
                body_style(l.kind),
            )
        },
    }
}

fn cell(
    l: Option<&DiffLine>,
    hl: Option<&Vec<HlSpan>>,
    old: bool,
    num_w: usize,
    skip: usize,
    w: usize,
) -> (r: Vec<Styled>)
    ensures
        line(r@) == cell_view(
            match l {
                Some(x) => Some(*x),
                None => None,
            },
            match hl {
                Some(v) => Some(span_views(v@)),
                None => None,
            },
            old,
            num_w as int,
            skip as int,
            w as int,
        ),
{
    match l {
        None => one(blank(w), plain()),
        Some(l) => {
            let mut no = number(
                if old {
                    l.old_no
                } else {
                    l.new_no
                },
                num_w,
            );
            no.append(" ");
            let ghost nt = no@;
            let (sign, sign_st) = sign_of(l.kind);
            let mut out: Vec<Styled> = Vec::new();
            put(&mut out, no, fg(Color::DarkGray));
            put(&mut out, sign, sign_st);
            let mut text = body(l, hl, skip);
            let ghost head = line(out@);
            let ghost tail = line(text@);
            out.append(&mut text);
            assert(line(out@) =~= head + tail);
            assert(head =~= seq![
                st(nt, fg_style(Color::DarkGray)),
                st(sign_text(l.kind), sign_style(l.kind)),
            ]);
            fit(out, w, body_style_of(l.kind))
        },
    }
}

/// The line with that index, where there is one.
pub open spec fn line_at(lines: Seq<DiffLine>, i: Option<usize>) -> Option<DiffLine> {
    match i {
        Some(k) => if k < lines.len() {
            Some(lines[k as int])
        } else {
            None
        },
        None => None,
    }
}

/// The highlighted stretches of the line with that index, where there are some.
pub open spec fn spans_at(hl: Seq<Option<Vec<HlSpan>>>, i: Option<usize>) -> Option<Seq<SpanView>> {
    match i {
        Some(k) => if k < hl.len() {
            match hl[k as int] {
                Some(v) => Some(span_views(v@)),
                None => None,
            }
        } else {
            None
        },
        None => None,
    }
}

/// Columns of the left side: half of what the line between the sides leaves.
pub open spec fn left_columns(w: int) -> int {
    less(w, 1) / 2
}

/// A row of a diff, in a panel with `w` columns.
pub open spec fn row_view(v: DiffView, lines: Seq<DiffLine>, row: Row, num_w: int, w: int) -> Seq<
    StyledView,
> {
    let hl = v.highlights@;
    let skip = v.hscroll as int;
    match row {
        Row::Full(i) => match line_at(lines, Some(i)) {
            Some(l) => unified_view(l, spans_at(hl, Some(i)), num_w, skip, w),
            None => Seq::empty(),
        },
        Row::Pair { left, right } => cell_view(
            line_at(lines, left),
            spans_at(hl, left),
            true,
            num_w,
            skip,
            left_columns(w),
        ) + seq![st("│"@, fg_style(Color::DarkGray))] + cell_view(
            line_at(lines, right),
            spans_at(hl, right),
            false,
            num_w,
            skip,
            less(w, 1) - left_columns(w),
        ),
    }
}

fn get_line<'a>(lines: &'a [DiffLine], i: Option<usize>) -> (r: Option<&'a DiffLine>)
    ensures
        match r {
            Some(l) => line_at(lines@, i) == Some(*l),
            None => line_at(lines@, i) is None,
        },
{
    match i {
        Some(k) => if k < lines.len() {
            Some(&lines[k])
        } else {
            None
        },
        None => None,
    }
}

fn get_spans<'a>(hl: &'a Highlights, i: Option<usize>) -> (r: Option<&'a Vec<HlSpan>>)
    ensures
        match r {
            Some(v) => spans_at(hl@, i) == Some(span_views(v@)),
            None => spans_at(hl@, i) is None,
        },
{
    match i {
        Some(k) => if k < hl.len() {
            match &hl[k] {
                Some(v) => Some(v),
                None => None,
            }
        } else {
            None
        },
        None => None,
    }
}

fn row_line(v: &DiffView, lines: &[DiffLine], row: Row, num_w: usize, w: usize) -> (r: Vec<Styled>)
    ensures
        line(r@) == row_view(*v, lines@, row, num_w as int, w as int),
{
    match row {
        Row::Full(i) => match get_line(lines, Some(i)) {
            Some(l) => unified_line(l, get_spans(&v.highlights, Some(i)), num_w, v.hscroll, w),
            None => {
                let out: Vec<Styled> = Vec::new();
                assert(line(out@) =~= Seq::<StyledView>::empty());
                out
            },
        },
        Row::Pair { left, right } => {
            let inner: usize = if w > 0 {
                w - 1
            } else {
                0
            };
            let half: usize = inner / 2;
            let mut out = cell(
                get_line(lines, left),
                get_spans(&v.highlights, left),
                true,
                num_w,
                v.hscroll,
                half,
            );
            put(&mut out, "│".to_owned(), fg(Color::DarkGray));
            let mut other = cell(
                get_line(lines, right),
                get_spans(&v.highlights, right),
                false,
                num_w,
                v.hscroll,
                inner - half,
            );
            let ghost head = line(out@);
            let ghost tail = line(other@);
            out.append(&mut other);
            assert(line(out@) =~= head + tail);
            assert(line(out@) =~= row_view(*v, lines@, row, num_w as int, w as int));
            out
        },
    }
}

// ---------------------------------------------------------------------------------------
// The panel

/// The rows that fit into the viewport, from the one at its top on.
pub open spec fn visible(rows: Seq<Row>, top: int, height: int) -> Seq<Row> {
    if top >= rows.len() {
        Seq::empty()
    } else if rows.len() - top <= height {
        rows.skip(top)
    } else {
        rows.subrange(top, top + height)
    }
}

/// The title of a diff: its file, and how far down it is scrolled.
pub open spec fn diff_title(v: DiffView, lines: Seq<DiffLine>) -> Seq<StyledView> {
    let pos = if lines.len() == 0 {
        0nat
    } else if v.scroll == usize::MAX {
        usize::MAX as nat
    } else {
        v.scroll as nat + 1
    };
    seq![
        st(" "@, plain_style()),
        st(v.path@, bold_style()),
        st(
            " "@ + decimal(pos) + "/"@ + decimal(lines.len()) + " "@,
            fg_style(Color::DarkGray),
        ),
    ]
}

/// The panel of the diff.
pub open spec fn diff_view(app: App) -> PanelView {
    let focused = app.focus == Focus::Diff;
    match app.diff {
        None => message_view(
            " Diff "@,
            focused,
            if app.selected_file() is Some {
                "loading…"@
            } else {
                ""@
            },
            fg_style(Color::DarkGray),
            false,
        ),
        Some(v) => match v.lines {
            Err(e) => message_view(" Diff "@, focused, e@, fg_style(Color::Red), true),
            Ok(l) => {
                let rows = v.layout(app.is_split()).rows@;
                let shown = visible(rows, v.top(app.is_split()) as int, app.diff_height as int);
                PanelView {
                    title: diff_title(v, l@),
                    focused,
                    body: BodyView::Text {
                        lines: shown.map_values(
                            |r: Row|
                                row_view(v, l@, r, number_width(l@) as int, app.diff_width as int),
                        ),
                        wrap: false,
                    },
                }
            },
        },
    }
}

/// The panel of the diff, as large as the last layout of the screen made it.
pub fn diff_panel(app: &App) -> (r: Panel)
    ensures
        r@ == diff_view(*app),
{
    let focused = app.focus == Focus::Diff;
    let v = match &app.diff {
        Some(v) => v,
        None => {
            let text = if app.file().is_some() {
                "loading…"
            } else {
                ""
            };
            return message_panel(
                " Diff ".to_owned(),
                focused,
                text.to_owned(),
                fg(Color::DarkGray),
                false,
            );
        },
    };
    let l = match &v.lines {
        Ok(l) => l,
        Err(e) => {
            return message_panel(" Diff ".to_owned(), focused, e.clone(), fg(Color::Red), true);
        },
    };
    let pos: usize = if l.len() == 0 {
        0
    } else {
        v.scroll.saturating_add(1)
    };
    let mut place = " ".to_owned();
    place.append(decimal_of(pos as u64).as_str());
    place.append("/");
    place.append(decimal_of(l.len() as u64).as_str());
    place.append(" ");
    let mut title: Vec<Styled> = Vec::new();
    put(&mut title, " ".to_owned(), plain());
    put(&mut title, v.path.clone(), bold());
    put(&mut title, place, fg(Color::DarkGray));
    assert(line(title@) =~= diff_title(*v, l@));
    let split = app.split_active();
    let num_w: usize = number_columns(l.as_slice());
    let rows = v.rows(split);
    let top: usize = v.top_row(split);
    let height: usize = app.diff_height;
    let ghost shown = visible(rows.rows@, top as int, height as int);
    let ghost all = shown.map_values(
        |r: Row| row_view(*v, l@, r, number_width(l@) as int, app.diff_width as int),
    );
    let mut lines: Vec<Vec<Styled>> = Vec::new();
    let mut k: usize = 0;
    assert(text_lines(lines@) =~= all.take(0));
    while top < rows.rows.len() && k < rows.rows.len() - top && k < height
        invariant
            k <= shown.len(),
            shown == visible(rows.rows@, top as int, height as int),
            num_w == number_width(l@),
            all == shown.map_values(
                |r: Row| row_view(*v, l@, r, number_width(l@) as int, app.diff_width as int),
            ),
            text_lines(lines@) == all.take(k as int),
        decreases shown.len() - k,
    {
        let ghost before = lines@;
        assert(shown[k as int] == rows.rows@[top + k]);
        lines.push(row_line(v, l.as_slice(), rows.rows[top + k], num_w, app.diff_width));
        assert(text_lines(lines@) =~= text_lines(before).push(all[k as int]));
        assert(text_lines(lines@) =~= all.take(k + 1));
        k += 1;
    }
    assert(all.take(k as int) =~= all);
    Panel { title, focused, body: Body::Text { lines, wrap: false } }
}

} // verus!
