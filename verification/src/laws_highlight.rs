//! What holds of highlighted diffs.

use syntect::highlighting::Theme;
use syntect::parsing::{SyntaxReference, SyntaxSet};
use vstd::prelude::*;
use vstd::string::*;
use vstd::utf8::encode_utf8;

use crate::diff::{DiffLine, LineKind};
use crate::highlight::{
    chomped, highlighted, lower, on_side, painted, same_but_case, span, spans, stream,
    syntax_by_extension, syntax_name, syntax_of, theme_place, Fg, Highlighter, PieceView, SpanView,
};
use crate::paths::{extension, file_name};

verus! {

// ---------------------------------------------------------------------------------------
// The two versions of a file

/// The lines of `lines` that the old version of the file has, or the new one, each with its
/// line end. Lines of more than 2000 bytes are passed over.
pub open spec fn version(set: SyntaxSet, lines: Seq<DiffLine>, side: LineKind) -> Seq<
    (SyntaxSet, Seq<char>),
> {
    lines.filter(
        |l: DiffLine|
            (l.kind == LineKind::Context || l.kind == side) && encode_utf8(l.text@).len() <= 2000,
    ).map_values(|l: DiffLine| (set, l.text@.push('\n')))
}

/// What comes out for the last of these lines.
pub open spec fn shown_as(
    syntax: SyntaxReference,
    theme: Theme,
    lines: Seq<(SyntaxSet, Seq<char>)>,
) -> Option<Seq<SpanView>> {
    match painted(syntax, theme, lines) {
        Some(pieces) => Some(spans(pieces)),
        None => None,
    }
}

/// `start` is where the hunk starts that line `i` is in: right behind its header, or at the
/// start of the diff where no header comes before.
pub open spec fn hunk_start(lines: Seq<DiffLine>, start: int, i: int) -> bool {
    &&& 0 <= start <= i < lines.len()
    &&& start == 0 || lines[start - 1].kind == LineKind::Hunk
    &&& forall|j: int| start <= j < i ==> (#[trigger] lines[j]).kind != LineKind::Hunk
}

proof fn lemma_version_grows(set: SyntaxSet, lines: Seq<DiffLine>, l: DiffLine, side: LineKind)
    ensures
        version(set, lines.push(l), side) == (if (l.kind == LineKind::Context || l.kind == side)
            && encode_utf8(l.text@).len() <= 2000 {
            version(set, lines, side).push((set, l.text@.push('\n')))
        } else {
            version(set, lines, side)
        }),
{
    let all = lines.push(l);
    assert(all.drop_last() =~= lines);
    assert(all.last() == l);
    reveal(Seq::filter);
    assert(version(set, all, side) =~= (if (l.kind == LineKind::Context || l.kind == side)
        && encode_utf8(l.text@).len() <= 2000 {
        version(set, lines, side).push((set, l.text@.push('\n')))
    } else {
        version(set, lines, side)
    }));
}

/// What the highlighter of a side has gone through before a line is that side of the hunk.
proof fn lemma_stream_is_version(
    set: SyntaxSet,
    lines: Seq<DiffLine>,
    start: int,
    i: int,
    old: bool,
)
    requires
        0 <= start <= i <= lines.len(),
        start == 0 || lines[start - 1].kind == LineKind::Hunk,
        forall|j: int| start <= j < i ==> (#[trigger] lines[j]).kind != LineKind::Hunk,
    ensures
        stream(set, lines, i, old) == version(
            set,
            lines.subrange(start, i),
            if old {
                LineKind::Removed
            } else {
                LineKind::Added
            },
        ),
    decreases i - start,
{
    let side = if old {
        LineKind::Removed
    } else {
        LineKind::Added
    };
    if i == start {
        assert(lines.subrange(start, i).len() == 0);
        reveal(Seq::filter);
        assert(version(set, lines.subrange(start, i), side) =~= Seq::empty());
        assert(stream(set, lines, i, old) =~= Seq::empty());
    } else {
        lemma_stream_is_version(set, lines, start, i - 1, old);
        assert(lines.subrange(start, i) =~= lines.subrange(start, i - 1).push(lines[i - 1]));
        lemma_version_grows(set, lines.subrange(start, i - 1), lines[i - 1], side);
        assert(lines[i - 1].kind != LineKind::Hunk);
    }
}

/// A removed line gets the spans that the highlighter makes of it behind all lines of its hunk
/// that stay or are removed, in their order; an added line, or one that stays, those that it
/// makes of it behind all that stay or are added.
pub proof fn law_lines_are_read_in_their_version(
    h: Highlighter,
    path: Seq<char>,
    syntax: SyntaxReference,
    lines: Seq<DiffLine>,
    start: int,
    i: int,
)
    requires
        hunk_start(lines, start, i),
        lines.len() <= 10_000,
        syntax_of(h.definitions(), path) == Some(syntax),
        encode_utf8(lines[i].text@).len() <= 2000,
    ensures
        highlighted(h, path, lines).len() == lines.len(),
        lines[i].kind == LineKind::Removed ==> highlighted(h, path, lines)[i] == shown_as(
            syntax,
            h.colors(),
            version(h.definitions(), lines.subrange(start, i + 1), LineKind::Removed),
        ),
        lines[i].kind == LineKind::Added || lines[i].kind == LineKind::Context ==> highlighted(
            h,
            path,
            lines,
        )[i] == shown_as(
            syntax,
            h.colors(),
            version(h.definitions(), lines.subrange(start, i + 1), LineKind::Added),
        ),
{
    let set = h.definitions();
    let old = lines[i].kind == LineKind::Removed;
    let side = if old {
        LineKind::Removed
    } else {
        LineKind::Added
    };
    lemma_stream_is_version(set, lines, start, i, old);
    assert(lines.subrange(start, i + 1) =~= lines.subrange(start, i).push(lines[i]));
    lemma_version_grows(set, lines.subrange(start, i), lines[i], side);
}

/// Lines that are of neither version stay plain, and so do lines of more than 2000 bytes, files
/// without a syntax, and diffs of more than 10000 lines.
pub proof fn law_other_lines_stay_plain(
    h: Highlighter,
    path: Seq<char>,
    lines: Seq<DiffLine>,
    i: int,
)
    requires
        0 <= i < lines.len(),
        ({
            ||| lines[i].kind == LineKind::Meta
            ||| lines[i].kind == LineKind::Hunk
            ||| lines[i].kind == LineKind::NoNewline
            ||| encode_utf8(lines[i].text@).len() > 2000
            ||| lines.len() > 10_000
            ||| syntax_of(h.definitions(), path) is None
        }),
    ensures
        highlighted(h, path, lines)[i] is None,
{
}

/// The old version of a diff alone: the added lines are taken out, and the removed ones stay.
pub open spec fn old_alone(lines: Seq<DiffLine>) -> Seq<DiffLine>
    decreases lines.len(),
{
    if lines.len() == 0 {
        lines
    } else {
        let l = lines.last();
        let rest = old_alone(lines.drop_last());
        match l.kind {
            LineKind::Added => rest,
            LineKind::Removed => rest.push(
                DiffLine {
                    kind: LineKind::Context,
                    old_no: l.old_no,
                    new_no: l.new_no,
                    text: l.text,
                },
            ),
            _ => rest.push(l),
        }
    }
}

proof fn lemma_old_alone_len(lines: Seq<DiffLine>)
    ensures
        old_alone(lines).len() <= lines.len(),
    decreases lines.len(),
{
    if lines.len() > 0 {
        lemma_old_alone_len(lines.drop_last());
    }
}

proof fn lemma_old_alone_prefix(lines: Seq<DiffLine>, i: int)
    requires
        0 <= i <= lines.len(),
    ensures
        old_alone(lines.take(i)).is_prefix_of(old_alone(lines)),
    decreases lines.len() - i,
{
    if i < lines.len() {
        lemma_old_alone_prefix(lines, i + 1);
        assert(lines.take(i + 1).drop_last() =~= lines.take(i));
        assert(old_alone(lines.take(i)) =~= old_alone(lines.take(i + 1)).take(
            old_alone(lines.take(i)).len() as int,
        ));
        assert(old_alone(lines.take(i)) =~= old_alone(lines).take(
            old_alone(lines.take(i)).len() as int,
        ));
    } else {
        assert(lines.take(i) =~= lines);
    }
}

proof fn lemma_stream_prefix(
    set: SyntaxSet,
    a: Seq<DiffLine>,
    b: Seq<DiffLine>,
    n: int,
    old: bool,
)
    requires
        n <= a.len(),
        n <= b.len(),
        forall|j: int| 0 <= j < n ==> a[j] == b[j],
    ensures
        stream(set, a, n, old) == stream(set, b, n, old),
    decreases n,
{
    if n > 0 {
        lemma_stream_prefix(set, a, b, n - 1, old);
    }
}

proof fn lemma_stream_of_old_alone(set: SyntaxSet, lines: Seq<DiffLine>)
    ensures
        stream(set, old_alone(lines), old_alone(lines).len() as int, false) == stream(
            set,
            lines,
            lines.len() as int,
            true,
        ),
    decreases lines.len(),
{
    if lines.len() > 0 {
        let head = lines.drop_last();
        let rest = old_alone(head);
        let all = old_alone(lines);
        lemma_stream_of_old_alone(set, head);
        lemma_stream_prefix(set, head, lines, lines.len() - 1, true);
        lemma_stream_prefix(set, rest, all, rest.len() as int, false);
        assert(all.len() > rest.len() ==> all.len() == rest.len() + 1 && all[rest.len() as int].text
            == lines.last().text);
    }
}

/// A removed line is highlighted as it is in the old version of the diff alone, where it is a
/// line like any other.
pub proof fn law_removed_lines_are_those_of_the_old_version(
    h: Highlighter,
    path: Seq<char>,
    lines: Seq<DiffLine>,
    i: int,
)
    requires
        0 <= i < lines.len(),
        lines.len() <= 10_000,
        lines[i].kind == LineKind::Removed,
    ensures
        ({
            let alone = old_alone(lines);
            let k = old_alone(lines.take(i)).len() as int;
            &&& 0 <= k < alone.len()
            &&& alone[k].text == lines[i].text
            &&& alone[k].kind == LineKind::Context
            &&& highlighted(h, path, lines)[i] == highlighted(h, path, alone)[k]
        }),
{
    let alone = old_alone(lines);
    let before = old_alone(lines.take(i));
    let k = before.len() as int;
    let upto = old_alone(lines.take(i + 1));
    assert(lines.take(i + 1).drop_last() =~= lines.take(i));
    assert(upto.len() == k + 1);
    lemma_old_alone_prefix(lines, i + 1);
    lemma_old_alone_prefix(lines, i);
    lemma_old_alone_len(lines);
    assert(alone[k] == upto[k]);
    let set = h.definitions();
    lemma_stream_of_old_alone(set, lines.take(i));
    lemma_stream_prefix(set, lines.take(i), lines, i, true);
    lemma_stream_prefix(set, before, alone, k, false);
}

/// The diff the other way round: what was removed is added, and what was added is removed.
pub open spec fn swapped(lines: Seq<DiffLine>) -> Seq<DiffLine> {
    lines.map_values(
        |l: DiffLine|
            DiffLine {
                kind: match l.kind {
                    LineKind::Removed => LineKind::Added,
                    LineKind::Added => LineKind::Removed,
                    other => other,
                },
                old_no: l.new_no,
                new_no: l.old_no,
                text: l.text,
            },
    )
}

proof fn lemma_stream_swapped(set: SyntaxSet, lines: Seq<DiffLine>, i: int, old: bool)
    requires
        0 <= i <= lines.len(),
    ensures
        stream(set, swapped(lines), i, old) == stream(set, lines, i, !old),
    decreases i,
{
    if i > 0 {
        lemma_stream_swapped(set, lines, i - 1, old);
        let l = lines[i - 1];
        assert(swapped(lines)[i - 1].text == l.text);
        assert(on_side(swapped(lines)[i - 1].kind, old) == on_side(l.kind, !old));
    }
}

/// With the diff turned round, each line that was removed gets the spans that it has as an
/// added one, and the other way round.
pub proof fn law_turned_diffs_swap_the_versions(
    h: Highlighter,
    path: Seq<char>,
    lines: Seq<DiffLine>,
    i: int,
)
    requires
        0 <= i < lines.len(),
        lines[i].kind == LineKind::Removed || lines[i].kind == LineKind::Added,
    ensures
        swapped(lines)[i].kind == (if lines[i].kind == LineKind::Removed {
            LineKind::Added
        } else {
            LineKind::Removed
        }),
        highlighted(h, path, swapped(lines))[i] == highlighted(h, path, lines)[i],
{
    let set = h.definitions();
    lemma_stream_swapped(set, lines, i, true);
    lemma_stream_swapped(set, lines, i, false);
    assert(swapped(lines)[i].text == lines[i].text);
}

// ---------------------------------------------------------------------------------------
// Spans

/// The spans of a line are those of its stretches, one behind the other.
pub proof fn law_spans_follow_the_stretches(a: Seq<PieceView>, b: Seq<PieceView>)
    ensures
        spans(a + b) == spans(a) + spans(b),
    decreases b.len(),
{
    if b.len() == 0 {
        assert(a + b =~= a);
    } else {
        law_spans_follow_the_stretches(a, b.drop_last());
        assert((a + b).drop_last() =~= a + b.drop_last());
        assert(spans(a + b) =~= spans(a) + spans(b));
    }
}

proof fn lemma_chomped(t: Seq<char>, ends: Seq<char>)
    requires
        t.len() == 0 || t.last() != '\n',
        forall|k: int| 0 <= k < ends.len() ==> ends[k] == '\n',
    ensures
        chomped(t + ends) == t,
    decreases ends.len(),
{
    if ends.len() == 0 {
        assert(t + ends =~= t);
    } else {
        assert((t + ends).drop_last() =~= t + ends.drop_last());
        lemma_chomped(t, ends.drop_last());
    }
}

/// A stretch becomes one span: its text without the line ends, its style, and its color. An
/// alpha of 0 stands for a palette color, one of 1 for the default color. A stretch of line ends
/// alone becomes none.
pub proof fn law_stretches_keep_their_style(p: PieceView, t: Seq<char>, ends: Seq<char>)
    requires
        p.text == t + ends,
        t.len() == 0 || t.last() != '\n',
        forall|k: int| 0 <= k < ends.len() ==> ends[k] == '\n',
    ensures
        t.len() == 0 ==> spans(seq![p]).len() == 0,
        t.len() > 0 ==> {
            let s = spans(seq![p]);
            &&& s.len() == 1
            &&& s[0].text == t
            &&& s[0].bold == p.bold
            &&& s[0].italic == p.italic
            &&& p.a == 0 ==> s[0].fg == Fg::Indexed(p.r)
            &&& p.a == 1 ==> s[0].fg == Fg::Default
            &&& p.a > 1 ==> s[0].fg == Fg::Rgb(p.r, p.g, p.b)
        },
        spans(Seq::<PieceView>::empty()).len() == 0,
{
    lemma_chomped(t, ends);
    let one = seq![p];
    assert(one.drop_last() =~= Seq::<PieceView>::empty());
    assert(one.last() == p);
    reveal_with_fuel(spans, 2);
    assert(span(p).text == t);
}

// ---------------------------------------------------------------------------------------
// Syntaxes and themes

/// The syntax goes by the extension of the file's name first, and by the whole name where
/// nothing is known of the extension or there is none. Plain text is no syntax.
pub proof fn law_syntax_goes_by_extension(set: SyntaxSet, path: Seq<char>, name: Seq<char>)
    requires
        file_name(path) == Some(name),
    ensures
        ({
            let by_name = syntax_by_extension(set, name);
            let found = match extension(name) {
                Some(e) => match syntax_by_extension(set, e) {
                    Some(s) => Some(s),
                    None => by_name,
                },
                None => by_name,
            };
            &&& found is None ==> syntax_of(set, path) is None
            &&& found matches Some(s) ==> if syntax_name(s) == "Plain Text"@ {
                syntax_of(set, path) is None
            } else {
                syntax_of(set, path) == Some(s)
            }
        }),
{
}

/// Two characters are the same, or the capital and the small one of an ASCII letter.
pub open spec fn same_letter(a: char, b: char) -> bool {
    ||| a == b
    ||| 'A' <= a <= 'Z' && b as int == a as int + 32
    ||| 'A' <= b <= 'Z' && a as int == b as int + 32
}

/// The names differ in nothing but the case of ASCII letters.
pub open spec fn same_name(a: Seq<char>, b: Seq<char>) -> bool {
    a.len() == b.len() && forall|k: int| 0 <= k < a.len() ==> same_letter(a[k], #[trigger] b[k])
}

proof fn lemma_same_name(a: Seq<char>, b: Seq<char>)
    ensures
        same_but_case(a, b) == same_name(a, b),
{
    let la = a.map_values(|c: char| lower(c));
    let lb = b.map_values(|c: char| lower(c));
    assert forall|x: char, y: char| #[trigger] same_letter(x, y) == (lower(x) == lower(y)) by {}
    if same_but_case(a, b) {
        assert(la.len() == a.len() && lb.len() == b.len());
        assert forall|k: int| 0 <= k < a.len() implies same_letter(a[k], #[trigger] b[k]) by {
            assert(la[k] == lb[k]);
        }
    }
    if same_name(a, b) {
        assert forall|k: int| 0 <= k < la.len() implies la[k] == lb[k] by {
            assert(same_letter(a[k], b[k]));
        }
        assert(la =~= lb);
    }
}

/// A theme is found by its name, whatever the case: the first of that name, and none just where
/// no theme has it.
pub proof fn law_themes_are_found_by_name(names: Seq<Seq<char>>, name: Seq<char>)
    ensures
        match theme_place(names, name) {
            Some(i) => {
                &&& 0 <= i < names.len()
                &&& same_name(names[i], name)
                &&& forall|j: int| 0 <= j < i ==> !same_name(#[trigger] names[j], name)
            },
            None => forall|j: int| 0 <= j < names.len() ==> !same_name(#[trigger] names[j], name),
        },
    decreases names.len(),
{
    if names.len() > 0 {
        law_themes_are_found_by_name(names.drop_last(), name);
        lemma_same_name(names.last(), name);
        assert forall|j: int| 0 <= j < names.len() - 1 implies names[j] == names.drop_last()[j] by {}
    }
}

} // verus!
