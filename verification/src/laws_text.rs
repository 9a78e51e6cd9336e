//! What holds of texts: how they are split, read and ordered.

use vstd::prelude::*;
use vstd::string::*;

use crate::diff::{expanded, hunk_header};
use crate::paths::{extension, file_name, joined_path, last_index, last_named};
use crate::text::{
    aligned_right, all_digits, before, decimal, first, has, integer, is_space, join, lemma_first,
    lemma_first_bounds, lines, padded, parsed_u32, split, trim, trim_end, trim_start, value,
    word_len, words,
};

verus! {

// ---------------------------------------------------------------------------------------
// Numbers

proof fn lemma_decimal(n: nat)
    ensures
        decimal(n).len() > 0,
        all_digits(decimal(n)),
        value(decimal(n)) == n,
    decreases n,
{
    if n < 10 {
        let s = decimal(n);
        assert(s.drop_last() =~= Seq::<char>::empty());
        assert(value(s.drop_last()) == 0);
    } else {
        lemma_decimal(n / 10);
        let head = decimal(n / 10);
        let s = decimal(n);
        assert(s.drop_last() =~= head);
        assert forall|i: int| 0 <= i < s.len() implies crate::text::is_digit(#[trigger] s[i]) by {
            if i < head.len() {
                assert(s[i] == head[i]);
            }
        }
    }
}

/// A number that is written in decimal is read back as the same number.
pub proof fn law_numbers_read_back(n: u32)
    ensures
        parsed_u32(decimal(n as nat)) == Some(n),
        parsed_u32(seq!['+'] + decimal(n as nat)) == Some(n),
{
    lemma_decimal(n as nat);
    let d = decimal(n as nat);
    assert(crate::text::is_digit(d[0]));
    let p = seq!['+'] + d;
    assert(p.skip(1) =~= d);
}

/// Decimal digits: those below ten by themselves, and in front of the last digit of a larger
/// number stand those of its tenth.
pub proof fn law_digits_of_numbers(q: nat, d: nat)
    requires
        d < 10,
    ensures
        decimal(d).len() == 1 && decimal(d)[0] as int == 48 + d,
        q > 0 ==> decimal(10 * q + d) == decimal(q) + decimal(d),
{
    if q > 0 {
        assert((10 * q + d) / 10 == q && (10 * q + d) % 10 == d);
        assert(decimal(10 * q + d) =~= decimal(q) + decimal(d));
    }
}

/// What is no run of digits, but for a plus sign in front, is no number.
pub proof fn law_other_texts_are_no_numbers(s: Seq<char>, i: int)
    requires
        s.len() == 0 || (0 <= i < s.len() && !('0' <= s[i] && s[i] <= '9') && !(i == 0 && s[0]
            == '+')),
    ensures
        parsed_u32(s) is None,
{
    if s.len() > 0 && s[0] == '+' {
        assert(s.skip(1)[i - 1] == s[i]);
    }
}

// ---------------------------------------------------------------------------------------
// Words, lines and tabs

proof fn lemma_word_len_of(w: Seq<char>, rest: Seq<char>)
    requires
        forall|i: int| 0 <= i < w.len() ==> !is_space(#[trigger] w[i]),
        rest.len() == 0 || is_space(rest[0]),
    ensures
        word_len(w + rest) == w.len(),
    decreases w.len(),
{
    if w.len() > 0 {
        assert((w + rest).skip(1) =~= w.skip(1) + rest);
        assert forall|i: int| 0 <= i < w.skip(1).len() implies !is_space(#[trigger] w.skip(1)[i]) by {
            assert(w.skip(1)[i] == w[i + 1]);
        }
        assert((w + rest)[0] == w[0]);
        lemma_word_len_of(w.skip(1), rest);
    } else {
        assert(w + rest =~= rest);
    }
}

/// A text starts with a word, which goes up to the first white space, and the other words are
/// those of what follows. White space in front is passed over.
pub proof fn law_words_stand_between_spaces(w: Seq<char>, c: char, rest: Seq<char>)
    requires
        w.len() > 0,
        forall|i: int| 0 <= i < w.len() ==> !is_space(#[trigger] w[i]),
        is_space(c),
    ensures
        words(w + seq![c] + rest) == seq![w] + words(rest),
        words(w) == seq![w],
        words(seq![c] + rest) == words(rest),
{
    let gap = seq![c] + rest;
    assert(gap.skip(1) =~= rest);
    let all = w + gap;
    assert(all =~= w + seq![c] + rest);
    let tail = w.skip(1);
    assert forall|i: int| 0 <= i < tail.len() implies !is_space(#[trigger] tail[i]) by {
        assert(tail[i] == w[i + 1]);
    }
    assert(all.skip(1) =~= tail + gap);
    lemma_word_len_of(tail, gap);
    assert(all[0] == w[0]);
    assert(all.take(w.len() as int) =~= w);
    assert(all.skip(w.len() as int) =~= gap);
    assert(words(gap) == words(rest));
    lemma_word_len_of(tail, Seq::empty());
    assert(tail + Seq::<char>::empty() =~= tail);
    assert(w.take(w.len() as int) =~= w);
    assert(w.skip(w.len() as int) =~= Seq::<char>::empty());
    assert(words(w.skip(w.len() as int)) =~= Seq::<Seq<char>>::empty());
    assert(words(w) =~= seq![w]);
}

/// The first line of a text goes up to its first newline, and the other lines are those of
/// what follows. A carriage return before the newline is no part of the line, one elsewhere is.
pub proof fn law_lines_end_at_newlines(l: Seq<char>, rest: Seq<char>)
    requires
        !l.contains('\n'),
    ensures
        l.len() == 0 || l.last() != '\r' ==> lines(l + seq!['\n'] + rest) == seq![l] + lines(rest),
        lines(l + seq!['\r', '\n'] + rest) == seq![l] + lines(rest),
        l.len() > 0 ==> lines(l) == seq![l],
        lines(Seq::<char>::empty()).len() == 0,
{
    let plain = l + seq!['\n'] + rest;
    lemma_first(plain, '\n', l.len() as int);
    assert(plain.take(l.len() as int) =~= l);
    assert(plain.skip(l.len() as int + 1) =~= rest);
    let crlf = l + seq!['\r', '\n'] + rest;
    lemma_first(crlf, '\n', l.len() as int + 1);
    assert(crlf.take(l.len() as int + 1) =~= l.push('\r'));
    assert(l.push('\r').drop_last() =~= l);
    assert(crlf.skip(l.len() as int + 2) =~= rest);
    if l.len() > 0 {
        lemma_first(l, '\n', l.len() as int);
    }
}

proof fn lemma_expanded_push(s: Seq<char>, c: char)
    ensures
        expanded(s.push(c)) == expanded(s) + expanded(seq![c]),
{
    assert(s.push(c).drop_last() =~= s);
    let one = seq![c];
    assert(one.drop_last() =~= Seq::<char>::empty());
    assert(expanded(one.drop_last()) =~= Seq::<char>::empty());
    assert(expanded(s.push(c)) =~= expanded(s) + expanded(one));
}

/// Tabs are shown as four spaces, every other character as itself, whatever stands around it.
pub proof fn law_tabs_become_four_spaces(a: Seq<char>, b: Seq<char>, c: char)
    ensures
        expanded(a + b) == expanded(a) + expanded(b),
        expanded(seq!['\t']) == "    "@,
        c != '\t' ==> expanded(seq![c]) == seq![c],
        expanded(Seq::<char>::empty()).len() == 0,
    decreases b.len(),
{
    let e = Seq::<char>::empty();
    assert(expanded(e) =~= e);
    let t = seq!['\t'];
    assert(t.drop_last() =~= e);
    assert(expanded(t) =~= "    "@);
    let o = seq![c];
    assert(o.drop_last() =~= e);
    if c != '\t' {
        assert(expanded(o) =~= seq![c]);
    }
    if b.len() == 0 {
        assert(a + b =~= a);
        assert(b =~= e);
        assert(expanded(a) + expanded(b) =~= expanded(a));
    } else {
        let head = b.drop_last();
        law_tabs_become_four_spaces(a, head, c);
        assert(a + b =~= (a + head).push(b.last()));
        assert(b =~= head.push(b.last()));
        lemma_expanded_push(a + head, b.last());
        lemma_expanded_push(head, b.last());
        assert(expanded(a + b) =~= expanded(a) + expanded(b));
    }
}

proof fn lemma_trim_start_of(ws: Seq<char>, s: Seq<char>)
    requires
        forall|i: int| 0 <= i < ws.len() ==> is_space(#[trigger] ws[i]),
        s.len() == 0 || !is_space(s[0]),
    ensures
        trim_start(ws + s) == s,
    decreases ws.len(),
{
    if ws.len() > 0 {
        assert((ws + s).skip(1) =~= ws.skip(1) + s);
        assert((ws + s)[0] == ws[0]);
        assert forall|i: int| 0 <= i < ws.skip(1).len() implies is_space(#[trigger] ws.skip(1)[i]) by {
            assert(ws.skip(1)[i] == ws[i + 1]);
        }
        lemma_trim_start_of(ws.skip(1), s);
    } else {
        assert(ws + s =~= s);
    }
}

proof fn lemma_trim_end_of(s: Seq<char>, ws: Seq<char>)
    requires
        forall|i: int| 0 <= i < ws.len() ==> is_space(#[trigger] ws[i]),
        s.len() == 0 || !is_space(s.last()),
    ensures
        trim_end(s + ws) == s,
    decreases ws.len(),
{
    if ws.len() > 0 {
        let head = ws.drop_last();
        assert((s + ws).drop_last() =~= s + head);
        assert((s + ws).last() == ws.last());
        assert(ws[ws.len() - 1] == ws.last());
        assert forall|i: int| 0 <= i < head.len() implies is_space(#[trigger] head[i]) by {
            assert(head[i] == ws[i]);
        }
        lemma_trim_end_of(s, head);
    } else {
        assert(s + ws =~= s);
    }
}

/// Trimming takes the white space at both ends away and nothing else.
pub proof fn law_trimming_takes_outer_spaces(a: Seq<char>, s: Seq<char>, b: Seq<char>)
    requires
        forall|i: int| 0 <= i < a.len() ==> is_space(#[trigger] a[i]),
        forall|i: int| 0 <= i < b.len() ==> is_space(#[trigger] b[i]),
        s.len() > 0,
        !is_space(s[0]),
        !is_space(s.last()),
    ensures
        trim(a + s + b) == s,
{
    assert(a + s + b =~= a + (s + b));
    assert((s + b)[0] == s[0]);
    lemma_trim_start_of(a, s + b);
    lemma_trim_end_of(s, b);
}

// ---------------------------------------------------------------------------------------
// Order

/// Texts are ordered by the first character in which they differ, and a text comes before
/// those that go on behind it.
pub proof fn law_texts_are_ordered_by_first_difference(
    p: Seq<char>,
    a: char,
    b: char,
    x: Seq<char>,
    y: Seq<char>,
)
    ensures
        (a as int) < (b as int) ==> before(p + seq![a] + x, p + seq![b] + y) && !before(
            p + seq![b] + y,
            p + seq![a] + x,
        ),
        before(p, p + seq![a] + x),
        !before(p + seq![a] + x, p),
        !before(p, p),
    decreases p.len(),
{
    let s = p + seq![a] + x;
    let t = p + seq![b] + y;
    if p.len() > 0 {
        let q = p.skip(1);
        law_texts_are_ordered_by_first_difference(q, a, b, x, y);
        assert(s.skip(1) =~= q + seq![a] + x);
        assert(t.skip(1) =~= q + seq![b] + y);
        assert(s[0] == p[0] && t[0] == p[0]);
    } else {
        assert(s[0] == a && t[0] == b);
    }
}

// ---------------------------------------------------------------------------------------
// Hunk headers

/// What stands behind a start line in a hunk header: nothing, or a comma and the number of
/// lines.
pub open spec fn is_length(x: Seq<char>) -> bool {
    &&& x.len() > 0 ==> x[0] == ','
    &&& forall|i: int| 0 <= i < x.len() ==> !is_space(#[trigger] x[i])
}

proof fn lemma_side(sign: char, n: u32, x: Seq<char>)
    requires
        is_length(x),
        !is_space(sign),
    ensures
        crate::diff::start_line(seq![sign] + decimal(n as nat) + x, sign) == Some(n),
        forall|i: int|
            0 <= i < (seq![sign] + decimal(n as nat) + x).len() ==> !is_space(
                #[trigger] (seq![sign] + decimal(n as nat) + x)[i],
            ),
{
    let d = decimal(n as nat);
    let w = seq![sign] + d + x;
    let rest = d + x;
    lemma_decimal(n as nat);
    assert(w.skip(1) =~= rest);
    assert(w[0] == sign);
    assert forall|i: int| 0 <= i < w.len() implies !is_space(#[trigger] w[i]) by {
        if 1 <= i < 1 + d.len() {
            assert(w[i] == d[i - 1]);
            assert(crate::text::is_digit(d[i - 1]));
        } else if i >= 1 + d.len() {
            assert(w[i] == x[i - 1 - d.len()]);
        }
    }
    assert forall|i: int| 0 <= i < d.len() implies rest[i] != ',' by {
        assert(crate::text::is_digit(d[i]));
        assert(rest[i] == d[i]);
    }
    lemma_first(rest, ',', d.len() as int);
    assert(rest.take(d.len() as int) =~= d);
    if x.len() == 0 {
        assert(rest =~= d);
    }
    assert(split(rest, ',')[0] =~= d);
    law_numbers_read_back(n);
}

proof fn lemma_header_shape(d: Seq<char>, x: Seq<char>, e: Seq<char>, y: Seq<char>, rest: Seq<char>)
    ensures
        "@@ -"@ + d + x + " +"@ + e + y + " @@"@ + rest == seq!['@', '@'] + seq![' '] + ((seq!['-']
            + d + x) + seq![' '] + ((seq!['+'] + e + y) + seq![' '] + (seq!['@', '@'] + rest))),
{
    reveal_strlit("@@ -");
    reveal_strlit(" +");
    reveal_strlit(" @@");
    let tail = seq!['@', '@'] + rest;
    let w2 = seq!['+'] + e + y;
    assert(" @@"@ + rest =~= seq![' '] + tail);
    let m2 = " +"@ + e + y + (" @@"@ + rest);
    assert(m2 =~= seq![' '] + (w2 + seq![' '] + tail));
    let w1 = seq!['-'] + d + x;
    let m1 = "@@ -"@ + d + x + m2;
    assert(m1 =~= seq!['@', '@'] + seq![' '] + (w1 + m2));
    assert(w1 + m2 =~= w1 + seq![' '] + (w2 + seq![' '] + tail));
    assert("@@ -"@ + d + x + " +"@ + e + y + " @@"@ + rest =~= m1);
}

/// The words of a header are its marks and its two sides.
proof fn lemma_header_words(w1: Seq<char>, w2: Seq<char>, tail: Seq<char>)
    requires
        w1.len() > 0,
        w2.len() > 0,
        forall|i: int| 0 <= i < w1.len() ==> !is_space(#[trigger] w1[i]),
        forall|i: int| 0 <= i < w2.len() ==> !is_space(#[trigger] w2[i]),
    ensures
        ({
            let ws = words(seq!['@', '@'] + seq![' '] + (w1 + seq![' '] + (w2 + seq![' '] + tail)));
            ws.len() >= 3 && ws[1] == w1 && ws[2] == w2
        }),
{
    let at = seq!['@', '@'];
    let r2 = w2 + seq![' '] + tail;
    let r1 = w1 + seq![' '] + r2;
    law_words_stand_between_spaces(w2, ' ', tail);
    law_words_stand_between_spaces(w1, ' ', r2);
    law_words_stand_between_spaces(at, ' ', r1);
}

/// A hunk header names the line that each side starts at, whatever lengths and text follow.
pub proof fn law_header_names_its_starts(
    o: u32,
    x: Seq<char>,
    n: u32,
    y: Seq<char>,
    rest: Seq<char>,
)
    requires
        is_length(x),
        is_length(y),
    ensures
        hunk_header(
            "@@ -"@ + decimal(o as nat) + x + " +"@ + decimal(n as nat) + y + " @@"@ + rest,
        ) == Some((o, n)),
{
    let d = decimal(o as nat);
    let e = decimal(n as nat);
    lemma_side('-', o, x);
    lemma_side('+', n, y);
    lemma_header_words(seq!['-'] + d + x, seq!['+'] + e + y, seq!['@', '@'] + rest);
    lemma_header_shape(d, x, e, y, rest);
}

/// A header of fewer than three words, or without the signs of both sides, names nothing.
pub proof fn law_other_headers_name_nothing(h: Seq<char>)
    requires
        ({
            let w = words(h);
            ||| w.len() < 3
            ||| w[1].len() == 0
            ||| w[1][0] != '-'
            ||| w[2].len() == 0
            ||| w[2][0] != '+'
        }),
    ensures
        hunk_header(h) is None,
{
}

// ---------------------------------------------------------------------------------------
// Further forms

/// A number that does not fit in 32 bits is none.
pub proof fn law_large_numbers_are_refused(n: nat)
    requires
        n > u32::MAX,
    ensures
        parsed_u32(decimal(n)) is None,
{
    lemma_decimal(n);
    assert(crate::text::is_digit(decimal(n)[0]));
}

/// Zeros in front of a number change nothing.
pub proof fn law_leading_zeros_count_nothing(n: u32, k: nat)
    ensures
        parsed_u32(Seq::new(k, |i: int| '0') + decimal(n as nat)) == Some(n),
{
    let z = Seq::new(k, |i: int| '0');
    let d = decimal(n as nat);
    lemma_decimal(n as nat);
    lemma_value_behind_zeros(z, d);
    let s = z + d;
    assert forall|i: int| 0 <= i < s.len() implies crate::text::is_digit(#[trigger] s[i]) by {
        if i >= z.len() {
            assert(s[i] == d[i - z.len()]);
        }
    }
    assert(crate::text::is_digit(s[0]));
}

proof fn lemma_value_behind_zeros(z: Seq<char>, d: Seq<char>)
    requires
        forall|i: int| 0 <= i < z.len() ==> z[i] == '0',
    ensures
        crate::text::value(z + d) == crate::text::value(d),
    decreases z.len() + d.len(),
{
    let s = z + d;
    if d.len() > 0 {
        assert(s.drop_last() =~= z + d.drop_last());
        lemma_value_behind_zeros(z, d.drop_last());
    } else if z.len() > 0 {
        assert(s =~= z);
        assert(z.drop_last() + d =~= z.drop_last());
        lemma_value_behind_zeros(z.drop_last(), d);
    } else {
        assert(s =~= d);
    }
}

/// A negative number is written with a sign in front of its size, any other without.
pub proof fn law_signs_of_numbers(n: nat)
    ensures
        integer(n as int) == decimal(n),
        n > 0 ==> integer(-(n as int)) == seq!['-'] + decimal(n),
{
}

/// What counts as white space.
pub proof fn law_white_space(c: char)
    ensures
        is_space(c) <==> {
            ||| c == ' '
            ||| c == '\t'
            ||| c == '\n'
            ||| c == '\r'
            ||| c == '\u{b}'
            ||| c == '\u{c}'
            ||| c == '\u{85}'
            ||| c == '\u{a0}'
            ||| c == '\u{1680}'
            ||| '\u{2000}' <= c <= '\u{200a}'
            ||| c == '\u{2028}'
            ||| c == '\u{2029}'
            ||| c == '\u{202f}'
            ||| c == '\u{205f}'
            ||| c == '\u{3000}'
        },
{
}

/// Of white space alone nothing is left.
pub proof fn law_white_space_trims_to_nothing(s: Seq<char>)
    requires
        forall|i: int| 0 <= i < s.len() ==> is_space(#[trigger] s[i]),
    ensures
        trim(s).len() == 0,
    decreases s.len(),
{
    if s.len() > 0 {
        assert(is_space(s[0]));
        let t = s.skip(1);
        assert forall|i: int| 0 <= i < t.len() implies is_space(#[trigger] t[i]) by {
            assert(t[i] == s[i + 1]);
        }
        law_white_space_trims_to_nothing(t);
    }
}

/// Joined texts stand in their order, with the separator between them and nowhere else.
pub proof fn law_joined_texts_are_separated(
    parts: Seq<Seq<char>>,
    p: Seq<char>,
    sep: Seq<char>,
)
    ensures
        join(Seq::<Seq<char>>::empty(), sep).len() == 0,
        join(seq![p], sep) == p,
        parts.len() > 0 ==> join(parts.push(p), sep) == join(parts, sep) + sep + p,
{
    assert(parts.push(p).drop_last() =~= parts);
}

/// A text is split at every separator: what stands before the first one is the first piece,
/// and the other pieces are those of what follows.
pub proof fn law_pieces_stand_between_separators(l: Seq<char>, c: char, rest: Seq<char>)
    requires
        !l.contains(c),
    ensures
        split(l + seq![c] + rest, c) == seq![l] + split(rest, c),
        split(l, c) == seq![l],
{
    let all = l + seq![c] + rest;
    lemma_first(all, c, l.len() as int);
    assert(all.take(l.len() as int) =~= l);
    assert(all.skip(l.len() as int + 1) =~= rest);
    lemma_first(l, c, l.len() as int);
}

/// A text that is filled up has the width asked for where it was shorter, and is as it was
/// where it was not.
pub proof fn law_filled_texts_have_their_width(s: Seq<char>, n: int)
    ensures
        s.len() >= n ==> padded(s, n) == s && aligned_right(s, n) == s,
        s.len() < n ==> {
            &&& padded(s, n).len() == n
            &&& padded(s, n).take(s.len() as int) == s
            &&& forall|i: int| s.len() <= i < n ==> #[trigger] padded(s, n)[i] == ' '
            &&& aligned_right(s, n).len() == n
            &&& aligned_right(s, n).skip(n - s.len()) == s
            &&& forall|i: int| 0 <= i < n - s.len() ==> #[trigger] aligned_right(s, n)[i] == ' '
        },
{
    if s.len() >= n {
        assert(padded(s, n) =~= s);
        assert(aligned_right(s, n) =~= s);
    } else {
        assert(padded(s, n).take(s.len() as int) =~= s);
        assert(aligned_right(s, n).skip(n - s.len()) =~= s);
    }
}

/// A text is found just where it stands somewhere in the other one.
pub proof fn law_texts_are_found_where_they_stand(s: Seq<char>, needle: Seq<char>)
    ensures
        has(s, needle) <==> exists|a: Seq<char>, b: Seq<char>| s == #[trigger] (a + needle + b),
{
    if has(s, needle) {
        let i = choose|i: int|
            0 <= i <= s.len() - needle.len() && #[trigger] s.subrange(i, i + needle.len())
                == needle;
        let a = s.take(i);
        let b = s.skip(i + needle.len());
        assert(s =~= a + needle + b);
    }
    if exists|a: Seq<char>, b: Seq<char>| s == #[trigger] (a + needle + b) {
        let (a, b) = choose|a: Seq<char>, b: Seq<char>| s == #[trigger] (a + needle + b);
        assert(s.subrange(a.len() as int, a.len() as int + needle.len()) =~= needle);
    }
}

// ---------------------------------------------------------------------------------------
// Paths

proof fn lemma_split_behind(dir: Seq<char>, name: Seq<char>)
    requires
        !name.contains('/'),
    ensures
        split(dir + "/"@ + name, '/').len() > 0,
        split(dir + "/"@ + name, '/').last() == name,
        split(dir + "/"@ + name, '/').drop_last() == split(dir, '/'),
    decreases dir.len(),
{
    reveal_strlit("/");
    let all = dir + "/"@ + name;
    let n = first(dir, '/') as int;
    lemma_first_bounds(dir, '/');
    if n >= dir.len() {
        assert(!dir.contains('/')) by {
            if dir.contains('/') {
                let k = choose|k: int| 0 <= k < dir.len() && dir[k] == '/';
                lemma_first_none(dir, '/', k);
            }
        }
        assert(all =~= dir + seq!['/'] + name);
        law_pieces_stand_between_separators(dir, '/', name);
        law_pieces_stand_between_separators(name, '/', name);
        assert(split(all, '/') =~= seq![dir, name]);
        assert(split(dir, '/') =~= seq![dir]);
    } else {
        let tail = dir.skip(n + 1);
        lemma_first(all, '/', n);
        assert(all.take(n) =~= dir.take(n));
        assert(all.skip(n + 1) =~= tail + "/"@ + name);
        lemma_split_behind(tail, name);
        let rest = split(tail + "/"@ + name, '/');
        assert(split(all, '/') =~= seq![dir.take(n)] + rest);
        assert(split(all, '/').drop_last() =~= seq![dir.take(n)] + rest.drop_last());
    }
}

proof fn lemma_first_none(s: Seq<char>, c: char, k: int)
    requires
        0 <= k < s.len(),
        s[k] == c,
    ensures
        first(s, c) <= k,
    decreases s.len(),
{
    if s[0] != c {
        assert(s.skip(1)[k - 1] == c);
        lemma_first_none(s.skip(1), c, k - 1);
    }
}

/// The name of a file is what stands behind the last slash of its path. Slashes and single dots
/// at the end are passed over, and two dots name no file.
pub proof fn law_names_stand_behind_the_last_slash(dir: Seq<char>, name: Seq<char>)
    requires
        !name.contains('/'),
    ensures
        name.len() > 0 && name != "."@ && name != ".."@ ==> file_name(dir + "/"@ + name) == Some(
            name,
        ) && file_name(name) == Some(name),
        name == ".."@ ==> file_name(dir + "/"@ + name) is None && file_name(name) is None,
        name.len() == 0 || name == "."@ ==> file_name(dir + "/"@ + name) == file_name(dir)
            && file_name(name) is None,
{
    reveal_strlit("..");
    reveal_strlit(".");
    lemma_split_behind(dir, name);
    law_pieces_stand_between_separators(name, '/', name);
    let one = split(name, '/');
    assert(one.last() == name);
    assert(one.drop_last() =~= Seq::<Seq<char>>::empty());
    reveal_with_fuel(last_named, 2);
    assert(".."@.len() != "."@.len());
}

proof fn lemma_last_index(a: Seq<char>, b: Seq<char>, c: char)
    requires
        !b.contains(c),
    ensures
        last_index(a + seq![c] + b, c) == a.len(),
        last_index(b, c) == -1,
    decreases b.len(),
{
    let s = a + seq![c] + b;
    if b.len() > 0 {
        assert(s.drop_last() =~= a + seq![c] + b.drop_last());
        assert(b.contains(b[b.len() - 1]));
        assert forall|x: char| b.drop_last().contains(x) implies b.contains(x) by {
            let k = choose|k: int| 0 <= k < b.drop_last().len() && b.drop_last()[k] == x;
            assert(b[k] == x);
        }
        lemma_last_index(a, b.drop_last(), c);
    } else {
        assert(s.last() == c);
    }
}

/// The extension of a name is what stands behind its last dot, unless that dot is the first
/// character or there is none.
pub proof fn law_extensions_stand_behind_the_last_dot(stem: Seq<char>, ext: Seq<char>)
    requires
        !ext.contains('.'),
    ensures
        stem.len() > 0 ==> extension(stem + seq!['.'] + ext) == Some(ext),
        extension(seq!['.'] + ext) is None,
        extension(ext) is None,
{
    lemma_last_index(stem, ext, '.');
    lemma_last_index(Seq::empty(), ext, '.');
    assert(Seq::<char>::empty() + seq!['.'] + ext =~= seq!['.'] + ext);
    let s = stem + seq!['.'] + ext;
    assert(s.skip(stem.len() as int + 1) =~= ext);
}

/// A relative path is looked up from the directory, with one slash between the two; an absolute
/// one stays as it is.
pub proof fn law_relative_paths_start_at_the_directory(dir: Seq<char>, file: Seq<char>)
    ensures
        file.len() > 0 && file[0] == '/' ==> joined_path(dir, file) == file,
        (file.len() == 0 || file[0] != '/') && dir.len() > 0 && dir.last() != '/' ==> joined_path(
            dir,
            file,
        ) == dir + seq!['/'] + file,
        (file.len() == 0 || file[0] != '/') && dir.len() > 0 && dir.last() == '/' ==> joined_path(
            dir,
            file,
        ) == dir + file,
        (file.len() == 0 || file[0] != '/') && dir.len() == 0 ==> joined_path(dir, file) == file,
{
    reveal_strlit("/");
    assert("/"@ =~= seq!['/']);
    if dir.len() == 0 {
        assert(dir + file =~= file);
    }
}

/// A header names starts just where its second and third word have the signs of their sides and
/// a number behind them, up to a comma where there is one.
pub proof fn law_headers_are_read_by_their_words(h: Seq<char>, o: u32, n: u32)
    ensures
        hunk_header(h) == Some((o, n)) <==> {
            let w = words(h);
            &&& w.len() >= 3
            &&& w[1].len() > 0 && w[1][0] == '-'
            &&& w[2].len() > 0 && w[2][0] == '+'
            &&& parsed_u32(split(w[1].skip(1), ',')[0]) == Some(o)
            &&& parsed_u32(split(w[2].skip(1), ',')[0]) == Some(n)
        },
{
}

} // verus!
