//! Text primitives: everything the viewer parses or prints goes through these.

use vstd::prelude::*;
use vstd::string::*;

verus! {

/// `String::push` appends the character at the end of the string.
pub assume_specification[ String::push ](s: &mut String, c: char)
    ensures
        final(s)@ == old(s)@.push(c),
;

/// The characters of `s`, for indexed access.
pub fn chars_of(s: &str) -> (r: Vec<char>)
    ensures
        r@ == s@,
{
    let mut out: Vec<char> = Vec::new();
    for c in it: s.chars()
        invariant
            out@ == it.seq().take(it.index()),
            it.seq() == s@,
    {
        out.push(c);
    }
    out
}

/// The text made of `v[from..to]`.
pub fn text_of(v: &[char], from: usize, to: usize) -> (r: String)
    requires
        from <= to <= v.len(),
    ensures
        r@ == v@.subrange(from as int, to as int),
{
    let mut out = String::new();
    let mut i: usize = from;
    while i < to
        invariant
            from <= i <= to <= v.len(),
            out@ == v@.subrange(from as int, i as int),
        decreases to - i,
    {
        out.push(v[i]);
        i += 1;
    }
    out
}

/// The contents of a list of strings.
pub open spec fn views(v: Seq<String>) -> Seq<Seq<char>> {
    v.map_values(|s: String| s@)
}

/// The content of an optional string.
pub open spec fn opt_view(s: Option<String>) -> Option<Seq<char>> {
    match s {
        Some(t) => Some(t@),
        None => None,
    }
}

/// Equality of two texts.
pub fn same_text(a: &str, b: &str) -> (r: bool)
    ensures
        r == (a@ == b@),
{
    let x = chars_of(a);
    let y = chars_of(b);
    if x.len() != y.len() {
        return false;
    }
    let mut i: usize = 0;
    while i < x.len()
        invariant
            i <= x.len() == y.len(),
            x@ == a@,
            y@ == b@,
            forall|j: int| 0 <= j < i ==> x[j] == y[j],
        decreases x.len() - i,
    {
        if x[i] != y[i] {
            assert(a@[i as int] != b@[i as int]);
            return false;
        }
        i += 1;
    }
    assert(x@ =~= y@);
    true
}

/// A copy of an optional string.
pub fn opt_clone(s: &Option<String>) -> (r: Option<String>)
    ensures
        r == *s,
{
    match s {
        Some(t) => Some(t.clone()),
        None => None,
    }
}

/// Equality of two optional texts.
pub fn same_opt_text(a: &Option<String>, b: &Option<String>) -> (r: bool)
    ensures
        r == (opt_view(*a) == opt_view(*b)),
{
    match (a, b) {
        (Some(x), Some(y)) => same_text(x.as_str(), y.as_str()),
        (None, None) => true,
        _ => false,
    }
}

// ---------------------------------------------------------------------------------------
// Prefixes and substrings

/// `v` starts with `p`.
pub fn starts_with(v: &[char], p: &str) -> (r: bool)
    ensures
        r == p@.is_prefix_of(v@),
{
    let q = chars_of(p);
    if q.len() > v.len() {
        return false;
    }
    matches_at(v, 0, &q)
}

/// `p` occurs in `v` at position `at`.
fn matches_at(v: &[char], at: usize, p: &[char]) -> (r: bool)
    requires
        at + p.len() <= v.len(),
    ensures
        r == (v@.subrange(at as int, at + p.len()) == p@),
{
    let mut i: usize = 0;
    while i < p.len()
        invariant
            i <= p.len(),
            at + p.len() <= v.len(),
            forall|j: int| 0 <= j < i ==> v[at + j] == p[j],
        decreases p.len() - i,
    {
        if v[at + i] != p[i] {
            assert(v@.subrange(at as int, at + p.len())[i as int] != p@[i as int]);
            return false;
        }
        i += 1;
    }
    assert(v@.subrange(at as int, at + p.len()) =~= p@);
    true
}

/// `needle` occurs somewhere in `s`.
pub open spec fn has(s: Seq<char>, needle: Seq<char>) -> bool {
    exists|i: int|
        0 <= i <= s.len() - needle.len() && #[trigger] s.subrange(i, i + needle.len()) == needle
}

/// Substring search.
pub fn contains(s: &str, needle: &str) -> (r: bool)
    ensures
        r == has(s@, needle@),
{
    let v = chars_of(s);
    let p = chars_of(needle);
    if p.len() > v.len() {
        return false;
    }
    let last: usize = v.len() - p.len();
    let mut i: usize = 0;
    while i <= last
        invariant
            i <= last + 1,
            last == v.len() - p.len(),
            v@ == s@,
            p@ == needle@,
            forall|j: int|
                0 <= j < i ==> #[trigger] s@.subrange(j, j + needle@.len()) != needle@,
        decreases last + 1 - i,
    {
        if matches_at(&v, i, &p) {
            return true;
        }
        if i == last {
            return false;
        }
        i += 1;
    }
    false
}

// ---------------------------------------------------------------------------------------
// Splitting

/// Position of the first `c` in `s`, or its length where there is none.
pub open spec fn first<A>(s: Seq<A>, c: A) -> nat
    decreases s.len(),
{
    if s.len() == 0 || s[0] == c {
        0
    } else {
        1 + first(s.skip(1), c)
    }
}

/// `first` is the only position with no `c` before it and `c`, or the end, at it.
pub proof fn lemma_first<A>(s: Seq<A>, c: A, i: int)
    requires
        0 <= i <= s.len(),
        forall|j: int| 0 <= j < i ==> s[j] != c,
        i == s.len() || s[i] == c,
    ensures
        first(s, c) == i,
    decreases s.len(),
{
    if i > 0 {
        let t = s.skip(1);
        assert forall|j: int| 0 <= j < i - 1 implies t[j] != c by {
            assert(t[j] == s[j + 1]);
        }
        lemma_first(t, c, i - 1);
    }
}

/// What `first` is.
pub proof fn lemma_first_bounds<A>(s: Seq<A>, c: A)
    ensures
        first(s, c) <= s.len(),
        forall|j: int| 0 <= j < first(s, c) ==> s[j] != c,
        first(s, c) < s.len() ==> s[first(s, c) as int] == c,
    decreases s.len(),
{
    if s.len() > 0 && s[0] != c {
        let t = s.skip(1);
        lemma_first_bounds(t, c);
        assert forall|j: int| 0 <= j < first(s, c) implies s[j] != c by {
            if j > 0 {
                assert(t[j - 1] == s[j]);
            }
        }
    }
}

/// First position at or after `from` that holds `c`, or the length of `v`.
pub fn find_from(v: &[char], c: char, from: usize) -> (r: usize)
    requires
        from <= v.len(),
    ensures
        from <= r <= v.len(),
        forall|j: int| from <= j < r ==> v[j] != c,
        r < v.len() ==> v[r as int] == c,
        r == from + first(v@.skip(from as int), c),
{
    let mut i: usize = from;
    while i < v.len() && v[i] != c
        invariant
            from <= i <= v.len(),
            forall|j: int| from <= j < i ==> v[j] != c,
        decreases v.len() - i,
    {
        i += 1;
    }
    proof {
        let t = v@.skip(from as int);
        assert forall|j: int| 0 <= j < i - from implies t[j] != c by {
            assert(t[j] == v[from + j]);
        }
        lemma_first(t, c, i - from);
    }
    i
}

/// The pieces of `s` between occurrences of `c`; there is always at least one.
pub open spec fn split(s: Seq<char>, c: char) -> Seq<Seq<char>>
    decreases s.len(),
{
    let n = first(s, c) as int;
    if n >= s.len() {
        seq![s]
    } else {
        seq![s.take(n)] + split(s.skip(n + 1), c)
    }
}

/// Split at every `c`.
pub fn split_at(v: &[char], c: char) -> (r: Vec<String>)
    ensures
        views(r@) == split(v@, c),
{
    let mut out: Vec<String> = Vec::new();
    let mut start: usize = 0;
    proof {
        assert(v@.skip(0) =~= v@);
        assert(views(out@) + split(v@.skip(0), c) =~= split(v@, c));
    }
    loop
        invariant
            start <= v.len(),
            views(out@) + split(v@.skip(start as int), c) == split(v@, c),
        decreases v.len() - start,
    {
        let end = find_from(v, c, start);
        let ghost rest = v@.skip(start as int);
        let ghost before = out@;
        out.push(text_of(v, start, end));
        proof {
            lemma_first_bounds(rest, c);
            assert(out@.last()@ =~= rest.take(end - start));
            assert(views(out@) =~= views(before).push(rest.take(end - start)));
        }
        if end >= v.len() {
            proof {
                assert(rest.take(end - start) =~= rest);
                assert(views(out@) =~= views(before) + split(rest, c));
            }
            return out;
        }
        proof {
            assert(rest.skip(end - start + 1) =~= v@.skip(end + 1));
            assert(views(out@) + split(v@.skip(end + 1), c) =~= views(before) + split(rest, c));
        }
        start = end + 1;
    }
}

/// The lines of `s`: each ends at a newline, which is not part of it, nor is a carriage
/// return right before that newline. A last line without a newline counts when not empty.
pub open spec fn lines(s: Seq<char>) -> Seq<Seq<char>>
    decreases s.len(),
{
    let n = first(s, '\n') as int;
    if s.len() == 0 {
        Seq::empty()
    } else if n >= s.len() {
        seq![s]
    } else {
        seq![without_cr(s.take(n))] + lines(s.skip(n + 1))
    }
}

/// `s` without a carriage return at its end.
pub open spec fn without_cr(s: Seq<char>) -> Seq<char> {
    if s.len() > 0 && s.last() == '\r' {
        s.drop_last()
    } else {
        s
    }
}

/// The lines of a text.
pub fn lines_of(v: &[char]) -> (r: Vec<String>)
    ensures
        views(r@) == lines(v@),
{
    let mut out: Vec<String> = Vec::new();
    let mut start: usize = 0;
    proof {
        assert(v@.skip(0) =~= v@);
        assert(views(out@) + lines(v@.skip(0)) =~= lines(v@));
    }
    while start < v.len()
        invariant
            start <= v.len(),
            views(out@) + lines(v@.skip(start as int)) == lines(v@),
        decreases v.len() - start,
    {
        let end = find_from(v, '\n', start);
        let ghost rest = v@.skip(start as int);
        let ghost before = out@;
        proof {
            lemma_first_bounds(rest, '\n');
        }
        if end >= v.len() {
            out.push(text_of(v, start, end));
            proof {
                assert(out@.last()@ =~= rest);
                assert(views(out@) =~= views(before).push(rest));
                assert(views(out@) =~= views(before) + lines(rest));
            }
            return out;
        }
        let stop: usize = if end > start && v[end - 1] == '\r' { end - 1 } else { end };
        out.push(text_of(v, start, stop));
        proof {
            let line = rest.take(end - start);
            assert(out@.last()@ =~= without_cr(line));
            assert(views(out@) =~= views(before).push(without_cr(line)));
            assert(rest.skip(end - start + 1) =~= v@.skip(end + 1));
            assert(views(out@) + lines(v@.skip(end + 1)) =~= views(before) + lines(rest));
        }
        start = end + 1;
    }
    proof {
        assert(v@.skip(start as int) =~= Seq::<char>::empty());
        assert(views(out@) + lines(v@.skip(start as int)) =~= views(out@));
    }
    out
}

// ---------------------------------------------------------------------------------------
// White space

/// The characters with Unicode's `White_Space` property.
pub open spec fn is_space(c: char) -> bool {
    let n = c as u32;
    ||| 0x9 <= n <= 0xd
    ||| n == 0x20
    ||| n == 0x85
    ||| n == 0xa0
    ||| n == 0x1680
    ||| 0x2000 <= n <= 0x200a
    ||| n == 0x2028
    ||| n == 0x2029
    ||| n == 0x202f
    ||| n == 0x205f
    ||| n == 0x3000
}

/// Whether `c` is white space.
pub fn space(c: char) -> (r: bool)
    ensures
        r == is_space(c),
{
    let n: u32 = c as u32;
    (0x9 <= n && n <= 0xd) || n == 0x20 || n == 0x85 || n == 0xa0 || n == 0x1680 || (0x2000 <= n
        && n <= 0x200a) || n == 0x2028 || n == 0x2029 || n == 0x202f || n == 0x205f || n == 0x3000
}

/// Length of the longest prefix without white space.
pub open spec fn word_len(s: Seq<char>) -> nat
    decreases s.len(),
{
    if s.len() == 0 || is_space(s[0]) {
        0
    } else {
        1 + word_len(s.skip(1))
    }
}

proof fn lemma_word_len(s: Seq<char>, i: int)
    requires
        0 <= i <= s.len(),
        forall|j: int| 0 <= j < i ==> !is_space(s[j]),
        i == s.len() || is_space(s[i]),
    ensures
        word_len(s) == i,
    decreases s.len(),
{
    if i > 0 {
        let t = s.skip(1);
        assert forall|j: int| 0 <= j < i - 1 implies !is_space(t[j]) by {
            assert(t[j] == s[j + 1]);
        }
        lemma_word_len(t, i - 1);
    }
}

/// The words of `s`: its maximal runs without white space, in order.
pub open spec fn words(s: Seq<char>) -> Seq<Seq<char>>
    decreases s.len(),
{
    if s.len() == 0 {
        Seq::empty()
    } else if is_space(s[0]) {
        words(s.skip(1))
    } else {
        let n = 1 + word_len(s.skip(1));
        if n <= s.len() {
            seq![s.take(n as int)] + words(s.skip(n as int))
        } else {
            Seq::empty()
        }
    }
}

/// The words of a text.
pub fn words_of(v: &[char]) -> (r: Vec<String>)
    ensures
        views(r@) == words(v@),
{
    let mut out: Vec<String> = Vec::new();
    let mut start: usize = 0;
    proof {
        assert(v@.skip(0) =~= v@);
        assert(views(out@) + words(v@.skip(0)) =~= words(v@));
    }
    while start < v.len()
        invariant
            start <= v.len(),
            views(out@) + words(v@.skip(start as int)) == words(v@),
        decreases v.len() - start,
    {
        let ghost rest = v@.skip(start as int);
        proof {
            assert(rest[0] == v[start as int]);
        }
        if space(v[start]) {
            proof {
                assert(rest.skip(1) =~= v@.skip(start + 1));
            }
            start += 1;
        } else {
            let mut end: usize = start + 1;
            while end < v.len() && !space(v[end])
                invariant
                    start < end <= v.len(),
                    forall|j: int| start <= j < end ==> !is_space(v[j]),
                decreases v.len() - end,
            {
                end += 1;
            }
            let ghost before = out@;
            out.push(text_of(v, start, end));
            proof {
                let tail = rest.skip(1);
                assert forall|j: int| 0 <= j < end - start - 1 implies !is_space(tail[j]) by {
                    assert(tail[j] == v[start + 1 + j]);
                }
                lemma_word_len(tail, end - start - 1);
                assert(out@.last()@ =~= rest.take(end - start));
                assert(views(out@) =~= views(before).push(rest.take(end - start)));
                assert(rest.skip(end - start) =~= v@.skip(end as int));
                assert(views(out@) + words(v@.skip(end as int)) =~= views(before) + words(rest));
            }
            start = end;
        }
    }
    proof {
        assert(v@.skip(start as int) =~= Seq::<char>::empty());
        assert(views(out@) + words(v@.skip(start as int)) =~= views(out@));
    }
    out
}

/// `s` without the white space at its start.
pub open spec fn trim_start(s: Seq<char>) -> Seq<char>
    decreases s.len(),
{
    if s.len() > 0 && is_space(s[0]) {
        trim_start(s.skip(1))
    } else {
        s
    }
}

/// `s` without the white space at its end.
pub open spec fn trim_end(s: Seq<char>) -> Seq<char>
    decreases s.len(),
{
    if s.len() > 0 && is_space(s.last()) {
        trim_end(s.drop_last())
    } else {
        s
    }
}

/// `s` without the white space around it.
pub open spec fn trim(s: Seq<char>) -> Seq<char> {
    trim_end(trim_start(s))
}

/// Remove the white space around a text.
pub fn trimmed(s: &str) -> (r: String)
    ensures
        r@ == trim(s@),
{
    let v = chars_of(s);
    let mut from: usize = 0;
    proof {
        assert(v@.skip(0) =~= v@);
    }
    while from < v.len() && space(v[from])
        invariant
            from <= v.len(),
            trim_start(v@.skip(from as int)) == trim_start(v@),
        decreases v.len() - from,
    {
        proof {
            assert(v@.skip(from as int)[0] == v[from as int]);
            assert(v@.skip(from as int).skip(1) =~= v@.skip(from + 1));
        }
        from += 1;
    }
    proof {
        if from < v.len() {
            assert(v@.skip(from as int)[0] == v[from as int]);
        }
        assert(trim_start(v@) == v@.skip(from as int));
    }
    let mut to: usize = v.len();
    let ghost t = v@.skip(from as int);
    proof {
        assert(v@.subrange(from as int, to as int) =~= t);
    }
    while to > from && space(v[to - 1])
        invariant
            from <= to <= v.len(),
            trim_end(v@.subrange(from as int, to as int)) == trim_end(t),
        decreases to - from,
    {
        proof {
            let cur = v@.subrange(from as int, to as int);
            assert(cur.last() == v[to - 1]);
            assert(cur.drop_last() =~= v@.subrange(from as int, to - 1));
        }
        to -= 1;
    }
    proof {
        let cur = v@.subrange(from as int, to as int);
        if to > from {
            assert(cur.last() == v[to - 1]);
        }
        assert(trim_end(t) == cur);
    }
    text_of(&v, from, to)
}

// ---------------------------------------------------------------------------------------
// Numbers

/// The character of a decimal digit.
pub open spec fn digit(d: int) -> char {
    if d == 0 { '0' } else if d == 1 { '1' } else if d == 2 { '2' } else if d == 3 { '3' }
    else if d == 4 { '4' } else if d == 5 { '5' } else if d == 6 { '6' } else if d == 7 { '7' }
    else if d == 8 { '8' } else { '9' }
}

/// `n` in decimal, without leading zeros.
pub open spec fn decimal(n: nat) -> Seq<char>
    decreases n,
{
    if n < 10 {
        seq![digit(n as int)]
    } else {
        decimal(n / 10).push(digit((n % 10) as int))
    }
}

/// Write a number in decimal.
pub fn decimal_of(n: u64) -> (r: String)
    ensures
        r@ == decimal(n as nat),
    decreases n,
{
    let d: u64 = n % 10;
    let c: char = if d == 0 { '0' } else if d == 1 { '1' } else if d == 2 { '2' } else if d == 3 {
        '3'
    } else if d == 4 { '4' } else if d == 5 { '5' } else if d == 6 { '6' } else if d == 7 {
        '7'
    } else if d == 8 { '8' } else { '9' };
    let mut out = if n < 10 { String::new() } else { decimal_of(n / 10) };
    out.push(c);
    proof {
        if n < 10 {
            assert(out@ =~= seq![digit(n as int)]);
        }
    }
    out
}

/// `n` in decimal, with a minus sign where it is negative.
pub open spec fn integer(n: int) -> Seq<char> {
    if n < 0 {
        seq!['-'] + decimal((-n) as nat)
    } else {
        decimal(n as nat)
    }
}

/// Write a signed number in decimal.
pub fn integer_of(n: i64) -> (r: String)
    ensures
        r@ == integer(n as int),
{
    if n < 0 {
        let mut out = String::new();
        out.push('-');
        out.append(decimal_of((-(n as i128)) as u64).as_str());
        assert(out@ =~= integer(n as int));
        out
    } else {
        decimal_of(n as u64)
    }
}

/// Whether `c` is one of `0` to `9`.
pub open spec fn is_digit(c: char) -> bool {
    '0' <= c && c <= '9'
}

/// The number that a run of digits writes.
pub open spec fn value(s: Seq<char>) -> nat
    decreases s.len(),
{
    if s.len() == 0 {
        0
    } else {
        value(s.drop_last()) * 10 + (s.last() as u32 - '0' as u32) as nat
    }
}

/// A number as it is read: digits, at least one, with an optional plus sign before them,
/// that fit in 32 bits.
pub open spec fn parsed_u32(s: Seq<char>) -> Option<u32> {
    number(if s.len() > 0 && s[0] == '+' { s.skip(1) } else { s })
}

/// A run of digits that fits in 32 bits.
pub open spec fn number(d: Seq<char>) -> Option<u32> {
    if d.len() > 0 && all_digits(d) && value(d) <= u32::MAX {
        Some(value(d) as u32)
    } else {
        None
    }
}

/// Only digits.
pub open spec fn all_digits(s: Seq<char>) -> bool {
    forall|i: int| 0 <= i < s.len() ==> is_digit(#[trigger] s[i])
}

proof fn lemma_value_prefix(s: Seq<char>, i: int)
    requires
        0 <= i <= s.len(),
        all_digits(s),
    ensures
        value(s.take(i)) <= value(s),
    decreases s.len() - i,
{
    if i < s.len() {
        lemma_value_prefix(s, i + 1);
        assert(s.take(i + 1).drop_last() =~= s.take(i));
    } else {
        assert(s.take(i) =~= s);
    }
}

/// Read a number.
pub fn parse_u32(s: &str) -> (r: Option<u32>)
    ensures
        r == parsed_u32(s@),
{
    let v = chars_of(s);
    let from: usize = if v.len() > 0 && v[0] == '+' { 1 } else { 0 };
    let ghost d = v@.skip(from as int);
    proof {
        assert(v@.skip(0) =~= v@);
    }
    if from >= v.len() {
        return None;
    }
    let mut acc: u64 = 0;
    let mut i: usize = from;
    while i < v.len()
        invariant
            from <= i <= v.len(),
            from <= 1,
            d == v@.skip(from as int),
            d.len() > 0,
            parsed_u32(s@) == number(d),
            forall|j: int| 0 <= j < i - from ==> is_digit(#[trigger] d[j]),
            acc == value(d.take(i - from)),
            acc <= u32::MAX,
        decreases v.len() - i,
    {
        let c = v[i];
        proof {
            assert(d[i - from] == c);
        }
        if c < '0' || '9' < c {
            assert(!is_digit(d[i - from]));
            return None;
        }
        let k: u64 = (c as u32 - '0' as u32) as u64;
        proof {
            assert(d.take(i - from + 1).drop_last() =~= d.take(i - from));
            assert(d.take(i - from + 1).last() == c);
        }
        acc = acc * 10 + k;
        if acc > 0xffff_ffff {
            proof {
                if all_digits(d) {
                    lemma_value_prefix(d, i - from + 1);
                }
            }
            return None;
        }
        i += 1;
    }
    proof {
        assert(d.take(d.len() as int) =~= d);
    }
    Some(acc as u32)
}

// ---------------------------------------------------------------------------------------
// Replacing and joining

/// `s` with `with` in place of every `c`.
pub open spec fn replaced(s: Seq<char>, c: char, with: Seq<char>) -> Seq<char>
    decreases s.len(),
{
    if s.len() == 0 {
        s
    } else {
        replaced(s.drop_last(), c, with) + (if s.last() == c { with } else { seq![s.last()] })
    }
}

/// `v[from..]` with `with` in place of every `c`.
pub fn replace_from(v: &[char], from: usize, c: char, with: &str) -> (r: String)
    requires
        from <= v.len(),
    ensures
        r@ == replaced(v@.skip(from as int), c, with@),
{
    let mut out = String::new();
    let mut i: usize = from;
    let ghost t = v@.skip(from as int);
    while i < v.len()
        invariant
            from <= i <= v.len(),
            t == v@.skip(from as int),
            out@ == replaced(t.take(i - from), c, with@),
        decreases v.len() - i,
    {
        let ghost so_far = out@;
        proof {
            assert(t.take(i - from + 1).drop_last() =~= t.take(i - from));
            assert(t.take(i - from + 1).last() == v[i as int]);
        }
        if v[i] == c {
            out.append(with);
        } else {
            out.push(v[i]);
            assert(out@ =~= so_far + seq![v[i as int]]);
        }
        i += 1;
    }
    proof {
        assert(t.take(t.len() as int) =~= t);
    }
    out
}

/// The parts of a list with `sep` between them.
pub open spec fn join(parts: Seq<Seq<char>>, sep: Seq<char>) -> Seq<char>
    decreases parts.len(),
{
    if parts.len() == 0 {
        Seq::empty()
    } else if parts.len() == 1 {
        parts[0]
    } else {
        join(parts.drop_last(), sep) + sep + parts.last()
    }
}

/// Join strings with a separator.
pub fn joined(parts: &[String], sep: &str) -> (r: String)
    ensures
        r@ == join(views(parts@), sep@),
{
    let mut out = String::new();
    let mut i: usize = 0;
    let ghost all = views(parts@);
    while i < parts.len()
        invariant
            i <= parts.len(),
            all == views(parts@),
            out@ == join(all.take(i as int), sep@),
        decreases parts.len() - i,
    {
        proof {
            assert(all.take(i + 1).drop_last() =~= all.take(i as int));
            assert(all.take(i + 1).last() == parts[i as int]@);
        }
        if i > 0 {
            out.append(sep);
        }
        let ghost so_far = out@;
        out.append(parts[i].as_str());
        proof {
            if i == 0 {
                assert(so_far + parts[0]@ =~= parts[0]@);
            }
        }
        i += 1;
    }
    proof {
        assert(all.take(all.len() as int) =~= all);
    }
    out
}

// ---------------------------------------------------------------------------------------
// Padding

/// `n` spaces.
pub open spec fn spaces(n: int) -> Seq<char> {
    if n <= 0 {
        Seq::empty()
    } else {
        Seq::new(n as nat, |i: int| ' ')
    }
}

/// `s` with spaces behind it up to a width of `n`.
pub open spec fn padded(s: Seq<char>, n: int) -> Seq<char> {
    s + spaces(n - s.len())
}

/// `s` with spaces in front of it up to a width of `n`.
pub open spec fn aligned_right(s: Seq<char>, n: int) -> Seq<char> {
    spaces(n - s.len()) + s
}

/// Append spaces.
fn append_spaces(s: &mut String, n: usize)
    ensures
        final(s)@ == old(s)@ + spaces(n as int),
{
    let ghost start = s@;
    let mut i: usize = 0;
    assert(start + spaces(0) =~= start);
    while i < n
        invariant
            i <= n,
            s@ == start + spaces(i as int),
        decreases n - i,
    {
        s.push(' ');
        assert(s@ =~= start + spaces(i + 1));
        i += 1;
    }
}

/// `n` spaces.
pub fn blank(n: usize) -> (r: String)
    ensures
        r@ == spaces(n as int),
{
    let mut s = String::new();
    append_spaces(&mut s, n);
    assert(s@ =~= spaces(n as int));
    s
}

/// Number of characters.
pub fn char_count(s: &str) -> (r: usize)
    ensures
        r == s@.len(),
{
    chars_of(s).len()
}

/// Pad with spaces behind.
pub fn pad(s: &str, n: usize) -> (r: String)
    ensures
        r@ == padded(s@, n as int),
{
    let len: usize = char_count(s);
    let mut out = s.to_owned();
    if len < n {
        append_spaces(&mut out, n - len);
    } else {
        assert(out@ =~= padded(s@, n as int));
    }
    out
}

/// Pad with spaces in front.
pub fn align_right(s: &str, n: usize) -> (r: String)
    ensures
        r@ == aligned_right(s@, n as int),
{
    let len: usize = char_count(s);
    let mut out = blank(if len < n { n - len } else { 0 });
    out.append(s);
    assert(out@ =~= aligned_right(s@, n as int));
    out
}

// ---------------------------------------------------------------------------------------
// Order

/// `a` comes strictly before `b` in the order of their code points.
pub open spec fn before(a: Seq<char>, b: Seq<char>) -> bool
    decreases a.len(),
{
    if b.len() == 0 {
        false
    } else if a.len() == 0 {
        true
    } else if a[0] != b[0] {
        a[0] < b[0]
    } else {
        before(a.skip(1), b.skip(1))
    }
}

/// Of two different texts exactly one comes before the other.
pub proof fn lemma_before_total(a: Seq<char>, b: Seq<char>)
    ensures
        a != b ==> before(a, b) != before(b, a),
        !before(a, a),
    decreases a.len(),
{
    if a.len() > 0 {
        lemma_before_total(a.skip(1), a.skip(1));
    }
    if a.len() > 0 && b.len() > 0 && a[0] == b[0] {
        lemma_before_total(a.skip(1), b.skip(1));
        if a.skip(1) == b.skip(1) {
            assert(a =~= seq![a[0]] + a.skip(1));
            assert(b =~= seq![b[0]] + b.skip(1));
        }
    } else if a.len() == 0 && b.len() == 0 {
        assert(a =~= b);
    }
}

/// The order is transitive.
pub proof fn lemma_before_transitive(a: Seq<char>, b: Seq<char>, c: Seq<char>)
    requires
        before(a, b),
        before(b, c),
    ensures
        before(a, c),
    decreases a.len(),
{
    if a.len() > 0 && a[0] == b[0] && b[0] == c[0] {
        lemma_before_transitive(a.skip(1), b.skip(1), c.skip(1));
    }
}

/// Compare two texts.
pub fn comes_before(a: &str, b: &str) -> (r: bool)
    ensures
        r == before(a@, b@),
{
    let x = chars_of(a);
    let y = chars_of(b);
    let mut i: usize = 0;
    proof {
        assert(x@.skip(0) =~= x@);
        assert(y@.skip(0) =~= y@);
    }
    while i < x.len() && i < y.len() && x[i] == y[i]
        invariant
            i <= x.len(),
            i <= y.len(),
            before(x@.skip(i as int), y@.skip(i as int)) == before(x@, y@),
        decreases x.len() - i,
    {
        proof {
            assert(x@.skip(i as int).skip(1) =~= x@.skip(i + 1));
            assert(y@.skip(i as int).skip(1) =~= y@.skip(i + 1));
        }
        i += 1;
    }
    if i >= y.len() {
        false
    } else if i >= x.len() {
        true
    } else {
        x[i] < y[i]
    }
}

} // verus!
