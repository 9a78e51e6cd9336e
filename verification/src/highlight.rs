//! Syntax highlighting for diff lines (syntect with bat's syntax and theme sets).

use syntect::easy::HighlightLines;
use syntect::highlighting::{FontStyle, Theme};
use syntect::parsing::{SyntaxReference, SyntaxSet};
use vstd::prelude::*;
use vstd::string::*;
use vstd::utf8::encode_utf8;

use crate::diff::{DiffLine, LineKind};
use crate::paths::{extension, extension_of, file_name, file_name_of};
use crate::text::{chars_of, join, joined, same_text, text_of, views};

verus! {

/// The theme that is used unless another one is asked for.
pub const DEFAULT_THEME: &'static str = "Monokai Extended";

/// Diffs with more lines than this stay plain; large generated files are slow and unreadable
/// anyway.
pub const MAX_LINES: usize = 10_000;

/// Lines with more bytes than this stay plain.
pub const MAX_LINE_LEN: usize = 2_000;

#[derive(Debug, Clone, Copy, PartialEq, Eq, Hash, Structural)]
pub enum Fg {
    Rgb(u8, u8, u8),
    /// Terminal palette color (from the `ansi` / `base16` themes).
    Indexed(u8),
    Default,
}

#[derive(Debug, PartialEq, Eq)]
pub struct HlSpan {
    pub fg: Fg,
    pub bold: bool,
    pub italic: bool,
    pub text: String,
}

/// Highlighted spans per diff line (same indices as the lines). `None` = render plain.
pub type Highlights = Vec<Option<Vec<HlSpan>>>;

/// A highlighted span as a value.
pub struct SpanView {
    pub fg: Fg,
    pub bold: bool,
    pub italic: bool,
    pub text: Seq<char>,
}

impl View for HlSpan {
    type V = SpanView;

    open spec fn view(&self) -> SpanView {
        SpanView { fg: self.fg, bold: self.bold, italic: self.italic, text: self.text@ }
    }
}

/// A stretch of a line with the style the highlighter gave it.
#[derive(Debug)]
pub struct Piece {
    pub r: u8,
    pub g: u8,
    pub b: u8,
    pub a: u8,
    pub bold: bool,
    pub italic: bool,
    pub text: String,
}

/// A styled stretch as a value.
pub struct PieceView {
    pub r: u8,
    pub g: u8,
    pub b: u8,
    pub a: u8,
    pub bold: bool,
    pub italic: bool,
    pub text: Seq<char>,
}

impl View for Piece {
    type V = PieceView;

    open spec fn view(&self) -> PieceView {
        PieceView {
            r: self.r,
            g: self.g,
            b: self.b,
            a: self.a,
            bold: self.bold,
            italic: self.italic,
            text: self.text@,
        }
    }
}

// ---------------------------------------------------------------------------------------
// From styles to spans

/// bat's `ansi`/`base16` themes encode palette colors in the alpha channel.
pub open spec fn color(p: PieceView) -> Fg {
    if p.a == 0 {
        Fg::Indexed(p.r)
    } else if p.a == 1 {
        Fg::Default
    } else {
        Fg::Rgb(p.r, p.g, p.b)
    }
}

fn convert(p: &Piece) -> (r: Fg)
    ensures
        r == color(p@),
{
    match p.a {
        0 => Fg::Indexed(p.r),
        1 => Fg::Default,
        _ => Fg::Rgb(p.r, p.g, p.b),
    }
}

/// `s` without the newlines at its end.
pub open spec fn chomped(s: Seq<char>) -> Seq<char>
    decreases s.len(),
{
    if s.len() > 0 && s.last() == '\n' {
        chomped(s.drop_last())
    } else {
        s
    }
}

/// `s` without the newlines at its end.
fn chomp(s: &str) -> (r: String)
    ensures
        r@ == chomped(s@),
{
    let v = chars_of(s);
    let mut n: usize = v.len();
    assert(v@.take(n as int) =~= v@);
    while n > 0 && v[n - 1] == '\n'
        invariant
            n <= v.len(),
            chomped(v@.take(n as int)) == chomped(v@),
        decreases n,
    {
        assert(v@.take(n as int).drop_last() =~= v@.take(n - 1));
        n -= 1;
    }
    let r = text_of(&v, 0, n);
    assert(r@ =~= v@.take(n as int));
    r
}

/// The span that a styled stretch becomes.
pub open spec fn span(p: PieceView) -> SpanView {
    SpanView { fg: color(p), bold: p.bold, italic: p.italic, text: chomped(p.text) }
}

/// The spans of a line: its styled stretches without line ends, but for those that are empty
/// then.
pub open spec fn spans(pieces: Seq<PieceView>) -> Seq<SpanView>
    decreases pieces.len(),
{
    if pieces.len() == 0 {
        Seq::empty()
    } else {
        let rest = spans(pieces.drop_last());
        let s = span(pieces.last());
        if s.text.len() == 0 {
            rest
        } else {
            rest.push(s)
        }
    }
}

/// The contents of a list of spans.
pub open spec fn span_views(v: Seq<HlSpan>) -> Seq<SpanView> {
    v.map_values(|s: HlSpan| s@)
}

/// The contents of a list of styled stretches.
pub open spec fn piece_views(v: Seq<Piece>) -> Seq<PieceView> {
    v.map_values(|p: Piece| p@)
}

/// Turn the styled stretches of a line into spans.
pub fn spans_of(pieces: &Vec<Piece>) -> (r: Vec<HlSpan>)
    ensures
        span_views(r@) == spans(piece_views(pieces@)),
{
    let mut out: Vec<HlSpan> = Vec::new();
    let ghost all = piece_views(pieces@);
    let mut i: usize = 0;
    while i < pieces.len()
        invariant
            i <= pieces.len(),
            all == piece_views(pieces@),
            span_views(out@) == spans(all.take(i as int)),
        decreases pieces.len() - i,
    {
        let ghost seen = span_views(out@);
        assert(all.take(i + 1).drop_last() =~= all.take(i as int));
        assert(all.take(i + 1).last() == pieces[i as int]@);
        let text = chomp(pieces[i].text.as_str());
        if !text.as_str().is_empty() {
            let s = HlSpan {
                fg: convert(&pieces[i]),
                bold: pieces[i].bold,
                italic: pieces[i].italic,
                text,
            };
            out.push(s);
            assert(span_views(out@) =~= seen.push(s@));
        }
        i += 1;
    }
    assert(all.take(i as int) =~= all);
    out
}

/// The text of a list of styled stretches.
pub open spec fn piece_text(pieces: Seq<PieceView>) -> Seq<char>
    decreases pieces.len(),
{
    if pieces.len() == 0 {
        Seq::empty()
    } else {
        piece_text(pieces.drop_last()) + pieces.last().text
    }
}

/// The text of a list of spans.
pub open spec fn span_text(s: Seq<SpanView>) -> Seq<char>
    decreases s.len(),
{
    if s.len() == 0 {
        Seq::empty()
    } else {
        span_text(s.drop_last()) + s.last().text
    }
}

proof fn lemma_chomped_plain(s: Seq<char>)
    requires
        !s.contains('\n'),
    ensures
        chomped(s) == s,
{
    if s.len() > 0 {
        assert(s[s.len() - 1] == s.last());
    }
}

proof fn lemma_spans_of_plain(pieces: Seq<PieceView>)
    requires
        !piece_text(pieces).contains('\n'),
    ensures
        span_text(spans(pieces)) == piece_text(pieces),
    decreases pieces.len(),
{
    if pieces.len() > 0 {
        let rest = pieces.drop_last();
        let t = pieces.last().text;
        let all = piece_text(pieces);
        assert forall|c: char| piece_text(rest).contains(c) implies all.contains(c) by {
            let i = choose|i: int| 0 <= i < piece_text(rest).len() && piece_text(rest)[i] == c;
            assert(all[i] == c);
        }
        assert forall|c: char| t.contains(c) implies all.contains(c) by {
            let i = choose|i: int| 0 <= i < t.len() && t[i] == c;
            assert(all[piece_text(rest).len() + i] == c);
        }
        lemma_spans_of_plain(rest);
        lemma_chomped_plain(t);
        let s = span(pieces.last());
        if s.text.len() > 0 {
            assert(spans(pieces).drop_last() =~= spans(rest));
        } else {
            assert(all =~= piece_text(rest));
        }
    }
}

/// Where the styled stretches make up a line and its end, the spans make up the line.
pub proof fn law_spans_cover_the_line(pieces: Seq<PieceView>, line: Seq<char>)
    requires
        piece_text(pieces) == line.push('\n'),
        !line.contains('\n'),
    ensures
        span_text(spans(pieces)) == line,
    decreases pieces.len(),
{
    let rest = pieces.drop_last();
    let t = pieces.last().text;
    let before = piece_text(rest);
    assert(before + t == line.push('\n'));
    if t.len() == 0 {
        assert(before =~= line.push('\n'));
        law_spans_cover_the_line(rest, line);
    } else {
        assert((before + t).last() == t.last());
        assert(t.last() == '\n');
        let body = t.drop_last();
        assert(before + body =~= line) by {
            assert((before + t).drop_last() =~= before + body);
            assert(line.push('\n').drop_last() =~= line);
        }
        assert forall|c: char| before.contains(c) implies line.contains(c) by {
            let i = choose|i: int| 0 <= i < before.len() && before[i] == c;
            assert((before + body)[i] == c);
        }
        assert forall|c: char| body.contains(c) implies line.contains(c) by {
            let i = choose|i: int| 0 <= i < body.len() && body[i] == c;
            assert((before + body)[before.len() + i] == c);
        }
        lemma_spans_of_plain(rest);
        lemma_chomped_plain(body);
        assert(chomped(t) == body);
        let s = span(pieces.last());
        if s.text.len() > 0 {
            assert(spans(pieces).drop_last() =~= spans(rest));
        } else {
            assert(before + body =~= before);
        }
    }
}

/// Where the styled stretches make up the start of a line and its end, so do the spans.
proof fn lemma_spans_start_the_line(pieces: Seq<PieceView>, line: Seq<char>)
    requires
        piece_text(pieces).is_prefix_of(line.push('\n')),
        !line.contains('\n'),
    ensures
        span_text(spans(pieces)).is_prefix_of(line),
{
    let t = piece_text(pieces);
    let whole = line.push('\n');
    if t.len() == whole.len() {
        assert(t =~= whole);
        law_spans_cover_the_line(pieces, line);
    } else {
        assert(t =~= line.take(t.len() as int)) by {
            assert(whole.subrange(0, t.len() as int) =~= line.take(t.len() as int));
        }
        if t.contains('\n') {
            let i = choose|i: int| 0 <= i < t.len() && t[i] == '\n';
            assert(line[i] == '\n');
        }
        lemma_spans_of_plain(pieces);
    }
}

/// The spans of a line make up its start: highlighting shows no other text than the line's.
pub open spec fn starts_line(spans: Option<Vec<HlSpan>>, text: Seq<char>) -> bool {
    spans matches Some(v) ==> span_text(span_views(v@)).is_prefix_of(text)
}

/// The same of a text that is one line.
pub open spec fn keeps_text(spans: Option<Vec<HlSpan>>, text: Seq<char>) -> bool {
    !text.contains('\n') ==> starts_line(spans, text)
}

// ---------------------------------------------------------------------------------------
// Themes

/// A color theme.
#[verifier::external_type_specification]
#[verifier::external_body]
pub struct ExTheme(syntect::highlighting::Theme);

/// The names of the bundled themes.
pub open spec fn theme_table() -> Seq<Seq<char>> {
    seq![
        "ansi"@,
        "base16"@,
        "base16-eighties.dark"@,
        "base16-mocha.dark"@,
        "base16-ocean.dark"@,
        "base16-ocean.light"@,
        "base16-256"@,
        "Catppuccin Frappe"@,
        "Catppuccin Latte"@,
        "Catppuccin Macchiato"@,
        "Catppuccin Mocha"@,
        "Coldark-Cold"@,
        "Coldark-Dark"@,
        "DarkNeon"@,
        "Dracula"@,
        "GitHub"@,
        "gruvbox-dark"@,
        "gruvbox-light"@,
        "InspiredGitHub"@,
        "1337"@,
        "Monokai Extended"@,
        "Monokai Extended Bright"@,
        "Monokai Extended Light"@,
        "Monokai Extended Origin"@,
        "Nord"@,
        "OneHalfDark"@,
        "OneHalfLight"@,
        "Solarized (dark)"@,
        "Solarized (light)"@,
        "Sublime Snazzy"@,
        "TwoDark"@,
        "zenburn"@,
    ]
}

/// `two_face::theme::EmbeddedLazyThemeSet::theme_names`, each theme by the name that
/// `EmbeddedThemeName::as_name` gives it: a fixed list.
#[verifier::external_body]
fn bundled_names() -> (r: Vec<String>)
    ensures
        views(r@) == theme_table(),
{
    two_face::theme::EmbeddedLazyThemeSet::theme_names()
        .iter()
        .map(|t| t.as_name().to_string())
        .collect()
}

/// The bundled theme at a place of the list of themes.
pub uninterp spec fn bundled_theme(place: int) -> syntect::highlighting::Theme;

/// `two_face::theme::EmbeddedLazyThemeSet::get`, on the set that `two_face::theme::extra`
/// returns: the theme at that place of the list of themes. The sets are embedded in the
/// program, so the same place always gives the same theme.
#[verifier::external_body]
fn load_theme(place: usize) -> (r: Theme)
    requires
        place < theme_table().len(),
    ensures
        r == bundled_theme(place as int),
{
    let name = two_face::theme::EmbeddedLazyThemeSet::theme_names()[place];
    two_face::theme::extra().get(name).clone()
}

/// A character, a capital ASCII letter as the small one.
pub open spec fn lower(c: char) -> char {
    if 'A' <= c && c <= 'Z' {
        ((c as int) + 32) as char
    } else {
        c
    }
}

/// The small letter for a capital ASCII letter.
fn lowered(c: char) -> (r: char)
    ensures
        r == lower(c),
{
    match c {
        'A' => 'a',
        'B' => 'b',
        'C' => 'c',
        'D' => 'd',
        'E' => 'e',
        'F' => 'f',
        'G' => 'g',
        'H' => 'h',
        'I' => 'i',
        'J' => 'j',
        'K' => 'k',
        'L' => 'l',
        'M' => 'm',
        'N' => 'n',
        'O' => 'o',
        'P' => 'p',
        'Q' => 'q',
        'R' => 'r',
        'S' => 's',
        'T' => 't',
        'U' => 'u',
        'V' => 'v',
        'W' => 'w',
        'X' => 'x',
        'Y' => 'y',
        'Z' => 'z',
        _ => c,
    }
}

/// The texts are the same but for the case of ASCII letters.
pub open spec fn same_but_case(a: Seq<char>, b: Seq<char>) -> bool {
    a.map_values(|c: char| lower(c)) == b.map_values(|c: char| lower(c))
}

/// Whether two texts are the same but for the case of ASCII letters.
fn equal_but_case(a: &str, b: &str) -> (r: bool)
    ensures
        r == same_but_case(a@, b@),
{
    let x = chars_of(a);
    let y = chars_of(b);
    let ghost lx = x@.map_values(|c: char| lower(c));
    let ghost ly = y@.map_values(|c: char| lower(c));
    if x.len() != y.len() {
        assert(lx.len() != ly.len());
        return false;
    }
    let mut i: usize = 0;
    while i < x.len()
        invariant
            i <= x.len() == y.len(),
            lx == x@.map_values(|c: char| lower(c)),
            ly == y@.map_values(|c: char| lower(c)),
            x@ == a@,
            y@ == b@,
            forall|j: int| 0 <= j < i ==> lx[j] == ly[j],
        decreases x.len() - i,
    {
        if lowered(x[i]) != lowered(y[i]) {
            assert(lx[i as int] != ly[i as int]);
            return false;
        }
        i += 1;
    }
    assert(lx =~= ly);
    true
}

/// The first bundled theme with that name, whatever its case.
pub open spec fn theme_place(names: Seq<Seq<char>>, name: Seq<char>) -> Option<int>
    decreases names.len(),
{
    if names.len() == 0 {
        None
    } else {
        match theme_place(names.drop_last(), name) {
            Some(i) => Some(i),
            None => if same_but_case(names.last(), name) {
                Some(names.len() - 1)
            } else {
                None
            },
        }
    }
}

proof fn lemma_theme_place_prefix(names: Seq<Seq<char>>, name: Seq<char>, n: int)
    requires
        0 <= n <= names.len(),
        theme_place(names.take(n), name) is Some,
    ensures
        theme_place(names, name) == theme_place(names.take(n), name),
    decreases names.len() - n,
{
    if n < names.len() {
        assert(names.take(n + 1).drop_last() =~= names.take(n));
        lemma_theme_place_prefix(names, name, n + 1);
    } else {
        assert(names.take(n) =~= names);
    }
}

/// The place of a theme in the list.
fn find_theme(name: &str) -> (r: Option<usize>)
    ensures
        match r {
            Some(i) => theme_place(theme_table(), name@) == Some(i as int) && i
                < theme_table().len(),
            None => theme_place(theme_table(), name@) is None,
        },
{
    let names = bundled_names();
    let ghost table = views(names@);
    let mut i: usize = 0;
    while i < names.len()
        invariant
            i <= names.len(),
            table == views(names@),
            table == theme_table(),
            theme_place(table.take(i as int), name@) is None,
        decreases names.len() - i,
    {
        assert(table.take(i + 1).drop_last() =~= table.take(i as int));
        assert(table.take(i + 1).last() == names[i as int]@);
        if equal_but_case(names[i].as_str(), name) {
            proof {
                lemma_theme_place_prefix(table, name@, i + 1);
            }
            return Some(i);
        }
        i += 1;
    }
    assert(table.take(i as int) =~= table);
    None
}

/// The names of the themes that can be asked for.
pub fn theme_names() -> (r: Vec<String>)
    ensures
        views(r@) == theme_table(),
{
    bundled_names()
}

// ---------------------------------------------------------------------------------------
// Syntaxes

/// A set of syntax definitions.
#[verifier::external_type_specification]
#[verifier::external_body]
pub struct ExSyntaxSet(syntect::parsing::SyntaxSet);

/// A syntax definition of a set.
#[verifier::external_type_specification]
#[verifier::external_body]
pub struct ExSyntaxReference(syntect::parsing::SyntaxReference);

/// The bundled syntax definitions. There is no other way to come by a value than to load them.
pub struct Syntaxes {
    set: SyntaxSet,
}

impl View for Syntaxes {
    type V = SyntaxSet;

    closed spec fn view(&self) -> SyntaxSet {
        self.set
    }
}

/// `two_face::syntax::extra_newlines`: the bundled definitions for lines that keep their
/// newline. Nothing is claimed of them.
#[verifier::external_body]
fn load_syntaxes() -> (r: Syntaxes) {
    Syntaxes { set: two_face::syntax::extra_newlines() }
}

/// The syntax definition of `set` for files with that extension.
pub uninterp spec fn syntax_by_extension(
    set: syntect::parsing::SyntaxSet,
    ext: Seq<char>,
) -> Option<syntect::parsing::SyntaxReference>;

/// `SyntaxSet::find_syntax_by_extension`: what it finds depends on the set and the extension
/// alone.
#[verifier::external_body]
fn by_extension<'a>(set: &'a Syntaxes, ext: &str) -> (r: Option<&'a SyntaxReference>)
    ensures
        match r {
            Some(s) => syntax_by_extension(set@, ext@) == Some(*s),
            None => syntax_by_extension(set@, ext@) is None,
        },
{
    set.set.find_syntax_by_extension(ext)
}

/// The name of a syntax definition.
pub uninterp spec fn syntax_name(syntax: syntect::parsing::SyntaxReference) -> Seq<char>;

/// `SyntaxReference::name`: the name of the definition.
#[verifier::external_body]
fn name_of(syntax: &SyntaxReference) -> (r: String)
    ensures
        r@ == syntax_name(*syntax),
{
    syntax.name.clone()
}

/// The syntax for a file: by its extension, else by its whole name, as names like `Makefile`
/// or `Dockerfile` are registered as extensions too. A file that is plain text has none.
pub open spec fn syntax_of(set: SyntaxSet, path: Seq<char>) -> Option<SyntaxReference> {
    match file_name(path) {
        None => None,
        Some(name) => {
            let by_ext = match extension(name) {
                Some(e) => syntax_by_extension(set, e),
                None => None,
            };
            let found = match by_ext {
                Some(s) => Some(s),
                None => syntax_by_extension(set, name),
            };
            match found {
                Some(s) => if syntax_name(s) == "Plain Text"@ {
                    None
                } else {
                    Some(s)
                },
                None => None,
            }
        },
    }
}

/// The syntax is one of the set's.
pub open spec fn belongs(set: SyntaxSet, syntax: SyntaxReference) -> bool {
    exists|ext: Seq<char>| #[trigger] syntax_by_extension(set, ext) == Some(syntax)
}

/// A highlighter that goes through the lines of a file.
#[verifier::external_type_specification]
#[verifier::external_body]
pub struct ExHighlightLines<'a>(syntect::easy::HighlightLines<'a>);

/// The syntax and the theme that a highlighter was made with.
pub uninterp spec fn made_with(h: syntect::easy::HighlightLines) -> (
    syntect::parsing::SyntaxReference,
    syntect::highlighting::Theme,
);

/// The lines that a highlighter has gone through, each with the syntax set it was read with.
pub uninterp spec fn fed(h: syntect::easy::HighlightLines) -> Seq<
    (syntect::parsing::SyntaxSet, Seq<char>),
>;

/// What a highlighter makes of the last line of `lines` after it has gone through the others;
/// `None` where it fails.
pub uninterp spec fn painted(
    syntax: syntect::parsing::SyntaxReference,
    theme: syntect::highlighting::Theme,
    lines: Seq<(syntect::parsing::SyntaxSet, Seq<char>)>,
) -> Option<Seq<PieceView>>;

/// `HighlightLines::new`: a highlighter with that syntax and theme that has not gone through
/// any line yet. The syntax must be a bundled one: those have the context that it starts in.
#[verifier::external_body]
fn start<'a>(set: &Syntaxes, syntax: &SyntaxReference, theme: &'a Theme) -> (h: HighlightLines<'a>)
    requires
        belongs(set@, *syntax),
    ensures
        made_with(h) == (*syntax, *theme),
        fed(h) == Seq::<(SyntaxSet, Seq<char>)>::empty(),
{
    HighlightLines::new(syntax, theme)
}

/// `HighlightLines::highlight_line`: goes through one more line. What comes out depends on the
/// syntax, the theme and the lines so far. The stretches follow one another from the start of
/// the line on; that they reach its end is left unsaid, as they end early where a scope of the
/// syntax cannot be applied. The syntax must be one of the bundled set.
#[verifier::external_body]
fn feed(h: &mut HighlightLines, line: &str, set: &Syntaxes) -> (r: Option<Vec<Piece>>)
    requires
        belongs(set@, made_with(*old(h)).0),
    ensures
        made_with(*final(h)) == made_with(*old(h)),
        fed(*final(h)) == fed(*old(h)).push((set@, line@)),
        match r {
            Some(v) => painted(made_with(*old(h)).0, made_with(*old(h)).1, fed(*final(h))) == Some(
                piece_views(v@),
            ),
            None => painted(made_with(*old(h)).0, made_with(*old(h)).1, fed(*final(h))) is None,
        },
        r matches Some(v) ==> piece_text(piece_views(v@)).is_prefix_of(line@),
{
    let ranges = h.highlight_line(line, &set.set).ok()?;
    let piece = |(s, t): (syntect::highlighting::Style, &str)| Piece {
        r: s.foreground.r,
        g: s.foreground.g,
        b: s.foreground.b,
        a: s.foreground.a,
        bold: s.font_style.contains(FontStyle::BOLD),
        italic: s.font_style.contains(FontStyle::ITALIC),
        text: t.to_string(),
    };
    Some(ranges.into_iter().map(piece).collect())
}

/// A text in quotes, with what cannot be shown escaped.
pub uninterp spec fn quoted(s: Seq<char>) -> Seq<char>;

/// `format!` with `{:?}` of a text: the text in quotes, with what cannot be shown escaped.
#[verifier::external_body]
fn quote(s: &str) -> (r: String)
    ensures
        r@ == quoted(s@),
{
    format!("{s:?}")
}

// ---------------------------------------------------------------------------------------
// Highlighting a diff

pub struct Highlighter {
    syntaxes: Syntaxes,
    theme: Theme,
}

impl Highlighter {
    /// The syntax definitions in use.
    pub closed spec fn definitions(self) -> SyntaxSet {
        self.syntaxes@
    }

    /// The theme in use.
    pub closed spec fn colors(self) -> Theme {
        self.theme
    }
}

/// The line is short enough to be highlighted.
pub open spec fn is_short(text: Seq<char>) -> bool {
    encode_utf8(text).len() <= MAX_LINE_LEN
}

/// The line is in the old version of the file, or in the new one.
pub open spec fn on_side(kind: LineKind, old: bool) -> bool {
    match kind {
        LineKind::Context => true,
        LineKind::Removed => old,
        LineKind::Added => !old,
        _ => false,
    }
}

/// The lines that the highlighter of one side has gone through before line `i`: those of that
/// side since the last hunk header. Hunks are not contiguous, so nothing carries over from one
/// to the next.
pub open spec fn stream(set: SyntaxSet, lines: Seq<DiffLine>, i: int, old: bool) -> Seq<
    (SyntaxSet, Seq<char>),
>
    decreases i,
{
    if i <= 0 {
        Seq::empty()
    } else {
        let l = lines[i - 1];
        let rest = stream(set, lines, i - 1, old);
        if l.kind == LineKind::Hunk {
            Seq::empty()
        } else if on_side(l.kind, old) && is_short(l.text@) {
            rest.push((set, l.text@.push('\n')))
        } else {
            rest
        }
    }
}

/// The spans of line `i`: a removed line as the old version of the file has it, an added line
/// and one that stays as the new version has it.
pub open spec fn line_spans(
    h: Highlighter,
    syntax: SyntaxReference,
    lines: Seq<DiffLine>,
    i: int,
) -> Option<Seq<SpanView>> {
    let l = lines[i];
    let old = l.kind == LineKind::Removed;
    if on_side(l.kind, old) && is_short(l.text@) {
        match painted(
            syntax,
            h.colors(),
            stream(h.definitions(), lines, i, old).push((h.definitions(), l.text@.push('\n'))),
        ) {
            Some(pieces) => Some(spans(pieces)),
            None => None,
        }
    } else {
        None
    }
}

/// The spans of all lines.
pub open spec fn highlighted(h: Highlighter, path: Seq<char>, lines: Seq<DiffLine>) -> Seq<
    Option<Seq<SpanView>>,
> {
    Seq::new(
        lines.len(),
        |i: int|
            match syntax_of(h.definitions(), path) {
                Some(syntax) => if lines.len() > MAX_LINES {
                    None
                } else {
                    line_spans(h, syntax, lines, i)
                },
                None => None,
            },
    )
}

/// The spans of one line as a value.
pub open spec fn opt_spans(s: Option<Vec<HlSpan>>) -> Option<Seq<SpanView>> {
    match s {
        Some(v) => Some(span_views(v@)),
        None => None,
    }
}

/// The contents of a list of highlighted lines.
pub open spec fn highlight_views(v: Seq<Option<Vec<HlSpan>>>) -> Seq<Option<Seq<SpanView>>> {
    v.map_values(|s: Option<Vec<HlSpan>>| opt_spans(s))
}

impl Highlighter {
    /// A highlighter with the theme of that name and the bundled syntax definitions; an error
    /// that lists the themes where there is none of that name.
    pub fn new(theme_name: &str) -> (r: Result<Self, String>)
        ensures
            match theme_place(theme_table(), theme_name@) {
                Some(i) => r matches Ok(h) && h.colors() == bundled_theme(i),
                None => r matches Err(msg) && msg@ == "unknown theme "@ + quoted(theme_name@)
                    + "; available: "@ + join(theme_table(), ", "@),
            },
    {
        match find_theme(theme_name) {
            Some(i) => Ok(Highlighter { syntaxes: load_syntaxes(), theme: load_theme(i) }),
            None => {
                let mut msg = "unknown theme ".to_owned();
                msg.append(quote(theme_name).as_str());
                msg.append("; available: ");
                msg.append(joined(&theme_names(), ", ").as_str());
                Err(msg)
            },
        }
    }

    /// Highlight the lines of the diff of the file at `path`.
    pub fn highlight(&self, path: &str, lines: &[DiffLine]) -> (r: Highlights)
        ensures
            highlight_views(r@) == highlighted(*self, path@, lines@),
            forall|i: int|
                0 <= i < lines@.len() ==> keeps_text(#[trigger] r@[i], lines@[i].text@),
    {
        let mut out: Highlights = Vec::new();
        let mut k: usize = 0;
        let found = self.syntax_for(path);
        let limit: usize = if found.is_none() || lines.len() > MAX_LINES {
            0
        } else {
            lines.len()
        };
        if let Some(syntax) = found {
            // Old and new sides are separate streams so parser state (open comments,
            // strings) follows each version of the file. Context lines feed both.
            let mut old = start(&self.syntaxes, syntax, &self.theme);
            let mut new = start(&self.syntaxes, syntax, &self.theme);
            while k < limit
                invariant
                    k <= limit,
                    limit == 0 || limit == lines@.len(),
                    syntax_of(self.definitions(), path@) == Some(*syntax),
                    belongs(self.definitions(), *syntax),
                    out@.len() == k,
                    made_with(old) == (*syntax, self.colors()),
                    made_with(new) == (*syntax, self.colors()),
                    fed(old) == stream(self.definitions(), lines@, k as int, true),
                    fed(new) == stream(self.definitions(), lines@, k as int, false),
                    forall|j: int|
                        0 <= j < k ==> opt_spans(#[trigger] out@[j]) == line_spans(
                            *self,
                            *syntax,
                            lines@,
                            j,
                        ),
                    forall|j: int| 0 <= j < k ==> keeps_text(#[trigger] out@[j], lines@[j].text@),
                decreases limit - k,
            {
                let line = &lines[k];
                let spans = match line.kind {
                    LineKind::Hunk => {
                        // Hunks are not contiguous; restart so state can't leak across gaps.
                        old = start(&self.syntaxes, syntax, &self.theme);
                        new = start(&self.syntaxes, syntax, &self.theme);
                        None
                    },
                    LineKind::Removed => self.line(&mut old, line.text.as_str()),
                    LineKind::Added => self.line(&mut new, line.text.as_str()),
                    LineKind::Context => {
                        let _ = self.line(&mut old, line.text.as_str());
                        self.line(&mut new, line.text.as_str())
                    },
                    LineKind::Meta | LineKind::NoNewline => None,
                };
                out.push(spans);
                k += 1;
            }
        }
        while k < lines.len()
            invariant
                limit <= k <= lines.len(),
                out@.len() == k,
                forall|j: int|
                    0 <= j < k ==> opt_spans(#[trigger] out@[j]) == highlighted(
                        *self,
                        path@,
                        lines@,
                    )[j],
                forall|j: int| 0 <= j < k ==> keeps_text(#[trigger] out@[j], lines@[j].text@),
                limit == 0 || limit == lines@.len(),
                limit < lines@.len() ==> syntax_of(self.definitions(), path@) is None || lines@.len()
                    > MAX_LINES,
            decreases lines.len() - k,
        {
            out.push(None);
            k += 1;
        }
        assert(highlight_views(out@) =~= highlighted(*self, path@, lines@));
        out
    }

    /// Highlight one line; a line that is too long is passed over.
    fn line(&self, h: &mut HighlightLines, text: &str) -> (r: Option<Vec<HlSpan>>)
        requires
            belongs(self.definitions(), made_with(*old(h)).0),
        ensures
            made_with(*final(h)) == made_with(*old(h)),
            if is_short(text@) {
                &&& fed(*final(h)) == fed(*old(h)).push((self.definitions(), text@.push('\n')))
                &&& opt_spans(r) == (match painted(
                    made_with(*old(h)).0,
                    made_with(*old(h)).1,
                    fed(*final(h)),
                ) {
                    Some(pieces) => Some(spans(pieces)),
                    None => None,
                })
            } else {
                fed(*final(h)) == fed(*old(h)) && r is None
            },
            keeps_text(r, text@),
    {
        if text.as_bytes().len() > MAX_LINE_LEN {
            return None;
        }
        let mut with_nl = text.to_owned();
        with_nl.push('\n');
        match feed(h, with_nl.as_str(), &self.syntaxes) {
            Some(pieces) => {
                proof {
                    if !text@.contains('\n') {
                        lemma_spans_start_the_line(piece_views(pieces@), text@);
                    }
                }
                Some(spans_of(&pieces))
            },
            None => None,
        }
    }

    /// The syntax for a file.
    fn syntax_for(&self, path: &str) -> (r: Option<&SyntaxReference>)
        ensures
            match r {
                Some(s) => syntax_of(self.definitions(), path@) == Some(*s) && belongs(
                    self.definitions(),
                    *s,
                ),
                None => syntax_of(self.definitions(), path@) is None,
            },
    {
        let name = match file_name_of(path) {
            Some(n) => n,
            None => {
                return None;
            },
        };
        let by_ext = match extension_of(name.as_str()) {
            Some(e) => by_extension(&self.syntaxes, e.as_str()),
            None => None,
        };
        // Extension-less names like `Makefile` or `Dockerfile` are registered as extensions too.
        let found = match by_ext {
            Some(s) => Some(s),
            None => by_extension(&self.syntaxes, name.as_str()),
        };
        match found {
            Some(s) => if same_text(name_of(s).as_str(), "Plain Text") {
                None
            } else {
                Some(s)
            },
            None => None,
        }
    }
}

/// A diff that is too large stays plain throughout.
pub proof fn law_large_diffs_stay_plain(h: Highlighter, path: Seq<char>, lines: Seq<DiffLine>, i: int)
    requires
        lines.len() > MAX_LINES,
        0 <= i < lines.len(),
    ensures
        highlighted(h, path, lines)[i] is None,
{
}

/// Nothing carries over from one hunk to the next.
pub proof fn law_hunks_start_afresh(set: SyntaxSet, lines: Seq<DiffLine>, i: int, old: bool)
    requires
        0 <= i < lines.len(),
        lines[i].kind == LineKind::Hunk,
    ensures
        stream(set, lines, i + 1, old).len() == 0,
{
}

/// The lines of a diff without those of a kind.
pub open spec fn without_kind(lines: Seq<DiffLine>, kind: LineKind) -> Seq<DiffLine>
    decreases lines.len(),
{
    if lines.len() == 0 {
        lines
    } else {
        let rest = without_kind(lines.drop_last(), kind);
        if lines.last().kind == kind {
            rest
        } else {
            rest.push(lines.last())
        }
    }
}

/// Where line `i` of a diff is in it without the lines of a kind.
pub open spec fn place_without(lines: Seq<DiffLine>, kind: LineKind, i: int) -> int {
    without_kind(lines.take(i), kind).len() as int
}

proof fn lemma_stream_local(set: SyntaxSet, a: Seq<DiffLine>, b: Seq<DiffLine>, n: int, old: bool)
    requires
        n <= a.len(),
        n <= b.len(),
        forall|j: int| 0 <= j < n ==> a[j] == b[j],
    ensures
        stream(set, a, n, old) == stream(set, b, n, old),
    decreases n,
{
    if n > 0 {
        lemma_stream_local(set, a, b, n - 1, old);
    }
}

/// The stream of a side is the same without the lines that are only on the other one.
proof fn lemma_stream_without(set: SyntaxSet, lines: Seq<DiffLine>, old: bool)
    ensures
        ({
            let rest = without_kind(lines, other_side(old));
            stream(set, rest, rest.len() as int, old) == stream(
                set,
                lines,
                lines.len() as int,
                old,
            )
        }),
    decreases lines.len(),
{
    if lines.len() > 0 {
        let kind = other_side(old);
        let n = lines.len() - 1;
        let head = lines.drop_last();
        let rest = without_kind(head, kind);
        lemma_stream_without(set, head, old);
        lemma_stream_local(set, head, lines, n, old);
        if lines.last().kind != kind {
            let all = rest.push(lines.last());
            lemma_stream_local(set, rest, all, rest.len() as int, old);
        }
    }
}

/// The kind of the lines that are only on the other side than this one.
pub open spec fn other_side(old: bool) -> LineKind {
    if old {
        LineKind::Added
    } else {
        LineKind::Removed
    }
}

proof fn lemma_place_without(lines: Seq<DiffLine>, kind: LineKind, i: int)
    requires
        0 <= i < lines.len(),
        lines[i].kind != kind,
    ensures
        place_without(lines, kind, i) < without_kind(lines, kind).len(),
        without_kind(lines, kind)[place_without(lines, kind, i)] == lines[i],
        without_kind(lines, kind).take(place_without(lines, kind, i)) == without_kind(
            lines.take(i),
            kind,
        ),
    decreases lines.len(),
{
    let head = lines.drop_last();
    let all = without_kind(lines, kind);
    let k = place_without(lines, kind, i);
    if i == lines.len() - 1 {
        assert(lines.take(i) =~= head);
        assert(all.take(k) =~= without_kind(head, kind));
    } else {
        lemma_place_without(head, kind, i);
        assert(head.take(i) =~= lines.take(i));
        assert(all.take(k) =~= without_kind(head, kind).take(k));
    }
}

/// The sides are separate: with the removed lines taken out of a diff, the lines that are left
/// in the new version are highlighted as they were, and with the added ones taken out so are
/// those of the old version. A comment that opens in a removed line does not reach the new ones.
pub proof fn law_sides_are_separate(
    h: Highlighter,
    syntax: SyntaxReference,
    lines: Seq<DiffLine>,
    i: int,
    old: bool,
)
    requires
        0 <= i < lines.len(),
        lines[i].kind != other_side(old),
        old == (lines[i].kind == LineKind::Removed),
    ensures
        without_kind(lines, other_side(old))[place_without(lines, other_side(old), i)] == lines[i],
        line_spans(
            h,
            syntax,
            without_kind(lines, other_side(old)),
            place_without(lines, other_side(old), i),
        ) == line_spans(h, syntax, lines, i),
{
    let kind = other_side(old);
    let rest = without_kind(lines, kind);
    let k = place_without(lines, kind, i);
    let set = h.definitions();
    lemma_place_without(lines, kind, i);
    lemma_stream_without(set, lines.take(i), old);
    lemma_stream_local(set, lines.take(i), lines, i, old);
    lemma_stream_local(set, rest.take(k), rest, k, old);
}

} // verus!
