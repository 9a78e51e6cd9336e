//! Syntax highlighting.

use herdiff::diff::parse_unified;
use herdiff::highlight::{spans_of, theme_names, Fg, Highlighter, Piece, DEFAULT_THEME};

#[test]
fn highlights_rust_by_extension() {
    let h = Highlighter::new(DEFAULT_THEME).unwrap();
    let lines =
        parse_unified("@@ -1,2 +1,2 @@\n fn main() {\n-    let a = 1;\n+    let b = \"x\";\n");
    let hl = h.highlight("src/main.rs", &lines);
    assert!(hl[0].is_none(), "hunk header stays plain");
    for i in 1..=3 {
        let spans = hl[i].as_ref().expect("code line highlighted");
        let joined: String = spans.iter().map(|s| s.text.as_str()).collect();
        assert_eq!(joined, lines[i].text);
        let colors: std::collections::HashSet<_> = spans.iter().map(|s| s.fg).collect();
        assert!(colors.len() > 1, "expected several colors in {spans:?}");
    }
}

#[test]
fn toml_and_unknown_files() {
    let h = Highlighter::new("github").unwrap();
    let lines = parse_unified("@@ -0,0 +1 @@\n+name = \"x\"\n");
    assert!(h.highlight("Cargo.toml", &lines)[1].is_some());
    assert!(h.highlight("notes.unknownext", &lines)[1].is_none());
}

#[test]
fn rejects_unknown_theme() {
    assert!(Highlighter::new("nope").is_err());
}

#[test]
fn unknown_theme_lists_the_themes() {
    let e = Highlighter::new("no\"pe").err().unwrap();
    assert!(
        e.starts_with("unknown theme \"no\\\"pe\"; available: ansi, base16, base16-eighties.dark, "),
        "{e}"
    );
    assert!(e.ends_with(", TwoDark, zenburn"), "{e}");
}

#[test]
fn bundled_themes() {
    let names = theme_names();
    assert_eq!(names.len(), 32);
    assert_eq!(names[0], "ansi");
    assert_eq!(names[31], "zenburn");
    assert!(names.iter().any(|n| n == DEFAULT_THEME));
    for n in &names {
        assert!(Highlighter::new(&n.to_uppercase()).is_ok(), "{n}");
    }
}

#[test]
fn sides_do_not_bleed_into_each_other() {
    let h = Highlighter::new(DEFAULT_THEME).unwrap();
    // A comment that opens in a removed line stays open for removed lines only.
    let lines = parse_unified("@@ -1,2 +1,1 @@\n-/* open\n-let a = 1;\n+let a = 1;\n");
    let hl = h.highlight("x.rs", &lines);
    let removed = hl[2].as_ref().unwrap();
    let added = hl[3].as_ref().unwrap();
    assert_eq!(removed.len(), 1, "one comment: {removed:?}");
    assert!(added.len() > 1, "code: {added:?}");
    // And it ends with the hunk.
    let lines = parse_unified("@@ -1 +1 @@\n+/* open\n@@ -9 +9 @@\n+let a = 1;\n");
    let hl = h.highlight("x.rs", &lines);
    assert!(hl[3].as_ref().unwrap().len() > 1);
}

#[test]
fn removed_lines_leave_the_others_as_they_are() {
    let h = Highlighter::new(DEFAULT_THEME).unwrap();
    let whole = parse_unified("@@ -1,3 +1,3 @@\n fn a() {\n-/* open\n+let b = \"x\";\n }\n");
    let rest = parse_unified("@@ -1,3 +1,3 @@\n fn a() {\n+let b = \"x\";\n }\n");
    let with = h.highlight("x.rs", &whole);
    let without = h.highlight("x.rs", &rest);
    assert!(with[3].is_some());
    assert_eq!((&with[1], &with[3], &with[4]), (&without[1], &without[2], &without[3]));
    for (spans, line) in with.iter().zip(&whole) {
        if let Some(spans) = spans {
            let joined: String = spans.iter().map(|s| s.text.as_str()).collect();
            assert!(line.text.starts_with(&joined));
        }
    }
}

#[test]
fn long_lines_and_long_diffs_stay_plain() {
    let h = Highlighter::new(DEFAULT_THEME).unwrap();
    let text = format!("@@ -1 +1 @@\n+{}\n+{}\n", "x".repeat(2000), "x".repeat(2001));
    let hl = h.highlight("x.rs", &parse_unified(&text));
    assert!(hl[1].is_some() && hl[2].is_none());
    let many = format!("@@ -1 +1 @@\n{}", "+x\n".repeat(10_000));
    let hl = h.highlight("x.rs", &parse_unified(&many));
    assert_eq!(hl.len(), 10_001);
    assert!(hl.iter().all(|l| l.is_none()));
}

#[test]
fn names_without_an_extension() {
    let h = Highlighter::new(DEFAULT_THEME).unwrap();
    let lines = parse_unified("@@ -0,0 +1 @@\n+all: x\n");
    assert!(h.highlight("sub/Makefile", &lines)[1].is_some());
    assert!(h.highlight("notes.txt", &lines)[1].is_none());
    assert!(h.highlight("..", &lines)[1].is_none());
}

fn piece(a: u8, text: &str) -> Piece {
    Piece {
        r: 1,
        g: 2,
        b: 3,
        a,
        bold: true,
        italic: false,
        text: text.into(),
    }
}

#[test]
fn styles_become_spans() {
    let spans = spans_of(&vec![piece(255, "ab"), piece(0, "c"), piece(1, "d\n"), piece(7, "\n")]);
    let got: Vec<_> = spans.iter().map(|s| (s.fg, s.text.as_str())).collect();
    assert_eq!(
        got,
        vec![(Fg::Rgb(1, 2, 3), "ab"), (Fg::Indexed(1), "c"), (Fg::Default, "d")]
    );
    assert!(spans[0].bold && !spans[0].italic);
    assert!(spans_of(&Vec::new()).is_empty());
}

#[test]
fn ansi_theme_uses_the_palette() {
    let h = Highlighter::new("ansi").unwrap();
    let lines = parse_unified("@@ -0,0 +1 @@\n+fn main() { let a = \"x\"; }\n");
    let hl = h.highlight("x.rs", &lines);
    assert!(hl[1].as_ref().unwrap().iter().all(|s| !matches!(s.fg, Fg::Rgb(..))));
}
