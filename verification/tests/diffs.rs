//! Diff parsing and row layouts.

use herdiff::diff::{
    hunk_above, hunk_from, hunk_index, hunk_start, parse_hunk_header, parse_unified, LineKind, Row,
    Rows,
};

const SAMPLE: &str = "diff --git a/f.rs b/f.rs
index 1..2 100644
--- a/f.rs
+++ b/f.rs
@@ -1,3 +1,4 @@ fn main
 a
-b
+B
+c
 d
\\ No newline at end of file
";

#[test]
fn numbers_lines() {
    let lines = parse_unified(SAMPLE);
    let kinds: Vec<_> = lines.iter().map(|l| l.kind).collect();
    assert_eq!(
        kinds,
        vec![
            LineKind::Meta,
            LineKind::Meta,
            LineKind::Meta,
            LineKind::Meta,
            LineKind::Hunk,
            LineKind::Context,
            LineKind::Removed,
            LineKind::Added,
            LineKind::Added,
            LineKind::Context,
            LineKind::NoNewline
        ]
    );
    assert_eq!(lines[6].old_no, Some(2));
    assert_eq!(lines[7].new_no, Some(2));
    assert_eq!(lines[8].new_no, Some(3));
    assert_eq!((lines[9].old_no, lines[9].new_no), (Some(3), Some(4)));
    assert_eq!(lines[7].text, "B");
}

#[test]
fn hunk_header_without_counts() {
    assert_eq!(parse_hunk_header("@@ -0,0 +1 @@"), Some((0, 1)));
}

#[test]
fn meta_lines_are_not_treated_as_changes() {
    let lines = parse_unified("--- a/x\n+++ b/x\n");
    assert!(lines.iter().all(|l| l.kind == LineKind::Meta));
}

#[test]
fn hunk_headers_that_do_not_parse() {
    assert_eq!(parse_hunk_header("@@ -12,5 +14,7 @@ fn x"), Some((12, 14)));
    assert_eq!(parse_hunk_header("@@"), None);
    assert_eq!(parse_hunk_header("@@ 12 +3 @@"), None);
    assert_eq!(parse_hunk_header("@@ -x +3 @@"), None);
    assert_eq!(parse_hunk_header("@@ -4294967296 +3 @@"), None);
    // A header that does not parse is still a header, and leaves numbering as it was.
    let lines = parse_unified("@@ -5 +6 @@\n a\n@@ odd\n b\n");
    assert_eq!(lines[2].kind, LineKind::Hunk);
    assert_eq!((lines[3].old_no, lines[3].new_no), (Some(6), Some(7)));
}

#[test]
fn odd_lines() {
    // An empty line inside a hunk is context, tabs are expanded, a carriage return is dropped.
    let lines = parse_unified("@@ -1 +1 @@\n\n+\tx\r\nwhat\n+y\n");
    assert_eq!(lines[1].kind, LineKind::Context);
    assert_eq!(lines[1].text, "");
    assert_eq!(lines[2].text, "    x");
    // A line that fits nothing ends the hunk.
    assert_eq!(lines[3].kind, LineKind::Meta);
    assert_eq!(lines[4].kind, LineKind::Meta);
    assert!(parse_unified("").is_empty());
}

#[test]
fn split_pairs_removed_with_added() {
    let lines = parse_unified("@@ -1,4 +1,3 @@\n a\n-b\n-c\n+B\n d\n+e\n");
    let rows = Rows::split(&lines);
    assert_eq!(
        rows.rows,
        vec![
            Row::Full(0),
            Row::Pair { left: Some(1), right: Some(1) },
            Row::Pair { left: Some(2), right: Some(4) },
            Row::Pair { left: Some(3), right: None },
            Row::Pair { left: Some(5), right: Some(5) },
            Row::Pair { left: None, right: Some(6) },
        ]
    );
    assert_eq!(rows.line_row, vec![0, 1, 2, 3, 2, 4, 5]);
    assert_eq!(rows.rows[5].anchor(), 6);
    let one = Rows::unified(&lines);
    assert_eq!(one.rows[4], Row::Full(4));
    assert_eq!(one.line_row, vec![0, 1, 2, 3, 4, 5, 6]);
    assert!(Rows::empty().rows.is_empty());
}

#[test]
fn hunks_are_found_and_counted() {
    let lines = parse_unified("diff --git a b\n@@ -1 +1 @@\n-a\n+b\n@@ -9 +9 @@\n-c\n");
    assert_eq!(hunk_start(&lines, 0), None);
    assert_eq!(hunk_start(&lines, 3), Some(1));
    assert_eq!(hunk_start(&lines, 4), Some(4));
    assert_eq!(hunk_start(&lines, 99), Some(4));
    assert_eq!(hunk_index(&lines, 1), 0);
    assert_eq!(hunk_index(&lines, 4), 1);
    assert_eq!(hunk_from(&lines, 2), Some(4));
    assert_eq!(hunk_from(&lines, 5), None);
    assert_eq!(hunk_above(&lines, 4), Some(1));
    assert_eq!(hunk_above(&lines, 1), None);
}
