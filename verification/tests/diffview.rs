use co_review::diffview::{
    parse_hunk_header, parse_unified_diff, plain_window, render_plain, window_diff, CodeLine,
    CodeSnippet, LineKind,
};
use co_review::model::Side;

const SAMPLE: &str = "\
diff --git a/f.rs b/f.rs
index 111..222 100644
--- a/f.rs
+++ b/f.rs
@@ -1,4 +1,5 @@
 fn main() {
-    let x = 1;
+    let x = 2;
+    let y = 3;
     println!(\"{x}\");
 }
";

#[test]
fn parses_hunk_header() {
    assert_eq!(parse_hunk_header(" -1,4 +1,5 @@ fn main"), Some((1, 1)));
    assert_eq!(parse_hunk_header(" -10 +12,3 @@"), Some((10, 12)));
}

#[test]
fn parses_lines_with_numbers() {
    let lines = parse_unified_diff(SAMPLE);
    // context, removed, added, added, context, context
    assert_eq!(lines[0].kind, LineKind::Context);
    assert_eq!(lines[0].new, Some(1));
    assert_eq!(lines[1].kind, LineKind::Removed);
    assert_eq!(lines[1].old, Some(2));
    assert_eq!(lines[1].new, None);
    assert_eq!(lines[2].kind, LineKind::Added);
    assert_eq!(lines[2].new, Some(2));
    assert_eq!(lines[3].kind, LineKind::Added);
    assert_eq!(lines[3].new, Some(3));
    // the trailing context line numbers continue
    let last_ctx = lines.iter().rev().find(|l| l.kind == LineKind::Context).unwrap();
    assert_eq!(last_ctx.new, Some(5));
}

#[test]
fn unparseable_hunk_header_stops_numbering() {
    // A malformed second hunk header must not keep numbering body lines from
    // the previous hunk's counters.
    let diff = "@@ -1,1 +1,1 @@\n a\n@@ garbage @@\n b\n";
    let lines = parse_unified_diff(diff);
    assert_eq!(lines.len(), 1);
    assert_eq!(lines[0].text, "a");
    assert_eq!(lines[0].new, Some(1));
}

#[test]
fn window_includes_focus_and_removed() {
    let parsed = parse_unified_diff(SAMPLE);
    // focus on new line 2..3 (the added lines), context 6
    let win = window_diff(&parsed, 1, 9, 2, 3);
    // The removed `let x = 1;` should appear adjacent to the window.
    assert!(win.iter().any(|l| l.kind == LineKind::Removed && l.text.contains("let x = 1")));
    // Added line 2 is focused.
    let added2 = win.iter().find(|l| l.number == Some(2)).unwrap();
    assert_eq!(added2.kind, LineKind::Added);
    assert!(added2.focus);
    // Context line 5 present, not focused.
    let ctx5 = win.iter().find(|l| l.number == Some(5)).unwrap();
    assert!(!ctx5.focus);
}

#[test]
fn plain_window_slices_and_focuses() {
    let content = "l1\nl2\nl3\nl4\nl5\n";
    let win = plain_window(content, 2, 4, 3, 3);
    assert_eq!(win.len(), 3);
    assert_eq!(win[0].number, Some(2));
    assert_eq!(win[1].number, Some(3));
    assert!(win[1].focus);
    assert!(!win[0].focus);
}

#[test]
fn render_plain_shows_markers() {
    let snippet = CodeSnippet {
        file: "f.rs".into(),
        side: Side::Head,
        from_diff: true,
        note: None,
        lines: vec![
            CodeLine { number: Some(1), kind: LineKind::Context, focus: false, text: "a".into() },
            CodeLine { number: Some(2), kind: LineKind::Added, focus: true, text: "b".into() },
        ],
    };
    let text = render_plain(&snippet);
    assert!(text.contains("f.rs (head, diff)"));
    assert!(text.contains("▶"));
    assert!(text.contains("+ b"));
}

use co_review::diffview::{
    parse_diff_checked, snippet_for_location, snippet_header, uses_diff, DEFAULT_CONTEXT,
};
use co_review::model::Location;

#[test]
fn window_lines_stay_in_the_window() {
    let parsed = parse_unified_diff(SAMPLE);
    for (lo, hi) in [(1u32, 1u32), (2, 3), (4, 9), (6, 6)] {
        for l in window_diff(&parsed, lo, hi, lo, lo) {
            match l.number {
                Some(n) => {
                    assert!(lo <= n && n <= hi);
                    assert_ne!(l.kind, LineKind::Removed);
                    assert_eq!(l.focus, n == lo);
                }
                None => {
                    assert_eq!(l.kind, LineKind::Removed);
                    assert!(!l.focus);
                }
            }
        }
    }
}

#[test]
fn plain_window_is_a_contiguous_run() {
    let content = "a\nb\nc\nd\ne\nf\n";
    let win = plain_window(content, 2, 5, 9, 9);
    let got: Vec<(Option<u32>, &str)> = win.iter().map(|l| (l.number, l.text.as_str())).collect();
    assert_eq!(got, vec![(Some(2), "b"), (Some(3), "c"), (Some(4), "d"), (Some(5), "e")]);
    assert!(win.iter().all(|l| !l.focus && l.kind == LineKind::Context));
    assert!(plain_window(content, 7, 9, 0, 0).is_empty());
    assert_eq!(plain_window("x\r\ny", 1, 2, 1, 1)[0].text, "x");
}

#[test]
fn checked_parse_matches_the_plain_one() {
    assert_eq!(parse_diff_checked(SAMPLE), Some(parse_unified_diff(SAMPLE)));
    // numbering past the largest line number is refused
    assert_eq!(parse_diff_checked("@@ -1 +4294967295 @@\n a\n b\n"), None);
}

#[test]
fn render_plain_exact() {
    let snippet = CodeSnippet {
        file: "f.rs".into(),
        side: Side::Base,
        from_diff: false,
        note: None,
        lines: vec![
            CodeLine { number: Some(9), kind: LineKind::Context, focus: true, text: "a".into() },
            CodeLine { number: None, kind: LineKind::Removed, focus: false, text: "b".into() },
        ],
    };
    assert_eq!(
        render_plain(&snippet),
        "── f.rs (base, context) ──\n▶    9   a\n       - b\n"
    );
    let missing = CodeSnippet {
        file: "g.rs".into(),
        side: Side::Head,
        from_diff: false,
        note: Some("g.rs not found in the head checkout".into()),
        lines: vec![],
    };
    assert_eq!(
        render_plain(&missing),
        "── g.rs (head, context) ──\n   (g.rs not found in the head checkout)\n"
    );
}

#[test]
fn snippets_prefer_the_diff_on_the_head_side() {
    let head = Location { file: "f.rs".into(), start_line: 2, end_line: Some(3), side: Side::Head };
    let s = snippet_for_location(&head, DEFAULT_CONTEXT, Some(SAMPLE), Some("unused\n"));
    assert!(s.from_diff);
    assert_eq!(s.side, Side::Head);
    assert!(s.lines.iter().any(|l| l.number == Some(2) && l.focus));
    // outside the diff: plain context from the head file
    let far = Location { file: "f.rs".into(), start_line: 40, end_line: None, side: Side::Head };
    let content: String = (1..=50).map(|i| format!("line {i}\n")).collect();
    let s = snippet_for_location(&far, 1, Some(SAMPLE), Some(&content));
    assert!(!s.from_diff);
    let nums: Vec<Option<u32>> = s.lines.iter().map(|l| l.number).collect();
    assert_eq!(nums, vec![Some(39), Some(40), Some(41)]);
    assert!(s.lines[1].focus);
    // the file is missing on that side
    let s = snippet_for_location(&far, 1, None, None);
    assert_eq!(s.note.as_deref(), Some("f.rs not found in the head checkout"));
    assert!(s.lines.is_empty());
    // the base side never uses the diff
    let base = Location { file: "f.rs".into(), start_line: 1, end_line: None, side: Side::Base };
    let s = snippet_for_location(&base, 0, Some(SAMPLE), Some("old\n"));
    assert!(!s.from_diff);
    assert_eq!(s.side, Side::Base);
    assert_eq!(s.lines.len(), 1);
    assert_eq!(s.lines[0].text, "old");
    let s = snippet_for_location(&base, 0, None, None);
    assert_eq!(s.note.as_deref(), Some("f.rs not found in the base revision"));
}

#[test]
fn snippet_titles() {
    let s = CodeSnippet { file: "a/b.rs".into(), side: Side::Head, from_diff: true, note: None, lines: vec![] };
    assert_eq!(snippet_header(&s), "a/b.rs · head · diff");
    let s = CodeSnippet { file: "c.rs".into(), side: Side::Base, from_diff: false, note: None, lines: vec![] };
    assert_eq!(snippet_header(&s), "c.rs · base · context");
}

#[test]
fn hunk_numbers_advance_per_side() {
    let lines = parse_unified_diff("@@ -10,3 +20,4 @@\n a\n-b\n+c\n+d\n e\n");
    let got: Vec<(LineKind, Option<u32>, Option<u32>, &str)> =
        lines.iter().map(|l| (l.kind, l.old, l.new, l.text.as_str())).collect();
    assert_eq!(
        got,
        vec![
            (LineKind::Context, Some(10), Some(20), "a"),
            (LineKind::Removed, Some(11), None, "b"),
            (LineKind::Added, None, Some(21), "c"),
            (LineKind::Added, None, Some(22), "d"),
            (LineKind::Context, Some(12), Some(23), "e"),
        ]
    );
}

#[test]
fn removed_line_far_from_window_is_left_out() {
    // `x` sits just before head line 20, far from the window 1..9.
    let parsed = parse_unified_diff("@@ -1,2 +1,2 @@\n a\n b\n@@ -20,2 +20,1 @@\n-x\n y\n");
    let win = window_diff(&parsed, 1, 9, 1, 1);
    let got: Vec<(Option<u32>, LineKind, bool, String)> =
        win.iter().map(|l| (l.number, l.kind, l.focus, l.text.clone())).collect();
    assert_eq!(
        got,
        vec![
            (Some(1), LineKind::Context, true, "a".to_string()),
            (Some(2), LineKind::Context, false, "b".to_string()),
        ]
    );
}

#[test]
fn removed_line_at_hunk_end_stays_beside_its_hunk() {
    // `b` closes the first hunk: it follows head line 1, so it is shown in 1..9,
    // while the second hunk's removed `d` (before head line 30) is not.
    let parsed =
        parse_unified_diff("@@ -1,2 +1,1 @@\n a\n-b\n@@ -31,2 +30,1 @@\n-d\n e\n");
    assert_eq!(parsed[1].at, 2);
    assert_eq!(parsed[2].at, 30);
    let win = window_diff(&parsed, 1, 9, 1, 1);
    let got: Vec<(Option<u32>, LineKind, String)> =
        win.iter().map(|l| (l.number, l.kind, l.text.clone())).collect();
    assert_eq!(
        got,
        vec![
            (Some(1), LineKind::Context, "a".to_string()),
            (None, LineKind::Removed, "b".to_string()),
        ]
    );
}

#[test]
fn every_file_header_is_consumed() {
    let diff = "diff --git a/f b/f\n--- a/f\n+++ b/f\n@@ -1 +1 @@\n-a\n+b\ndiff --git a/g b/g\n--- a/g\n+++ b/g\n@@ -1 +1 @@\n-c\n+d\n";
    let parsed = parse_unified_diff(diff);
    let got: Vec<(Option<u32>, Option<u32>, LineKind, String)> =
        parsed.iter().map(|l| (l.old, l.new, l.kind, l.text.clone())).collect();
    assert_eq!(
        got,
        vec![
            (Some(1), None, LineKind::Removed, "a".to_string()),
            (None, Some(1), LineKind::Added, "b".to_string()),
            (Some(1), None, LineKind::Removed, "c".to_string()),
            (None, Some(1), LineKind::Added, "d".to_string()),
        ]
    );
}

#[test]
fn only_head_locations_with_both_commits_use_the_diff() {
    let head = Location { file: "f.rs".into(), start_line: 1, end_line: None, side: Side::Head };
    let base = Location { file: "f.rs".into(), start_line: 1, end_line: None, side: Side::Base };
    assert!(uses_diff(&head, "abc", "def"));
    assert!(!uses_diff(&head, "", "def"));
    assert!(!uses_diff(&head, "abc", ""));
    assert!(!uses_diff(&base, "abc", "def"));
}

#[test]
fn hunk_body_skips_markers_and_numbers_unmarked_lines() {
    let lines = parse_unified_diff("@@ -5,3 +7,3 @@\n-a\n\\ No newline at end of file\n+b\n\nc\ndiff --git a/g b/g\n--- a/g\n");
    let got: Vec<(LineKind, Option<u32>, Option<u32>, u32, &str)> =
        lines.iter().map(|l| (l.kind, l.old, l.new, l.at, l.text.as_str())).collect();
    assert_eq!(
        got,
        vec![
            (LineKind::Removed, Some(5), None, 7, "a"),
            (LineKind::Added, None, Some(7), 7, "b"),
            (LineKind::Context, Some(6), Some(8), 8, ""),
            (LineKind::Context, Some(7), Some(9), 9, "c"),
        ]
    );
}
