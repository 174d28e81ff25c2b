use libcrucible::reference::{all_hunks_fit, hunk_fits_exec,
    compare_reference_paths, directory_distance, order_candidates, overlaps_any, parse_diff_ranges,
    parse_hunk_range, ranges_for, reference_rank, symbol_kind_for, LineRange, Symbol, SymbolKind,
};
use std::cmp::Ordering;

fn widget_symbols() -> Vec<Symbol> {
    vec![Symbol {
        name: "widget".to_string(),
        kind: SymbolKind::Struct,
        file: "src/widget.rs".to_string(),
    }]
}

#[test]
fn directory_distance_prefers_nearby_files() {
    assert_eq!(directory_distance("src/a.rs", "src/b.rs"), 0);
    assert_eq!(directory_distance("src/a.rs", "src/nested/b.rs"), 1);
    assert_eq!(directory_distance("src/a.rs", "tests/b.rs"), 2);
}

#[test]
fn reference_sort_prefers_changed_file_and_nearby_paths() {
    let symbols = widget_symbols();
    assert_eq!(
        compare_reference_paths("src/widget.rs", "tests/widget.rs", &symbols),
        Ordering::Less
    );
    assert_eq!(
        compare_reference_paths("src/other.rs", "tests/widget.rs", &symbols),
        Ordering::Less
    );
}

#[test]
fn parse_hunk_range_handles_multi_line_and_zero_length_hunks() {
    let multi = parse_hunk_range("@@ -3,1 +10,4 @@").expect("multi-line hunk");
    assert_eq!(multi.start, 10);
    assert_eq!(multi.end, 13);

    let zero = parse_hunk_range("@@ -3,1 +8,0 @@").expect("zero-length hunk");
    assert_eq!(zero.start, 8);
    assert_eq!(zero.end, 8);
}

#[test]
fn parse_diff_ranges_groups_hunks_by_file() {
    let diff = "diff --git a/src/lib.rs b/src/lib.rs\n--- a/src/lib.rs\n+++ b/src/lib.rs\n@@ -1,1 +5,2 @@\n@@ -10,2 +20,1 @@\ndiff --git a/src/other.rs b/src/other.rs\n--- a/src/other.rs\n+++ b/src/other.rs\n@@ -1,1 +2,3 @@\n";

    let ranges = parse_diff_ranges(diff);
    assert_eq!(ranges.len(), 2);
    let lib = ranges_for(&ranges, "src/lib.rs").expect("lib ranges");
    assert_eq!(lib.len(), 2);
    assert_eq!(lib[0].start, 5);
    assert_eq!(lib[0].end, 6);
    assert_eq!(lib[1].start, 20);
    assert_eq!(lib[1].end, 20);
    let other = ranges_for(&ranges, "src/other.rs").expect("other ranges");
    assert_eq!(other[0].start, 2);
    assert_eq!(other[0].end, 4);
}

#[test]
fn reference_rank_prefers_same_file_then_name_overlap() {
    let symbols = widget_symbols();
    assert_eq!(
        reference_rank("src/widget.rs", &symbols),
        (0, 0, usize::MAX - 1, "src/widget.rs".to_string())
    );
    assert_eq!(
        reference_rank("src/other.rs", &symbols),
        (1, 0, usize::MAX, "src/other.rs".to_string())
    );
}

#[test]
fn parse_hunk_range_defaults_length_and_rejects_garbage() {
    let single = parse_hunk_range("@@ -1 +7 @@").expect("single-line hunk");
    assert_eq!((single.start, single.end), (7, 7));
    assert!(parse_hunk_range("@@ -1,1 @@").is_none());
    assert!(parse_hunk_range("@@ -1,1 +x,2 @@").is_none());
}

#[test]
fn diff_paths_compare_by_components() {
    let diff = "+++ b/src/lib.rs\n@@ -1,1 +5,2 @@\n+++ b/src//lib.rs\n@@ -1,1 +9,1 @@\n@@ -1 +1 @@\n";
    let ranges = parse_diff_ranges(diff);
    assert_eq!(ranges.len(), 1);
    assert_eq!(ranges[0].ranges.len(), 3);
    assert_eq!(ranges[0].file, "src/lib.rs");
}

#[test]
fn directory_distance_counts_root_and_dot_components() {
    assert_eq!(directory_distance("./a/x.rs", "a/y.rs"), 3);
    assert_eq!(directory_distance("/a/x.rs", "/a/b/y.rs"), 1);
    assert_eq!(directory_distance("x.rs", "y.rs"), 0);
}

#[test]
fn symbol_kinds_and_overlaps() {
    assert_eq!(symbol_kind_for("function_item"), Some(SymbolKind::Function));
    assert_eq!(symbol_kind_for("static_item"), Some(SymbolKind::Constant));
    assert_eq!(symbol_kind_for("mod_item"), None);
    let ranges = vec![LineRange { start: 5, end: 6 }];
    assert!(overlaps_any(6, 10, &ranges));
    assert!(overlaps_any(1, 5, &ranges));
    assert!(!overlaps_any(7, 9, &ranges));
}

#[test]
fn candidates_are_ranked_and_truncated() {
    let symbols = widget_symbols();
    let candidates = vec![
        "tests/widget.rs".to_string(),
        "src/other.rs".to_string(),
        "src/widget.rs".to_string(),
    ];
    let ordered = order_candidates(&candidates, &symbols, 2);
    let paths: Vec<&str> = ordered.iter().map(|r| r.path.as_str()).collect();
    assert_eq!(paths, vec!["src/widget.rs", "src/other.rs"]);
}

#[test]
fn hunk_headers_that_overflow_are_caught() {
    assert!(all_hunks_fit("diff --git a/x b/x\n@@ -1,2 +3,4 @@\n+a\n"));
    assert!(all_hunks_fit("no hunks here\n"));
    assert!(!all_hunks_fit("@@ -1 +4294967295,2 @@\n+a\n"));
    assert!(hunk_fits_exec("@@ -1 +4294967295,1 @@"));
    assert!(!hunk_fits_exec("@@ -1 +4294967295,2 @@"));
}
