use rediff::diff::{DiffLineKind, Differ};

fn similarity(a: &str, b: &str) -> f32 {
    let (common, total) = Differ::calculate_similarity(a, b);
    common as f32 / total as f32
}

#[test]
fn test_differ_no_changes() {
  let differ = Differ::new("Hello\nWorld".to_string());
  let diff = differ.compute_diff("Hello\nWorld");
  assert_eq!(diff.len(), 2);
  assert!(diff.iter().all(|line| line.kind == DiffLineKind::Unchanged));
}

#[test]
fn test_differ_added_line() {
  let differ = Differ::new("Hello\nWorld".to_string());
  let diff = differ.compute_diff("Hello\nNew Line\nWorld");
  let added = diff
    .iter()
    .filter(|line| line.kind == DiffLineKind::Added)
    .count();
  assert_eq!(added, 1);
}

#[test]
fn test_differ_removed_line() {
  let differ = Differ::new("Hello\nRemove Me\nWorld".to_string());
  let diff = differ.compute_diff("Hello\nWorld");
  let removed = diff
    .iter()
    .filter(|line| line.kind == DiffLineKind::Removed)
    .count();
  assert_eq!(removed, 1);
}

#[test]
fn test_differ_update_original() {
  let mut differ = Differ::new("Original".to_string());
  differ.update_original("New Original".to_string());
  let diff = differ.compute_diff("New Original");
  assert!(diff.iter().all(|line| line.kind == DiffLineKind::Unchanged));
}

#[test]
fn test_differ_modified_line() {
  let differ = Differ::new("Hello World".to_string());
  let diff = differ.compute_diff("Hello Universe");
  // Should have 2 lines: removed and added as Modified
  assert_eq!(diff.len(), 2);
  assert!(diff.iter().all(|line| line.kind == DiffLineKind::Modified));
}

#[test]
fn test_intra_line_diff() {
  let (old_ranges, new_ranges) = Differ::compute_intra_line_diff("Hello World", "Hello Universe");
  assert!(!old_ranges.is_empty());
  assert!(!new_ranges.is_empty());
}

#[test]
fn test_dissimilar_lines_as_separate_changes() {
  let differ = Differ::new("<div class=\"wrapper\">\n<TheWelcome />".to_string());
  let diff = differ.compute_diff("<HelloWorld msg=\"test\" />\n<adazd />");

  // Should have: 2 removed lines + 2 added lines = 4 lines
  // Find the removed and added lines (ignoring any trailing empty lines)
  let removed_lines: Vec<_> = diff
    .iter()
    .filter(|l| l.kind == DiffLineKind::Removed)
    .collect();
  let added_lines: Vec<_> = diff
    .iter()
    .filter(|l| l.kind == DiffLineKind::Added)
    .collect();

  assert_eq!(removed_lines.len(), 2, "Should have 2 removed lines");
  assert_eq!(added_lines.len(), 2, "Should have 2 added lines");

  // Verify removed lines have no line number
  assert_eq!(removed_lines[0].line_number, 0);
  assert_eq!(removed_lines[1].line_number, 0);

  // Verify added lines have line numbers
  assert_eq!(added_lines[0].line_number, 1);
  assert_eq!(added_lines[1].line_number, 2);

  // Verify order: all removes come before all adds
  let first_remove_idx = diff
    .iter()
    .position(|l| l.kind == DiffLineKind::Removed)
    .unwrap();
  let last_remove_idx = diff
    .iter()
    .rposition(|l| l.kind == DiffLineKind::Removed)
    .unwrap();
  let first_add_idx = diff
    .iter()
    .position(|l| l.kind == DiffLineKind::Added)
    .unwrap();

  assert!(
    last_remove_idx < first_add_idx,
    "All removes should come before adds"
  );
}

#[test]
fn test_similarity_calculation() {
  // Identical lines
  assert_eq!(similarity("hello", "hello"), 1.0);

  // Very similar lines
  let sim = similarity("<div class=\"container\">", "<div class=\"wrapper\">");
  assert!(sim > 0.5, "Similar lines should have > 50% similarity");

  // Very different lines
  let sim = similarity("<main>", "<TheWelcome />");
  assert!(sim < 0.3, "Different lines should have < 30% similarity");
}

#[test]
fn test_mixed_modifications_and_pure_changes() {
  let differ = Differ::new("line1\nold line\nline3\n".to_string());
  let diff = differ.compute_diff("line1\nnew line\nline3\n");

  // Should recognize "old line" -> "new line" as modification (similar)
  let modified_lines: Vec<_> = diff
    .iter()
    .filter(|l| l.kind == DiffLineKind::Modified)
    .collect();
  assert_eq!(modified_lines.len(), 2); // One removed + one added = modification pair
}

#[test]
fn test_order_removes_before_adds() {
  let differ = Differ::new("A\nB\nC\n".to_string());
  let diff = differ.compute_diff("X\nY\nZ\n");

  // All lines are different, should be: 3 removes then 3 adds
  let mut removes_done = false;
  let mut adds_started = false;

  for line in &diff {
    if line.kind == DiffLineKind::Added {
      removes_done = true;
      adds_started = true;
    }
    if line.kind == DiffLineKind::Removed && adds_started {
      panic!("Removed line found after added lines!");
    }
  }

  assert!(
    removes_done,
    "Should have processed all removes before adds"
  );
}

#[test]
fn similarity_fractions() {
    assert_eq!(Differ::calculate_similarity("  abc ", "abd"), (2, 3));
    assert_eq!(Differ::calculate_similarity("", "x"), (0, 1));
    assert_eq!(Differ::calculate_similarity("a", "a \t"), (1, 1));
    assert_eq!(Differ::calculate_similarity("abcd", "xbcdyy"), (3, 6));
}

#[test]
fn intra_line_ranges_are_in_bytes() {
    let (old_ranges, new_ranges) = Differ::compute_intra_line_diff("ab", "aXb");
    assert!(old_ranges.is_empty());
    assert_eq!(new_ranges.len(), 1);
    assert_eq!((new_ranges[0].start, new_ranges[0].end), (1, 2));
    let (old_ranges, new_ranges) = Differ::compute_intra_line_diff("é", "éx");
    assert!(old_ranges.is_empty());
    assert_eq!((new_ranges[0].start, new_ranges[0].end), (2, 3));
}

#[test]
fn trailing_newline_adds_an_unchanged_last_line() {
    let differ = Differ::new(String::new());
    let diff = differ.compute_diff("a\n");
    assert_eq!(diff.len(), 2);
    assert_eq!(diff[0].kind, DiffLineKind::Added);
    assert_eq!(diff[0].line_number, 1);
    assert_eq!(diff[0].content, "a\n");
    assert!(diff[0].is_first_in_group);
    assert_eq!(diff[1].kind, DiffLineKind::Unchanged);
    assert_eq!(diff[1].line_number, 2);
    assert_eq!(diff[1].content, "\n");
}

#[test]
fn paired_group_numbers_added_lines_only() {
    let differ = Differ::new("keep\nold one\nold two\n".to_string());
    let diff = differ.compute_diff("keep\nold 1ne\nold tw0\n");
    let kinds: Vec<DiffLineKind> = diff.iter().map(|l| l.kind.clone()).collect();
    assert_eq!(
        kinds,
        vec![
            DiffLineKind::Unchanged,
            DiffLineKind::Modified,
            DiffLineKind::Modified,
            DiffLineKind::Modified,
            DiffLineKind::Modified,
            DiffLineKind::Unchanged,
        ]
    );
    let numbers: Vec<usize> = diff.iter().map(|l| l.line_number).collect();
    assert_eq!(numbers, vec![1, 0, 2, 0, 3, 4]);
    assert!(diff[1].is_first_in_group);
    assert!(!diff[3].is_first_in_group);
    assert_eq!(diff[1].content, "old one\n");
    assert_eq!(diff[2].content, "old 1ne\n");
    assert!(!diff[1].char_changes.is_empty());
}

#[test]
fn unpaired_group_shows_removes_then_adds() {
    let differ = Differ::new("A\nB\n".to_string());
    let diff = differ.compute_diff("X\n");
    let summary: Vec<(DiffLineKind, usize, bool)> = diff
        .iter()
        .map(|l| (l.kind.clone(), l.line_number, l.is_first_in_group))
        .collect();
    assert_eq!(
        summary,
        vec![
            (DiffLineKind::Removed, 0, true),
            (DiffLineKind::Removed, 0, false),
            (DiffLineKind::Added, 1, true),
            (DiffLineKind::Unchanged, 2, false),
        ]
    );
}
