use typo_fixer_cli::typo_fixer::split_nonblank_lines;

#[test]
fn test_batch_skips_blank_middle_line() {
    // "line1\n\nline2": only two items, in order
    let items = split_nonblank_lines("line1\n\nline2");
    assert_eq!(items, vec!["line1".to_string(), "line2".to_string()]);
}

#[test]
fn test_batch_lines_keep_order_and_content() {
    let items = split_nonblank_lines("first\nsecond\nthird");
    assert_eq!(
        items,
        vec![
            "first".to_string(),
            "second".to_string(),
            "third".to_string()
        ]
    );
}

#[test]
fn test_batch_whitespace_only_lines_skipped() {
    let items = split_nonblank_lines("  \na line\n\t\nanother  \n   ");
    // lines that trim to nothing go; kept lines stay untrimmed
    assert_eq!(items, vec!["a line".to_string(), "another  ".to_string()]);
}

#[test]
fn test_batch_empty_input_has_no_items() {
    let items = split_nonblank_lines("");
    assert!(items.is_empty());
    let items = split_nonblank_lines("\n\n\n");
    assert!(items.is_empty());
}

#[test]
fn test_batch_trailing_newline_adds_no_item() {
    let items = split_nonblank_lines("one\ntwo\n");
    assert_eq!(items, vec!["one".to_string(), "two".to_string()]);
}

#[test]
fn test_batch_carriage_returns_stripped() {
    let items = split_nonblank_lines("one\r\ntwo\r\n");
    assert_eq!(items, vec!["one".to_string(), "two".to_string()]);
}
