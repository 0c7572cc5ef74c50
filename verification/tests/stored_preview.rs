use everyfile::library::LibraryError;
use everyfile::preview::preview_content;

#[test]
fn stored_json_is_read_into_values() {
    let content = preview_content(
        "",
        r#"[{"type":"list","text":"","listType":"ordered","children":[{"type":"paragraph","text":"one"}]}, 7, "x", null]"#,
        r#"[{"code":"A","message":"m","page":-1}, {"code":"B"}]"#,
    )
    .unwrap();
    assert_eq!(content.warnings.len(), 1);
    assert_eq!(content.warnings[0].page, None);
    assert!(content.truncated);
}

#[test]
fn a_stored_preview_is_read_back_within_its_budget() {
    let content = preview_content(
        "# Title",
        r#"[{"type":"heading","text":"Title","level":1}]"#,
        r#"[{"code":"OCR","message":"page 2 was recognized","page":2}]"#,
    )
    .unwrap();
    assert_eq!(content.markdown, "# Title");
    assert_eq!(content.blocks.len(), 1);
    assert_eq!(content.warnings.len(), 1);
    assert_eq!(content.warnings[0].page, Some(2));
    assert!(!content.truncated);
}

#[test]
fn stored_previews_that_are_not_arrays_or_not_json_are_invalid() {
    assert!(matches!(preview_content("", "{}", "[]"), Err(LibraryError::InvalidPreviewData)));
    assert!(matches!(preview_content("", "[]", "nope"), Err(LibraryError::InvalidPreviewData)));
    assert!(matches!(preview_content("", "[", "[]"), Err(LibraryError::InvalidPreviewData)));
}

#[test]
fn oversized_stored_previews_are_refused() {
    let big = "a".repeat(8 * 1024 * 1024 + 1);
    assert!(matches!(preview_content(&big, "[]", "[]"), Err(LibraryError::PreviewTooLarge)));
    let six = "a".repeat(6 * 1024 * 1024);
    assert!(matches!(preview_content(&six, &six, "[]"), Err(LibraryError::PreviewTooLarge)));
}
