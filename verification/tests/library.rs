use everyfile::library::{check_tags_found, dedup_tag_ids};
use everyfile::library::{
    bookmark_note, bounded_text, new_tag_id, safe_href, validate_document_id, validate_tag_color,
    validate_tag_count, validate_tag_name, LibraryError, PreviewBudget,
};

#[test]
fn document_ids_and_tags() {
    assert_eq!(validate_document_id("doc-1"), Ok(()));
    assert_eq!(validate_document_id("   "), Err(LibraryError::DocumentNotFound));
    assert_eq!(validate_document_id(&"가".repeat(86)), Err(LibraryError::DocumentNotFound));
    assert_eq!(validate_document_id(&"가".repeat(85)), Ok(()));
    assert_eq!(validate_tag_name("  work  "), Ok("work".to_string()));
    assert_eq!(validate_tag_name(""), Err(LibraryError::InvalidTagName));
    assert_eq!(validate_tag_name(&"a".repeat(65)), Err(LibraryError::InvalidTagName));
    assert_eq!(validate_tag_name("a\u{7}b"), Err(LibraryError::InvalidTagName));
    assert_eq!(validate_tag_color("slate"), Ok(()));
    assert_eq!(validate_tag_color("Slate"), Err(LibraryError::InvalidTagColor));
    assert_eq!(validate_tag_count(100), Ok(()));
    assert_eq!(validate_tag_count(101), Err(LibraryError::TooManyTags));
    let id = new_tag_id();
    assert!(id.starts_with("tag-"));
    assert_eq!(id.len(), 36);
    assert!(id[4..].chars().all(|c| c.is_ascii_digit() || ('a'..='f').contains(&c)));
    assert_eq!(LibraryError::TagNotFound.code(), "TAG_NOT_FOUND");
}

#[test]
fn links_and_text_are_bounded() {
    assert_eq!(safe_href("  HTTPS://example.com/x "), Some("HTTPS://example.com/x".to_string()));
    assert_eq!(safe_href("mailto:a@b.c"), Some("mailto:a@b.c".to_string()));
    assert_eq!(safe_href("javascript:alert(1)"), None);
    assert_eq!(safe_href("no-scheme"), None);
    assert_eq!(safe_href("http://a\nb"), None);
    assert_eq!(safe_href("   "), None);
    assert_eq!(bounded_text(&"x".repeat(2_000_001)).len(), 2_000_000);
    assert_eq!(bookmark_note("  note  "), "note");
}

#[test]
fn the_budget_counts_nodes_and_characters() {
    let mut budget = PreviewBudget::new();
    budget.remaining_nodes = 1;
    budget.remaining_chars = 3;
    assert!(budget.consume_node());
    assert!(!budget.truncated);
    assert!(!budget.consume_node());
    assert!(budget.truncated);
    let mut budget = PreviewBudget::new();
    budget.remaining_chars = 3;
    assert_eq!(budget.take_text("ab"), "ab");
    assert!(!budget.truncated);
    assert_eq!(budget.take_text("cde"), "c");
    assert!(budget.truncated);
    assert!(budget.exhausted());
}

#[test]
fn tag_ids_are_sorted_and_unique() {
    let ids: Vec<String> = ["tag-b", "tag-a", "tag-b", "tag-c", "tag-a"]
        .iter()
        .map(|s| s.to_string())
        .collect();
    assert_eq!(
        dedup_tag_ids(&ids),
        vec!["tag-a".to_string(), "tag-b".to_string(), "tag-c".to_string()]
    );
    assert_eq!(dedup_tag_ids(&vec![]), Vec::<String>::new());
    assert_eq!(check_tags_found(3, 3), Ok(()));
    assert_eq!(check_tags_found(2, 3), Err(LibraryError::TagNotFound));
    assert_eq!(check_tags_found(-1, 3), Err(LibraryError::TagNotFound));
}
