use everyfile::library::{LibraryError, PreviewBudget};
use everyfile::preview::{
    check_stored_sizes, normalize_block, normalize_blocks, normalize_table, normalize_warnings,
    JsonValue,
};

fn s(text: &str) -> JsonValue {
    JsonValue::Str(text.to_string())
}

fn obj(members: Vec<(&str, JsonValue)>) -> JsonValue {
    JsonValue::Object(members.into_iter().map(|(k, v)| (k.to_string(), v)).collect())
}

#[test]
fn blocks_keep_known_shapes_and_safe_links() {
    let value = JsonValue::Array(vec![
        obj(vec![
            ("type", s("heading")),
            ("text", s("Title")),
            ("level", JsonValue::Number(Some(9))),
            ("pageNumber", JsonValue::Number(Some(0))),
            ("href", s("javascript:alert(1)")),
        ]),
        obj(vec![("type", s("script")), ("text", s("x"))]),
        s("not an object"),
        obj(vec![
            ("type", s("list")),
            ("listType", s("ordered")),
            ("href", s(" https://example.com ")),
            (
                "children",
                JsonValue::Array(vec![obj(vec![("type", s("paragraph")), ("text", s("item"))])]),
            ),
        ]),
    ]);
    let mut budget = PreviewBudget::new();
    let blocks = normalize_blocks(&value, &mut budget).unwrap();
    assert_eq!(blocks.len(), 2);
    assert_eq!(blocks[0].kind, "heading");
    assert_eq!(blocks[0].text, "Title");
    assert_eq!(blocks[0].level, Some(6));
    assert_eq!(blocks[0].page_number, None);
    assert_eq!(blocks[0].href, None);
    assert_eq!(blocks[1].list_type, Some("ordered".to_string()));
    assert_eq!(blocks[1].href, Some("https://example.com".to_string()));
    assert_eq!(blocks[1].children.len(), 1);
    assert_eq!(blocks[1].children[0].text, "item");
    assert!(!budget.truncated);
    assert_eq!(budget.remaining_nodes, 20_000 - 5);
    assert!(matches!(
        normalize_blocks(&s("x"), &mut budget),
        Err(LibraryError::InvalidPreviewData)
    ));
}

#[test]
fn the_budget_cuts_text_and_nodes() {
    let mut budget = PreviewBudget::new();
    budget.remaining_chars = 3;
    let block = normalize_block(&obj(vec![("type", s("paragraph")), ("text", s("abcdef"))]), 0, &mut budget)
        .unwrap();
    assert_eq!(block.text, "abc");
    assert!(budget.truncated);
    let mut budget = PreviewBudget::new();
    budget.remaining_nodes = 1;
    let value = JsonValue::Array(vec![
        obj(vec![("type", s("paragraph")), ("text", s("a"))]),
        obj(vec![("type", s("paragraph")), ("text", s("b"))]),
    ]);
    let blocks = normalize_blocks(&value, &mut budget).unwrap();
    assert_eq!(blocks.len(), 1);
    assert!(budget.truncated);
    let mut budget = PreviewBudget::new();
    assert!(normalize_block(&obj(vec![("type", s("paragraph"))]), 17, &mut budget).is_none());
    assert!(budget.truncated);
}

#[test]
fn tables_are_bounded() {
    let cell = |text: &str, span: u64| {
        obj(vec![("text", s(text)), ("colSpan", JsonValue::Number(Some(span)))])
    };
    let value = obj(vec![
        (
            "cells",
            JsonValue::Array(vec![
                JsonValue::Array(vec![cell("a", 0), cell("b", 500), JsonValue::Null]),
                s("skip"),
                JsonValue::Array(vec![cell("c", 2)]),
            ]),
        ),
        ("hasHeader", JsonValue::Bool(true)),
    ]);
    let mut budget = PreviewBudget::new();
    let table = normalize_table(&value, &mut budget).unwrap();
    assert_eq!(table.rows, 2);
    assert_eq!(table.cols, 2);
    assert!(table.has_header);
    assert_eq!(table.cells[0][0].col_span, 1);
    assert_eq!(table.cells[0][1].col_span, 200);
    assert_eq!(table.cells[1][0].text, "c");
    assert!(budget.truncated);
    assert!(normalize_table(&s("x"), &mut budget).is_none());
}

#[test]
fn warnings_need_a_code_and_a_message() {
    let value = JsonValue::Array(vec![
        obj(vec![("code", s("W1")), ("message", s("m")), ("page", JsonValue::Number(Some(3)))]),
        obj(vec![("code", s("W2"))]),
    ]);
    let mut budget = PreviewBudget::new();
    let warnings = normalize_warnings(&value, &mut budget).unwrap();
    assert_eq!(warnings.len(), 1);
    assert_eq!(warnings[0].code, "W1");
    assert_eq!(warnings[0].page, Some(3));
    assert!(budget.truncated);
    assert!(matches!(normalize_warnings(&JsonValue::Null, &mut budget), Err(LibraryError::InvalidPreviewData)));
}

#[test]
fn stored_previews_have_size_limits() {
    assert_eq!(check_stored_sizes(1, 2, 3), Ok(()));
    assert_eq!(check_stored_sizes(8 * 1024 * 1024 + 1, 0, 0), Err(LibraryError::PreviewTooLarge));
    assert_eq!(
        check_stored_sizes(6 * 1024 * 1024, 6 * 1024 * 1024, 1),
        Err(LibraryError::PreviewTooLarge)
    );
}
