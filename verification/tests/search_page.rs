use everyfile::models::{SearchMatchKind, SearchMode, SearchRequest, TermMode};
use everyfile::query::ParsedQuery;
use everyfile::search::SearchError;
use everyfile::search_sql::{
    history_filters, match_kind_of, page_limit, search_page, stored_count, stored_size, SearchPage,
};

fn request(limit: u32, offset: u32, private_search: bool) -> SearchRequest {
    SearchRequest {
        request_id: "req-1".to_string(),
        query: "hello".to_string(),
        mode: SearchMode::Keyword,
        folder_ids: Vec::new(),
        extensions: Vec::new(),
        extensionless: false,
        modified_after: None,
        modified_before: None,
        include_filename: true,
        term_mode: TermMode::All,
        private_search,
        sort: "relevance".to_string(),
        limit,
        offset,
    }
}

#[test]
fn a_lease_of_another_request_is_refused() {
    let parsed = ParsedQuery::parse("hello").unwrap();
    assert_eq!(
        search_page(&request(20, 0, false), "req-2", &parsed, 5, 5),
        Err(SearchError::InvalidRequest("search lease does not belong to this request".to_string()))
    );
}

#[test]
fn page_sizes_default_and_are_capped() {
    assert_eq!(page_limit(0), 100);
    assert_eq!(page_limit(20), 20);
    assert_eq!(page_limit(200), 200);
    assert_eq!(page_limit(500), 200);
}

#[test]
fn more_results_remain_while_offset_and_hits_fall_short_of_the_total() {
    let parsed = ParsedQuery::parse("hello").unwrap();
    let page = search_page(&request(0, 0, false), "req-1", &parsed, 250, 100).unwrap();
    assert_eq!(page, SearchPage { limit: 100, total: 250, has_more: true, records_history: true });
    let last = search_page(&request(100, 200, false), "req-1", &parsed, 250, 50).unwrap();
    assert_eq!(last, SearchPage { limit: 100, total: 250, has_more: false, records_history: false });
    let negative = search_page(&request(10, 0, false), "req-1", &parsed, -3, 0).unwrap();
    assert_eq!(negative.total, 0);
    assert!(!negative.has_more);
}

#[test]
fn only_first_pages_of_normal_searches_with_a_query_are_remembered() {
    let parsed = ParsedQuery::parse("hello").unwrap();
    assert!(!search_page(&request(10, 0, true), "req-1", &parsed, 1, 1).unwrap().records_history);
    assert!(!search_page(&request(10, 10, false), "req-1", &parsed, 20, 10).unwrap().records_history);
    let empty = ParsedQuery::parse("").unwrap();
    assert!(!search_page(&request(10, 0, false), "req-1", &empty, 0, 0).unwrap().records_history);
    assert!(search_page(&request(10, 0, false), "req-1", &parsed, 0, 0).unwrap().records_history);
}

#[test]
fn hit_rows_are_read_as_match_kinds_and_sizes() {
    assert_eq!(match_kind_of("filename"), SearchMatchKind::Filename);
    assert_eq!(match_kind_of("content"), SearchMatchKind::Content);
    assert_eq!(match_kind_of("both"), SearchMatchKind::Both);
    assert_eq!(match_kind_of("other"), SearchMatchKind::Metadata);
    assert_eq!(stored_size(-1), 0);
    assert_eq!(stored_size(42), 42);
}

#[test]
fn history_filters_take_dates_from_the_request_first() {
    let mut req = request(10, 0, false);
    req.folder_ids = vec!["f1".to_string()];
    req.modified_before = Some("2024-06-30".to_string());
    req.term_mode = TermMode::Near;
    let parsed = ParsedQuery::parse("a b ext:pdf path:docs after:2024-01-01 before:2024-12-31").unwrap();
    let filters = history_filters(&req, &parsed);
    assert_eq!(filters.folder_ids, vec!["f1".to_string()]);
    assert_eq!(filters.parsed_extensions, vec!["pdf".to_string()]);
    assert_eq!(filters.path_terms, vec!["docs".to_string()]);
    assert_eq!(filters.modified_after.as_deref(), Some("2024-01-01"));
    assert_eq!(filters.modified_before.as_deref(), Some("2024-06-30"));
    assert_eq!(filters.term_mode, "near");
    assert_eq!(filters.sort, "relevance");
    assert!(filters.include_filename);
    assert_eq!(stored_count(5), 5);
    assert_eq!(stored_count(u64::MAX), i64::MAX);
}
