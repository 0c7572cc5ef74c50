use everyfile::models::{SearchMode, SearchRequest, TermMode};
use everyfile::query::ParsedQuery;
use everyfile::search::SearchError;
use everyfile::search_sql::build_search_sql;

fn request(query: &str, mode: SearchMode, term_mode: TermMode, sort: &str) -> SearchRequest {
    SearchRequest {
        request_id: "r1".to_string(),
        query: query.to_string(),
        mode,
        folder_ids: Vec::new(),
        extensions: Vec::new(),
        extensionless: false,
        modified_after: None,
        modified_before: None,
        include_filename: true,
        term_mode,
        private_search: false,
        sort: sort.to_string(),
        limit: 20,
        offset: 0,
    }
}

const TAIL: &str = "\n             ";

#[test]
fn keyword_search_uses_the_full_text_index() {
    let req = request("hello", SearchMode::Keyword, TermMode::All, "relevance");
    let parsed = ParsedQuery::parse("hello").unwrap();
    let sql = build_search_sql(&req, &parsed).unwrap();
    assert_eq!(
        sql.count_sql,
        "SELECT COUNT(*) FROM document_fts JOIN documents d ON d.id = document_fts.document_id WHERE document_fts MATCH ?"
    );
    assert_eq!(sql.filter_values, vec!["\"hello\"".to_string()]);
    assert_eq!(sql.applied_filters, vec!["query".to_string()]);
    assert!(sql.hits_sql.starts_with(
        "SELECT d.id, d.file_name, d.canonical_path, d.extension, d.size_bytes,\n                    d.modified_at, snippet(document_fts, -1, '<mark>', '</mark>', '…', 24), bm25(document_fts) AS score, CASE"
    ));
    assert!(sql.hits_sql.ends_with(&format!(
        "{TAIL}FROM document_fts JOIN documents d ON d.id = document_fts.document_id WHERE document_fts MATCH ?{TAIL}ORDER BY score ASC, d.modified_at DESC, d.id ASC{TAIL}LIMIT ?2 OFFSET ?3"
    )));
}

#[test]
fn filename_search_numbers_its_parameters() {
    let mut req = request("report -draft", SearchMode::Filename, TermMode::All, "name");
    req.folder_ids = vec!["f1".to_string(), "f2".to_string()];
    req.extensions = vec![".PDF".to_string()];
    let parsed = ParsedQuery::parse("report -draft").unwrap();
    let sql = build_search_sql(&req, &parsed).unwrap();
    let conditions = "LOWER(d.file_name) LIKE LOWER(?1) ESCAPE '\\' AND LOWER(d.file_name) NOT LIKE LOWER(?) ESCAPE '\\' AND d.folder_id IN (?3, ?4) AND LOWER(d.extension) IN (?5)";
    assert_eq!(sql.count_sql, format!("SELECT COUNT(*) FROM documents d WHERE {conditions}"));
    assert_eq!(
        sql.filter_values,
        vec!["%report%", "%draft%", "f1", "f2", "pdf"]
            .into_iter()
            .map(String::from)
            .collect::<Vec<_>>()
    );
    assert_eq!(sql.applied_filters, vec!["query", "folder", "extension"]);
    assert_eq!(
        sql.hits_sql,
        format!(
            "SELECT d.id, d.file_name, d.canonical_path, d.extension, d.size_bytes,\n                    d.modified_at, NULL, 0.0 AS score, 'filename'{TAIL}FROM documents d WHERE {conditions}{TAIL}ORDER BY d.file_name COLLATE NOCASE ASC, d.id ASC{TAIL}LIMIT ?6 OFFSET ?7"
        )
    );
}

#[test]
fn filename_or_search_accepts_any_term() {
    let req = request("a OR b_", SearchMode::Filename, TermMode::Any, "newest");
    let parsed = ParsedQuery::parse("a OR b_").unwrap();
    let sql = build_search_sql(&req, &parsed).unwrap();
    assert_eq!(
        sql.count_sql,
        "SELECT COUNT(*) FROM documents d WHERE ((LOWER(d.file_name) LIKE LOWER(?1) ESCAPE '\\') OR (LOWER(d.file_name) LIKE LOWER(?2) ESCAPE '\\'))"
    );
    assert_eq!(sql.filter_values, vec!["%a%".to_string(), "%b\\_%".to_string()]);
}

#[test]
fn exact_filename_search_joins_its_terms() {
    let req = request("annual report", SearchMode::Filename, TermMode::Exact, "size");
    let parsed = ParsedQuery::parse("annual report").unwrap();
    let sql = build_search_sql(&req, &parsed).unwrap();
    assert_eq!(sql.filter_values, vec!["%annual report%".to_string()]);
    assert_eq!(
        sql.count_sql,
        "SELECT COUNT(*) FROM documents d WHERE LOWER(d.file_name) LIKE LOWER(?1) ESCAPE '\\'"
    );
}

#[test]
fn exclusion_only_keyword_search_needs_indexed_text() {
    let mut req = request("-draft", SearchMode::Keyword, TermMode::Exclude, "newest");
    req.include_filename = false;
    req.modified_after = Some("2024-01-01".to_string());
    let parsed = ParsedQuery::parse("-draft before:2024-12-31").unwrap();
    let sql = build_search_sql(&req, &parsed).unwrap();
    assert_eq!(
        sql.filter_values,
        vec!["{title body} : \"draft\"", "2024-01-01", "2024-12-31"]
            .into_iter()
            .map(String::from)
            .collect::<Vec<_>>()
    );
    assert_eq!(sql.applied_filters, vec!["query", "contentOnly", "after", "before"]);
    assert!(sql.count_sql.starts_with("SELECT COUNT(*) FROM documents d WHERE NOT EXISTS ("));
    assert!(sql.count_sql.ends_with(
        " AND substr(d.modified_at, 1, 10) >= ?2 AND substr(d.modified_at, 1, 10) <= ?3"
    ));
    assert!(sql.hits_sql.contains("NULL, 0.0 AS score, 'metadata'"));
}

#[test]
fn bad_filters_and_sorts_are_refused() {
    let mut req = request("x", SearchMode::Keyword, TermMode::All, "relevance");
    req.extensions = vec!["p.d.f".to_string()];
    let parsed = ParsedQuery::parse("x").unwrap();
    assert_eq!(
        build_search_sql(&req, &parsed).unwrap_err(),
        SearchError::InvalidQuery("extensions must contain only ASCII letters and numbers".to_string())
    );
    let mut req = request("x", SearchMode::Keyword, TermMode::All, "relevance");
    req.modified_before = Some("2024/01/01".to_string());
    assert_eq!(
        build_search_sql(&req, &parsed).unwrap_err(),
        SearchError::InvalidQuery("dates must use the YYYY-MM-DD format".to_string())
    );
    let req = request("x", SearchMode::Keyword, TermMode::All, "weird");
    assert_eq!(
        build_search_sql(&req, &parsed).unwrap_err(),
        SearchError::InvalidRequest("unsupported search sort".to_string())
    );
    let mut req = request("", SearchMode::Filename, TermMode::All, "oldest");
    req.extensionless = true;
    let empty = ParsedQuery::parse("").unwrap();
    let sql = build_search_sql(&req, &empty).unwrap();
    assert_eq!(sql.count_sql, "SELECT COUNT(*) FROM documents d WHERE TRIM(d.extension) = ''");
    assert_eq!(sql.applied_filters, vec!["extensionless"]);
}
