use everyfile::models::{SearchMode, SearchRequest, TermMode};
use everyfile::query::ParsedQuery;
use everyfile::search::{validate_request, SearchError};

fn request(mode: SearchMode, term_mode: TermMode, sort: &str) -> SearchRequest {
    SearchRequest {
        request_id: "r1".into(),
        query: String::new(),
        mode,
        folder_ids: vec![],
        extensions: vec![],
        extensionless: false,
        modified_after: None,
        modified_before: None,
        include_filename: true,
        term_mode,
        private_search: false,
        sort: sort.into(),
        limit: 50,
        offset: 0,
    }
}

fn invalid(message: &str) -> Result<(), SearchError> {
    Err(SearchError::InvalidRequest(message.to_string()))
}

#[test]
fn fts_expressions_join_literals() {
    let parsed = ParsedQuery::parse("alpha \"beta gamma\" -delta").unwrap();
    assert_eq!(
        parsed.fts_match_expression(true).unwrap(),
        "\"beta gamma\" AND \"alpha\" NOT \"delta\""
    );
    assert_eq!(
        parsed.fts_match_expression(false).unwrap(),
        "{title body} : (\"beta gamma\" AND \"alpha\") NOT {title body} : \"delta\""
    );
    assert_eq!(parsed.excluded_fts_expressions(true), vec!["\"delta\"".to_string()]);
    assert_eq!(
        parsed.excluded_fts_expressions(false),
        vec!["{title body} : \"delta\"".to_string()]
    );
}

#[test]
fn fts_expressions_for_any_and_near() {
    let any = ParsedQuery::parse("a OR b").unwrap();
    assert_eq!(any.fts_match_expression(true).unwrap(), "(\"a\" OR \"b\")");
    let near = ParsedQuery::parse("a b ~5").unwrap();
    assert_eq!(near.fts_match_expression(true).unwrap(), "NEAR(\"a\" \"b\", 5)");
    let quoted = ParsedQuery::parse("\"a\\\"b\"").unwrap();
    assert_eq!(quoted.phrases, vec!["a\"b".to_string()]);
    assert_eq!(quoted.fts_match_expression(true).unwrap(), "\"a\"\"b\"");
    let only_excluded = ParsedQuery::parse("-x").unwrap();
    assert_eq!(only_excluded.fts_match_expression(true), None);
}

#[test]
fn requests_must_fit_their_queries() {
    let plain = ParsedQuery::parse("a b").unwrap();
    assert_eq!(validate_request(&request(SearchMode::Keyword, TermMode::All, "relevance"), &plain), Ok(()));
    assert_eq!(
        validate_request(&request(SearchMode::Keyword, TermMode::All, "random"), &plain),
        invalid("unsupported search sort")
    );
    let any = ParsedQuery::parse("a OR b").unwrap();
    assert_eq!(
        validate_request(&request(SearchMode::Keyword, TermMode::All, "newest"), &any),
        invalid("explicit OR syntax requires the any term mode")
    );
    let near = ParsedQuery::parse("a b ~3").unwrap();
    assert_eq!(
        validate_request(&request(SearchMode::Keyword, TermMode::All, "newest"), &near),
        invalid("explicit near syntax requires the near term mode")
    );
    let excluded = ParsedQuery::parse("-x").unwrap();
    assert_eq!(
        validate_request(&request(SearchMode::Keyword, TermMode::All, "newest"), &excluded),
        invalid("an exclusion-only query requires the exclude term mode")
    );
    let mut filename = request(SearchMode::Filename, TermMode::All, "name");
    filename.include_filename = false;
    assert_eq!(validate_request(&filename, &plain), invalid("filename mode always includes the filename"));
    assert_eq!(
        validate_request(&request(SearchMode::Filename, TermMode::Near, "name"), &plain),
        invalid("near search is available only in keyword mode")
    );
    assert_eq!(
        validate_request(&request(SearchMode::Filename, TermMode::All, "confidence"), &plain),
        invalid("unsupported search sort")
    );
    let single = ParsedQuery::parse("a").unwrap();
    assert_eq!(
        validate_request(&request(SearchMode::Keyword, TermMode::Near, "newest"), &single),
        invalid("near search requires at least two positive terms or phrases")
    );
    let mut dated = request(SearchMode::Keyword, TermMode::All, "newest");
    dated.modified_after = Some("2024-05-01".into());
    dated.modified_before = Some("2024-04-01".into());
    assert_eq!(
        validate_request(&dated, &plain),
        invalid("modified-after date cannot follow modified-before date")
    );
    dated.modified_before = Some("2024-13-01".into());
    assert!(matches!(validate_request(&dated, &plain), Err(SearchError::InvalidQuery(_))));
    dated.modified_before = Some("2024-06-01".into());
    assert_eq!(validate_request(&dated, &plain), Ok(()));
}

#[test]
fn a_successful_parse_keeps_its_guarantees() {
    let q = ParsedQuery::parse("a OR b ~5 ext:.PDF,Txt path:docs -draft after:2024-01-01 before:2024-12-31").unwrap();
    assert_eq!(q.near, Some(5));
    assert!(q.match_any && q.terms.len() + q.phrases.len() >= 2);
    assert_eq!(q.extensions, vec!["pdf".to_string(), "txt".to_string()]);
    assert!(!q.terms.iter().any(|t| t == "OR" || t.is_empty()));
    assert!(q.after.as_deref() <= q.before.as_deref());
    assert!(ParsedQuery::parse("a ~0").is_err());
    assert!(ParsedQuery::parse("after:2024-12-31 before:2024-01-01").is_err());
}
