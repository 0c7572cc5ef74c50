use everyfile::search::SearchError;
use everyfile::search_registry::SearchRegistry;

#[test]
fn a_new_search_cancels_the_previous_one() {
    let mut registry = SearchRegistry::new();
    let first = registry.begin("first").unwrap();
    assert!(registry.ensure_current(&first).is_ok());
    let second = registry.begin("second").unwrap();
    assert_eq!(registry.ensure_current(&first), Err(SearchError::Cancelled));
    assert!(registry.ensure_current(&second).is_ok());
    assert!(!registry.take_interrupt());
    assert_eq!(registry.finish(first, || Ok(1)), Err(SearchError::Cancelled));
    assert!(registry.ensure_current(&second).is_ok());
    assert_eq!(registry.finish(second, || Ok(2)), Ok(2));
}

#[test]
fn superseding_a_running_search_interrupts_its_statement() {
    let mut registry = SearchRegistry::new();
    let first = registry.begin("first").unwrap();
    registry.begin_execution(&first).unwrap();
    let _second = registry.begin("second").unwrap();
    assert!(registry.take_interrupt());
    assert!(!registry.take_interrupt());
    assert_eq!(registry.begin_execution(&first), Err(SearchError::Cancelled));
}

#[test]
fn cancelling_by_identifier() {
    let mut registry = SearchRegistry::new();
    let lease = registry.begin("query-1").unwrap();
    assert!(!registry.cancel("other"));
    registry.begin_execution(&lease).unwrap();
    assert!(registry.cancel("query-1"));
    assert!(registry.take_interrupt());
    assert_eq!(registry.ensure_current(&lease), Err(SearchError::Cancelled));
    registry.end_execution(&lease);
    registry.release(lease);
    assert!(!registry.cancel("query-1"));
}

#[test]
fn request_identifiers_are_checked_and_unique() {
    let mut registry = SearchRegistry::new();
    assert!(matches!(registry.begin(""), Err(SearchError::InvalidRequest(_))));
    assert!(matches!(registry.begin("bad id"), Err(SearchError::InvalidRequest(_))));
    let _lease = registry.begin("same").unwrap();
    match registry.begin("same") {
        Err(SearchError::InvalidRequest(message)) => {
            assert_eq!(message, "search request identifier is already active")
        }
        _ => panic!("a second search with an active identifier must be refused"),
    }
}

#[test]
fn a_failed_commit_still_ends_the_search() {
    let mut registry = SearchRegistry::new();
    let lease = registry.begin("q").unwrap();
    let result: Result<u32, SearchError> =
        registry.finish(lease, || Err(SearchError::Database("disk".to_string())));
    assert_eq!(result, Err(SearchError::Database("disk".to_string())));
    assert!(!registry.cancel("q"));
}
