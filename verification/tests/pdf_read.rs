use everyfile::pdf_read::{validate_request_id, PdfReadError, PdfReadRegistry};

#[test]
fn a_new_read_cancels_the_previous_owner_without_affecting_itself() {
    let mut registry = PdfReadRegistry::new();
    let old = registry.begin("pdf-old").unwrap();
    let current = registry.begin("pdf-current").unwrap();

    assert!(registry.is_cancelled(&old));
    assert!(matches!(registry.finish(old, ()), Err(PdfReadError::Cancelled)));
    assert!(!registry.is_cancelled(&current));
    assert!(registry.cancel("pdf-current"));
    assert!(registry.is_cancelled(&current));
}

#[test]
fn request_ids_are_strictly_bounded_ascii_tokens() {
    let mut registry = PdfReadRegistry::new();
    assert!(matches!(registry.begin("../pdf"), Err(PdfReadError::InvalidRequest)));
    assert!(matches!(registry.begin(&"a".repeat(129)), Err(PdfReadError::InvalidRequest)));
    assert!(registry.begin(&"a".repeat(128)).is_ok());
    assert_eq!(validate_request_id("ok_id-1"), Ok(()));
}

#[test]
fn finishing_and_releasing_leases() {
    let mut registry = PdfReadRegistry::new();
    let lease = registry.begin("one").unwrap();
    assert_eq!(lease.request_id(), "one");
    assert_eq!(registry.finish(lease, 7), Ok(7));
    assert!(!registry.cancel("one"));
    let lease = registry.begin("two").unwrap();
    registry.release(lease);
    assert!(!registry.cancel("two"));
    assert_eq!(PdfReadError::Cancelled.code(), "PDF_READ_CANCELLED");
    assert_eq!(PdfReadError::InvalidRequest.code(), "PDF_READ_REQUEST_INVALID");
}
