use everyfile::source_open::{
    check_indexed_record, check_layout_source, check_pdf_source, check_resolved_source,
    has_layout_magic, is_redirecting_reparse_tag, layout_kind, shell_path, IndexedRecord,
    LayoutKind, SourceOpenError,
};

#[test]
fn shell_path_removes_extended_prefixes_without_losing_unicode_or_unc() {
    assert_eq!(
        shell_path(r"\\?\C:\My Files\보고서, 최종.pdf"),
        r"C:\My Files\보고서, 최종.pdf"
    );
    assert_eq!(
        shell_path(r"\\?\UNC\server\share\보고서.pdf"),
        r"\\server\share\보고서.pdf"
    );
}

#[test]
fn reparse_policy_rejects_only_name_surrogates() {
    const REPARSE_ATTRIBUTE: u32 = 0x400;
    const SYMLINK: u32 = 0xA000_000C;
    const MOUNT_POINT: u32 = 0xA000_0003;
    const CLOUD: u32 = 0x9000_001A;

    assert!(is_redirecting_reparse_tag(REPARSE_ATTRIBUTE, REPARSE_ATTRIBUTE, SYMLINK));
    assert!(is_redirecting_reparse_tag(REPARSE_ATTRIBUTE, REPARSE_ATTRIBUTE, MOUNT_POINT));
    assert!(!is_redirecting_reparse_tag(REPARSE_ATTRIBUTE, REPARSE_ATTRIBUTE, CLOUD));
    assert!(!is_redirecting_reparse_tag(0, REPARSE_ATTRIBUTE, SYMLINK));
}

#[test]
fn plain_paths_pass_to_the_shell_unchanged() {
    assert_eq!(shell_path(r"C:\docs\a.pdf"), r"C:\docs\a.pdf");
}

fn record(source: &str, root: &str, enabled: bool) -> Option<IndexedRecord> {
    Some(IndexedRecord {
        source_path: source.to_string(),
        root_path: root.to_string(),
        folder_enabled: enabled,
    })
}

#[test]
fn records_are_checked_before_paths_resolve() {
    assert_eq!(check_indexed_record("  ", &record(r"C:\r\a", r"C:\r", true)), Err(SourceOpenError::NotFound));
    assert_eq!(check_indexed_record("doc", &None), Err(SourceOpenError::NotFound));
    assert_eq!(
        check_indexed_record("doc", &record(r"C:\r\a", r"C:\r", false)),
        Err(SourceOpenError::DisabledFolder)
    );
    assert_eq!(
        check_indexed_record("doc", &record(r"C:\rx\a", r"C:\r", true)),
        Err(SourceOpenError::OutsideRegisteredRoot)
    );
    assert_eq!(check_indexed_record("doc", &record(r"C:\r\a", r"C:\r", true)), Ok(()));
    assert_eq!(check_resolved_source(r"C:\r", r"C:\r\a", false), Err(SourceOpenError::NotFile));
    assert_eq!(
        check_resolved_source(r"C:\r", r"D:\a", true),
        Err(SourceOpenError::OutsideRegisteredRoot)
    );
    assert_eq!(check_resolved_source(r"C:\r", r"C:\r\a", true), Ok(()));
}

#[test]
fn previews_need_a_known_kind_size_and_signature() {
    assert_eq!(layout_kind(r"C:\r\A.PDF"), Some(LayoutKind::Pdf));
    assert_eq!(layout_kind(r"C:\r\a.hwpx"), Some(LayoutKind::Hwpx));
    assert_eq!(layout_kind(r"C:\r\a.docx"), None);
    assert_eq!(check_pdf_source(r"C:\r\a.pdf", 10), Ok(()));
    assert_eq!(check_pdf_source(r"C:\r\a.hwp", 10), Err(SourceOpenError::NotPdf));
    assert_eq!(
        check_pdf_source(r"C:\r\a.pdf", 128 * 1024 * 1024 + 1),
        Err(SourceOpenError::TooLarge)
    );
    assert_eq!(check_layout_source(r"C:\r\a.hwp", 10), Ok(LayoutKind::Hwp));
    assert_eq!(check_layout_source(r"C:\r\a.txt", 10), Err(SourceOpenError::NotLayoutPreview));
    assert!(has_layout_magic(LayoutKind::Pdf, b"%PDF-1.7"));
    assert!(!has_layout_magic(LayoutKind::Pdf, b"%PD"));
    assert!(has_layout_magic(LayoutKind::Hwp, &[0xD0, 0xCF, 0x11, 0xE0, 0]));
    assert!(has_layout_magic(LayoutKind::Hwpx, b"PK\x03\x04"));
    assert_eq!(SourceOpenError::TooLarge.code(), "SOURCE_PDF_TOO_LARGE");
}
