use everyfile::folders::{folder_display_name, registration_result, FolderError, FolderInsert};

#[test]
fn folders_are_shown_by_their_last_component() {
    assert_eq!(folder_display_name("C:\\Users\\me\\Docs"), "Docs");
    assert_eq!(folder_display_name("C:\\"), "C:\\");
}

#[test]
fn registration_reports_each_outcome() {
    let folder = registration_result(
        "docs",
        Ok(("C:\\Users\\me\\Docs".to_string(), true)),
        "id-1".to_string(),
        FolderInsert::Inserted,
    )
    .unwrap();
    assert_eq!(folder.id, "id-1");
    assert_eq!(folder.canonical_path, "C:\\Users\\me\\Docs");
    assert_eq!(folder.display_name, "Docs");
    assert_eq!(folder.document_count, 0);
    assert_eq!(folder.index_state, "idle");

    let missing = registration_result("docs", Err("not found".to_string()), "id".to_string(), FolderInsert::Inserted);
    assert_eq!(
        missing.unwrap_err(),
        FolderError::InvalidRoot { path: "docs".to_string(), reason: "not found".to_string() }
    );
    let file = registration_result("a.txt", Ok(("C:\\a.txt".to_string(), false)), "id".to_string(), FolderInsert::Inserted);
    assert_eq!(file.unwrap_err().code(), "FOLDER_NOT_DIRECTORY");
    let duplicate = registration_result("d", Ok(("C:\\d".to_string(), true)), "id".to_string(), FolderInsert::Duplicate);
    assert_eq!(duplicate.unwrap_err(), FolderError::AlreadyRegistered("C:\\d".to_string()));
    let failed = registration_result("d", Ok(("C:\\d".to_string(), true)), "id".to_string(), FolderInsert::Failed("busy".to_string()));
    assert_eq!(failed.unwrap_err().code(), "FOLDER_DATABASE_ERROR");
}
