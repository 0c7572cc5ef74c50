use everyfile::e2e::validate_fixture_folder;

#[test]
fn rejects_paths_outside_the_fixture_root() {
    let outside = "/workspace/everyfile/src-tauri".to_string();
    let error = validate_fixture_folder(
        Ok(outside),
        true,
        Ok("/workspace/everyfile/tests/fixtures".to_string()),
    )
    .expect_err("must reject source root");
    assert!(error.contains("tests/fixtures"));
}

#[test]
fn accepts_a_directory_under_the_fixture_root() {
    let inside = "/workspace/everyfile/tests/fixtures/mixed".to_string();
    assert_eq!(
        validate_fixture_folder(Ok(inside.clone()), true, Ok("/workspace/everyfile/tests/fixtures".to_string())),
        Ok(inside)
    );
    assert_eq!(
        validate_fixture_folder(Err("missing".into()), true, Ok("/r".into())),
        Err("invalid E2E fixture folder: missing".to_string())
    );
    assert_eq!(
        validate_fixture_folder(Ok("/r/x".into()), false, Ok("/r".into())),
        Err("E2E folder must be a directory under tests/fixtures".to_string())
    );
}
