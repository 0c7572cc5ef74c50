use everyfile::export::{
    check_destination, csv_quote, csv_text, match_kind_name, prepare_export, render_csv,
    temporary_name, random_temporary_name, validate_request_format, ExportError, ExportFormat,
    ExportOutcome, ExportRequest, ExportRow,
};
use everyfile::models::SearchMatchKind;

fn row() -> ExportRow {
    ExportRow {
        file_name: "=calc.xlsx".into(),
        path: r"C:\docs\a,b.xlsx".into(),
        extension: "xlsx".into(),
        size_bytes: 1234,
        modified_at: "2024-01-02".into(),
        snippet: Some("say \"hi\"".into()),
        score_text: "0.5".into(),
        match_kind: SearchMatchKind::Both,
    }
}

#[test]
fn csv_cells_are_neutralized_and_quoted() {
    assert_eq!(csv_text("=1+1").into_iter().collect::<String>(), "'=1+1");
    assert_eq!(csv_text("  @x").into_iter().collect::<String>(), "'  @x");
    assert_eq!(csv_text("plain").into_iter().collect::<String>(), "plain");
    let q: Vec<char> = "a\"b,c".chars().collect();
    assert_eq!(csv_quote(&q).into_iter().collect::<String>(), "\"a\"\"b,c\"");
    assert_eq!(match_kind_name(SearchMatchKind::Metadata), "metadata");
}

#[test]
fn csv_has_a_header_and_one_line_per_hit() {
    let text = render_csv(&vec![row()]);
    assert_eq!(
        text,
        "\u{feff}fileName,path,extension,sizeBytes,modifiedAt,excerpt,score,matchKind\r\n'=calc.xlsx,\"C:\\docs\\a,b.xlsx\",xlsx,1234,2024-01-02,\"say \"\"hi\"\"\",0.5,both\r\n"
    );
    assert_eq!(
        render_csv(&vec![]),
        "\u{feff}fileName,path,extension,sizeBytes,modifiedAt,excerpt,score,matchKind\r\n"
    );
}

#[test]
fn destinations_are_checked() {
    assert_eq!(check_destination(r"C:\out\r.csv", ExportFormat::Csv), Ok(()));
    assert_eq!(check_destination(r"C:\out\r.CSV", ExportFormat::Csv), Ok(()));
    assert_eq!(
        check_destination(r"out\r.csv", ExportFormat::Csv),
        Err(ExportError::InvalidDestination("destination must be absolute".into()))
    );
    assert_eq!(
        check_destination(r"C:\out\..\r.csv", ExportFormat::Csv),
        Err(ExportError::InvalidDestination("destination cannot contain parent traversal".into()))
    );
    assert_eq!(
        check_destination("C:\\out\\r\u{1}.csv", ExportFormat::Csv),
        Err(ExportError::InvalidDestination("file name contains control characters".into()))
    );
    assert_eq!(
        check_destination(r"C:\out\r.txt", ExportFormat::Xlsx),
        Err(ExportError::InvalidExtension { expected: "xlsx".into() })
    );
    let results = ExportRequest::SearchResults { rows: vec![] };
    let markdown = ExportRequest::MarkdownDocument { file_name: "a".into(), markdown: "# a".into() };
    assert_eq!(validate_request_format(&results, ExportFormat::Markdown), Err(ExportError::RequestFormatMismatch));
    assert_eq!(validate_request_format(&markdown, ExportFormat::Markdown), Ok(()));
    assert_eq!(prepare_export(&results, ExportFormat::Csv, None), Ok(ExportOutcome::Cancelled));
    assert_eq!(prepare_export(&results, ExportFormat::Csv, Some(r"C:\o\x.csv")), Ok(ExportOutcome::Written));
    assert_eq!(ExportFormat::Markdown.extension(), "md");
    assert_eq!(ExportError::TooManyRows.code(), "EXPORT_TOO_LARGE");
}

#[test]
fn temporary_names_carry_sixteen_hex_digits() {
    assert_eq!(temporary_name("r.csv", 0xabc), ".r.csv.0000000000000abc.tmp");
    assert_eq!(temporary_name("r.csv", u64::MAX), ".r.csv.ffffffffffffffff.tmp");
    let name = random_temporary_name("r.csv");
    assert!(name.starts_with(".r.csv.") && name.ends_with(".tmp"));
    assert_eq!(name.len(), ".r.csv.".len() + 16 + 4);
}

#[test]
fn a_bad_destination_is_refused_with_its_reason() {
    let results = ExportRequest::SearchResults { rows: vec![] };
    assert_eq!(
        prepare_export(&results, ExportFormat::Csv, Some("relative.csv")),
        Err(ExportError::InvalidDestination("destination must be absolute".into()))
    );
    assert_eq!(
        prepare_export(&results, ExportFormat::Csv, Some(r"C:\o\..\x.csv")),
        Err(ExportError::InvalidDestination("destination cannot contain parent traversal".into()))
    );
    assert_eq!(
        prepare_export(&results, ExportFormat::Csv, Some(r"C:\o\x.xlsx")),
        Err(ExportError::InvalidExtension { expected: "csv".into() })
    );
    assert_eq!(prepare_export(&results, ExportFormat::Csv, Some(r"C:\o\x.CSV")), Ok(ExportOutcome::Written));
}
