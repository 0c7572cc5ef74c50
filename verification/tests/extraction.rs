use std::cell::Cell;

use everyfile::indexing::{extract_document, ExtractionError, RuntimeIndexSettings};
use everyfile::ocr::{OcrError, OcrMode};
use everyfile::parsing::{ParseErrorCode, ParsedDocument, ParserError};

fn settings(ocr: bool, math: bool) -> RuntimeIndexSettings {
    RuntimeIndexSettings {
        max_file_size_bytes: 1 << 20,
        excluded_path_patterns: Vec::new(),
        indexing_intensity: "balanced".to_string(),
        ocr_enabled: ocr,
        math_ocr_enabled: math,
    }
}

fn document(text: &str) -> ParsedDocument {
    ParsedDocument {
        title: None,
        markdown: text.to_string(),
        plain_text: text.to_string(),
        blocks: Vec::new(),
        metadata: serde_json::Value::Null,
        warnings: Vec::new(),
    }
}

const LONG_TEXT: &str = "This PDF has plenty of embedded text to keep without OCR.";

#[test]
fn images_go_straight_to_ocr() {
    let parsed = Cell::new(false);
    let mode = Cell::new(None);
    let result = extract_document(
        &|| {
            parsed.set(true);
            Ok(document("never"))
        },
        &|m: OcrMode| {
            mode.set(Some(m));
            Ok(document("scanned"))
        },
        true,
        "C:\\scans\\page.PNG",
        &settings(true, true),
    );
    assert_eq!(result.unwrap().plain_text, "scanned");
    assert!(!parsed.get());
    assert_eq!(mode.get(), Some(OcrMode::Text));
}

#[test]
fn text_pdfs_keep_their_text_and_thin_ones_get_ocr() {
    let result = extract_document(
        &|| Ok(document(LONG_TEXT)),
        &|_m: OcrMode| Ok(document("ocr")),
        true,
        "C:\\docs\\a.pdf",
        &settings(true, false),
    );
    assert_eq!(result.unwrap().plain_text, LONG_TEXT);
    let mode = Cell::new(None);
    let result = extract_document(
        &|| Ok(document("x")),
        &|m: OcrMode| {
            mode.set(Some(m));
            Ok(document("ocr"))
        },
        true,
        "C:\\docs\\a.pdf",
        &settings(true, true),
    );
    assert_eq!(result.unwrap().plain_text, "ocr");
    assert_eq!(mode.get(), Some(OcrMode::Math));
}

#[test]
fn image_based_pdfs_fall_back_to_ocr_only_when_enabled() {
    let image_based = || {
        Err(ParserError::Protocol { code: ParseErrorCode::ImageBasedPdf, message: "scan".to_string() })
    };
    let result = extract_document(&image_based, &|_m: OcrMode| Ok(document("ocr")), true, "C:\\a.pdf", &settings(true, false));
    assert_eq!(result.unwrap().plain_text, "ocr");
    let result = extract_document(&image_based, &|_m: OcrMode| Ok(document("ocr")), true, "C:\\a.pdf", &settings(false, false));
    assert!(matches!(result, Err(ExtractionError::Parser(ParserError::Protocol { code: ParseErrorCode::ImageBasedPdf, .. }))));
}

#[test]
fn ocr_failures_and_a_missing_engine_are_reported() {
    let result = extract_document(
        &|| Ok(document("never")),
        &|_m: OcrMode| Ok(document("never")),
        false,
        "C:\\a.jpg",
        &settings(true, false),
    );
    assert_eq!(result.unwrap_err(), ExtractionError::OcrUnavailable);
    let result = extract_document(
        &|| Ok(document("never")),
        &|_m: OcrMode| Err(OcrError::Timeout),
        true,
        "C:\\a.jpg",
        &settings(true, false),
    );
    assert_eq!(result.unwrap_err(), ExtractionError::Ocr(OcrError::Timeout));
    let result = extract_document(
        &|| Err(ParserError::Timeout),
        &|_m: OcrMode| Ok(document("never")),
        true,
        "C:\\a.docx",
        &settings(true, false),
    );
    assert_eq!(result.unwrap_err(), ExtractionError::Parser(ParserError::Timeout));
    let result = extract_document(
        &|| Ok(document("word text")),
        &|_m: OcrMode| Ok(document("never")),
        true,
        "C:\\a.docx",
        &settings(true, false),
    );
    assert_eq!(result.unwrap().plain_text, "word text");
}
