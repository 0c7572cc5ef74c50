use everyfile::ocr::{decide, OcrDecision};

#[test]
fn keeps_normal_pdf_text_without_ocr() {
    assert_eq!(
        decide(
            "pdf",
            "이 문서는 정상적인 텍스트 레이어를 충분히 포함하고 있습니다.",
            true,
            true,
            true
        ),
        OcrDecision::UseEmbeddedText
    );
}

#[test]
fn recognizes_all_promised_image_extensions_locally() {
    for extension in ["jpg", "png", "webp", "bmp", "tiff"] {
        assert_eq!(
            decide(extension, "", true, false, false),
            OcrDecision::TextOcr
        );
    }
}

#[test]
fn separates_math_ocr_and_respects_the_master_switch() {
    assert_eq!(decide("pdf", "", true, true, true), OcrDecision::MathOcr);
    assert_eq!(decide("pdf", "", false, true, true), OcrDecision::Disabled);
}

#[test]
fn extension_is_normalized_before_the_decision() {
    assert_eq!(decide("..PNG", "", true, false, false), OcrDecision::TextOcr);
    assert_eq!(decide(".Pdf", "", true, false, false), OcrDecision::TextOcr);
    assert_eq!(decide("docx", "", true, true, true), OcrDecision::Unsupported);
}

#[test]
fn short_pdf_text_falls_back_to_ocr() {
    // 23 alphanumeric characters are one short of the threshold.
    assert_eq!(
        decide("pdf", "abcdefghij klmnopqrst uvw", true, false, false),
        OcrDecision::TextOcr
    );
    assert_eq!(
        decide("pdf", "abcdefghij klmnopqrst uvwx", true, false, false),
        OcrDecision::UseEmbeddedText
    );
}
