use std::cell::Cell;

use everyfile::ocr::{
    ocr_reply_result, ocr_request_id, recognize_with_retry, OcrError, OcrErrorCode, OcrReply,
    OcrReplyError,
};
use everyfile::parsing::{
    parse_request_id, parse_with_retry, route_parser_reply, ParseErrorCode, ParsedDocument,
    ParserError, ParserReply, ParserReplyError, ReplyRoute,
};

fn document(text: &str) -> ParsedDocument {
    ParsedDocument {
        title: None,
        markdown: text.to_string(),
        plain_text: text.to_string(),
        blocks: Vec::new(),
        metadata: serde_json::Value::Null,
        warnings: Vec::new(),
    }
}

#[test]
fn parser_replies_go_to_the_request_they_name() {
    let route = route_parser_reply(ParserReply {
        id: Some("parse-1".to_string()),
        ok: true,
        document: Some(document("local")),
        error: None,
    });
    match route {
        ReplyRoute::Complete { id, result } => {
            assert_eq!(id, "parse-1");
            assert_eq!(result.unwrap().plain_text, "local");
        }
        other => panic!("unexpected {other:?}"),
    }
    let route = route_parser_reply(ParserReply {
        id: Some("parse-2".to_string()),
        ok: false,
        document: None,
        error: Some(ParserReplyError { code: ParseErrorCode::Encrypted, message: "locked".to_string() }),
    });
    match route {
        ReplyRoute::Complete { result: Err(ParserError::Protocol { code, message }), .. } => {
            assert_eq!(code, ParseErrorCode::Encrypted);
            assert_eq!(message, "locked");
        }
        other => panic!("unexpected {other:?}"),
    }
    let route = route_parser_reply(ParserReply {
        id: Some("parse-3".to_string()),
        ok: true,
        document: None,
        error: None,
    });
    assert!(matches!(route, ReplyRoute::Complete { result: Err(ParserError::InvalidResponse), .. }));
    let route = route_parser_reply(ParserReply { id: None, ok: true, document: Some(document("x")), error: None });
    assert!(matches!(route, ReplyRoute::FailGeneration(ParserError::InvalidResponse)));
}

#[test]
fn ocr_replies_must_answer_the_request_sent() {
    let (result, stop) = ocr_reply_result(
        "ocr-1",
        OcrReply { id: Some("ocr-1".to_string()), ok: true, document: Some(document("local")), error: None },
    );
    assert!(!stop);
    assert_eq!(result.unwrap().plain_text, "local");
    let (result, stop) = ocr_reply_result(
        "ocr-2",
        OcrReply {
            id: Some("ocr-2".to_string()),
            ok: false,
            document: None,
            error: Some(OcrReplyError { code: OcrErrorCode::ModelMissing, message: "missing".to_string() }),
        },
    );
    assert!(!stop);
    assert!(matches!(result, Err(OcrError::Protocol { code: OcrErrorCode::ModelMissing, .. })));
    let (result, stop) = ocr_reply_result(
        "ocr-3",
        OcrReply { id: Some("ocr-9".to_string()), ok: true, document: Some(document("x")), error: None },
    );
    assert!(stop);
    assert!(matches!(result, Err(OcrError::InvalidResponse)));
}

#[test]
fn request_ids_number_the_requests() {
    assert_eq!(parse_request_id(1), "parse-1");
    assert_eq!(parse_request_id(42), "parse-42");
    assert_eq!(ocr_request_id(7), "ocr-7");
}

#[test]
fn a_sidecar_exit_is_retried_once() {
    let calls = Cell::new(0u32);
    let result = parse_with_retry(&|| {
        calls.set(calls.get() + 1);
        if calls.get() == 1 { Err(ParserError::UnexpectedExit) } else { Ok(5u32) }
    });
    assert_eq!(result, Ok(5));
    assert_eq!(calls.get(), 2);

    let calls = Cell::new(0u32);
    let result: Result<u32, ParserError> = parse_with_retry(&|| {
        calls.set(calls.get() + 1);
        Err(ParserError::UnexpectedExit)
    });
    assert_eq!(result, Err(ParserError::UnexpectedExit));
    assert_eq!(calls.get(), 2);

    let calls = Cell::new(0u32);
    let result: Result<u32, ParserError> = parse_with_retry(&|| {
        calls.set(calls.get() + 1);
        Err(ParserError::Timeout)
    });
    assert_eq!(result, Err(ParserError::Timeout));
    assert_eq!(calls.get(), 1);

    let calls = Cell::new(0u32);
    let result: Result<u32, OcrError> = recognize_with_retry(&|| {
        calls.set(calls.get() + 1);
        if calls.get() == 1 { Err(OcrError::UnexpectedExit) } else { Err(OcrError::Timeout) }
    });
    assert_eq!(result, Err(OcrError::Timeout));
    assert_eq!(calls.get(), 2);
}
