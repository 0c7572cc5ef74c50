//! Local OCR: when a document needs it, and the vocabulary of the OCR sidecar.
use vstd::prelude::*;

use crate::parsing::ParsedDocument;
use crate::retrieval::{decimal, decimal_exec};
use crate::text::{
    extend_chars, string_from_chars,
    ascii_lower_chars, ascii_lower_seq, chars_of, eq_chars, is_alphanumeric, trim_start_char,
    trim_start_matching, unicode_alphanumeric,
};

verus! {

broadcast use vstd::string::group_string_axioms;

pub const MIN_MEANINGFUL_TEXT_CHARS: usize = 24;

#[derive(Debug, Clone, Copy, PartialEq, Eq, Structural)]
pub enum OcrDecision {
    Disabled,
    UseEmbeddedText,
    TextOcr,
    MathOcr,
    Unsupported,
}

/// The image formats that local OCR reads.
pub open spec fn is_image_extension(e: Seq<char>) -> bool {
    ||| e == "jpg"@
    ||| e == "jpeg"@
    ||| e == "png"@
    ||| e == "webp"@
    ||| e == "bmp"@
    ||| e == "tif"@
    ||| e == "tiff"@
}

/// An extension as the OCR policy compares it: leading dots removed, ASCII lower-cased.
pub open spec fn normalized_extension(extension: Seq<char>) -> Seq<char> {
    ascii_lower_seq(trim_start_char(extension, '.'))
}

/// The number of alphanumeric characters of `s`.
pub open spec fn alphanumeric_count(s: Seq<char>) -> nat
    decreases s.len(),
{
    if s.len() == 0 {
        0
    } else {
        alphanumeric_count(s.drop_last()) + if unicode_alphanumeric(s.last()) {
            1nat
        } else {
            0nat
        }
    }
}

/// The alphanumeric characters of `s`, counted up to the threshold.
pub open spec fn spec_meaningful_text_chars(s: Seq<char>) -> nat {
    if alphanumeric_count(s) < MIN_MEANINGFUL_TEXT_CHARS {
        alphanumeric_count(s)
    } else {
        MIN_MEANINGFUL_TEXT_CHARS as nat
    }
}

/// Which text source a document with this extension and extracted text uses.
pub open spec fn spec_decide(
    extension: Seq<char>,
    extracted_text: Seq<char>,
    ocr_enabled: bool,
    math_ocr_enabled: bool,
    has_math_hint: bool,
) -> OcrDecision {
    let extension = normalized_extension(extension);
    if !ocr_enabled {
        OcrDecision::Disabled
    } else if is_image_extension(extension) {
        OcrDecision::TextOcr
    } else if extension != "pdf"@ {
        OcrDecision::Unsupported
    } else if spec_meaningful_text_chars(extracted_text) >= MIN_MEANINGFUL_TEXT_CHARS {
        OcrDecision::UseEmbeddedText
    } else if math_ocr_enabled && has_math_hint {
        OcrDecision::MathOcr
    } else {
        OcrDecision::TextOcr
    }
}

/// Whether the characters spell the given literal.
pub fn eq_literal(s: &[char], literal: &str) -> (r: bool)
    ensures
        r == (s@ == literal@),
{
    let lit = chars_of(literal);
    eq_chars(s, lit.as_slice())
}

pub fn is_image_extension_exec(e: &[char]) -> (r: bool)
    ensures
        r == is_image_extension(e@),
{
    eq_literal(e, "jpg") || eq_literal(e, "jpeg") || eq_literal(e, "png") || eq_literal(e, "webp")
        || eq_literal(e, "bmp") || eq_literal(e, "tif") || eq_literal(e, "tiff")
}

proof fn lemma_alphanumeric_count_prefix(s: Seq<char>, i: int)
    requires
        0 <= i <= s.len(),
    ensures
        alphanumeric_count(s.take(i)) <= alphanumeric_count(s),
    decreases s.len() - i,
{
    if i < s.len() {
        assert(s.take(i + 1).drop_last() =~= s.take(i));
        lemma_alphanumeric_count_prefix(s, i + 1);
    } else {
        assert(s.take(i) =~= s);
    }
}

/// Counts alphanumeric characters, stopping at the threshold.
pub fn meaningful_text_chars(text: &str) -> (n: usize)
    ensures
        n == spec_meaningful_text_chars(text@),
{
    let chars = chars_of(text);
    let mut count: usize = 0;
    let mut i: usize = 0;
    while i < chars.len() && count < MIN_MEANINGFUL_TEXT_CHARS
        invariant
            i <= chars@.len(),
            count <= MIN_MEANINGFUL_TEXT_CHARS,
            count == alphanumeric_count(chars@.take(i as int)),
        decreases chars@.len() - i,
    {
        if is_alphanumeric(chars[i]) {
            count += 1;
        }
        i += 1;
        assert(chars@.take(i as int).drop_last() =~= chars@.take(i - 1));
    }
    proof {
        lemma_alphanumeric_count_prefix(chars@, i as int);
        if i == chars.len() {
            assert(chars@.take(i as int) =~= chars@);
        }
    }
    count
}

/// Decides whether a document is read from its text layer or by OCR.
pub fn decide(
    extension: &str,
    extracted_text: &str,
    ocr_enabled: bool,
    math_ocr_enabled: bool,
    has_math_hint: bool,
) -> (r: OcrDecision)
    ensures
        r == spec_decide(extension@, extracted_text@, ocr_enabled, math_ocr_enabled, has_math_hint),
{
    if !ocr_enabled {
        return OcrDecision::Disabled;
    }
    let raw = chars_of(extension);
    let trimmed = trim_start_matching(raw.as_slice(), '.');
    let extension = ascii_lower_chars(trimmed.as_slice());
    if is_image_extension_exec(extension.as_slice()) {
        return OcrDecision::TextOcr;
    }
    if !eq_literal(extension.as_slice(), "pdf") {
        return OcrDecision::Unsupported;
    }
    if meaningful_text_chars(extracted_text) >= MIN_MEANINGFUL_TEXT_CHARS {
        return OcrDecision::UseEmbeddedText;
    }
    if math_ocr_enabled && has_math_hint {
        OcrDecision::MathOcr
    } else {
        OcrDecision::TextOcr
    }
}

#[derive(Debug, Clone, Copy, PartialEq, Eq, Structural)]
pub enum OcrMode {
    Text,
    Math,
}

impl OcrMode {
    /// The mode's name in the sidecar protocol.
    pub fn as_wire(self) -> (r: &'static str)
        ensures
            r@ == (match self {
                OcrMode::Text => "text"@,
                OcrMode::Math => "math"@,
            }),
    {
        match self {
            OcrMode::Text => "text",
            OcrMode::Math => "math",
        }
    }
}

#[derive(Debug, Clone, Copy, PartialEq, Eq, Structural)]
pub enum OcrErrorCode {
    InvalidRequest,
    FileUnavailable,
    Unsupported,
    TooLarge,
    ModelMissing,
    InvalidEngineResult,
    Internal,
}

#[derive(Debug, Clone, PartialEq, Eq)]
pub enum OcrError {
    Start,
    Io,
    UnexpectedExit,
    InvalidResponse,
    Timeout,
    Cancelled,
    Protocol { code: OcrErrorCode, message: String },
}

/// The sidecar's error code as it appears in its protocol.
pub open spec fn ocr_code_name(code: OcrErrorCode) -> Seq<char> {
    match code {
        OcrErrorCode::InvalidRequest => "InvalidRequest"@,
        OcrErrorCode::FileUnavailable => "FileUnavailable"@,
        OcrErrorCode::Unsupported => "Unsupported"@,
        OcrErrorCode::TooLarge => "TooLarge"@,
        OcrErrorCode::ModelMissing => "ModelMissing"@,
        OcrErrorCode::InvalidEngineResult => "InvalidEngineResult"@,
        OcrErrorCode::Internal => "Internal"@,
    }
}

pub open spec fn spec_ocr_error_message(e: OcrError) -> Seq<char> {
    match e {
        OcrError::Start => "OCR sidecar could not be started"@,
        OcrError::Io => "OCR sidecar I/O failed"@,
        OcrError::UnexpectedExit => "OCR sidecar exited unexpectedly"@,
        OcrError::InvalidResponse => "OCR sidecar returned an invalid response"@,
        OcrError::Timeout => "OCR request timed out"@,
        OcrError::Cancelled => "OCR request was cancelled"@,
        OcrError::Protocol { code, .. } => "OCR rejected the document: "@ + ocr_code_name(code),
    }
}

impl OcrErrorCode {
    pub fn name(self) -> (r: &'static str)
        ensures
            r@ == ocr_code_name(self),
    {
        match self {
            OcrErrorCode::InvalidRequest => "InvalidRequest",
            OcrErrorCode::FileUnavailable => "FileUnavailable",
            OcrErrorCode::Unsupported => "Unsupported",
            OcrErrorCode::TooLarge => "TooLarge",
            OcrErrorCode::ModelMissing => "ModelMissing",
            OcrErrorCode::InvalidEngineResult => "InvalidEngineResult",
            OcrErrorCode::Internal => "Internal",
        }
    }
}

impl OcrError {
    /// The error's description, as its `Display` shows it.
    pub fn message(&self) -> (r: String)
        ensures
            r@ == spec_ocr_error_message(*self),
    {
        match self {
            OcrError::Start => String::from_str("OCR sidecar could not be started"),
            OcrError::Io => String::from_str("OCR sidecar I/O failed"),
            OcrError::UnexpectedExit => String::from_str("OCR sidecar exited unexpectedly"),
            OcrError::InvalidResponse => String::from_str(
                "OCR sidecar returned an invalid response",
            ),
            OcrError::Timeout => String::from_str("OCR request timed out"),
            OcrError::Cancelled => String::from_str("OCR request was cancelled"),
            OcrError::Protocol { code, .. } => {
                let head = String::from_str("OCR rejected the document: ");
                head.concat(code.name())
            },
        }
    }
}


// ---------------------------------------------------------------------------
// Replies
// ---------------------------------------------------------------------------

/// The error half of an OCR reply.
#[derive(Debug)]
pub struct OcrReplyError {
    pub code: OcrErrorCode,
    pub message: String,
}

/// One reply line of the OCR sidecar.
#[derive(Debug)]
pub struct OcrReply {
    pub id: Option<String>,
    pub ok: bool,
    pub document: Option<ParsedDocument>,
    pub error: Option<OcrReplyError>,
}

/// What a reply to the request with this id comes to, and whether the
/// sidecar must be stopped: a reply for another request means the sidecar
/// is out of step.
pub open spec fn spec_ocr_outcome(expected_id: Seq<char>, reply: OcrReply) -> (
    Result<ParsedDocument, OcrError>,
    bool,
) {
    if !(reply.id matches Some(id) && id@ == expected_id) {
        (Err(OcrError::InvalidResponse), true)
    } else {
        (
            match (reply.ok, reply.document, reply.error) {
                (true, Some(d), None) => Ok(d),
                (false, None, Some(e)) => Err(OcrError::Protocol { code: e.code, message: e.message }),
                _ => Err(OcrError::InvalidResponse),
            },
            false,
        )
    }
}

/// Reads the reply to the request with this id.
pub fn ocr_reply_result(expected_id: &str, reply: OcrReply) -> (r: (Result<ParsedDocument, OcrError>, bool))
    ensures
        r == spec_ocr_outcome(expected_id@, reply),
{
    let OcrReply { id, ok, document, error } = reply;
    let matches = match &id {
        Some(i) => eq_chars(chars_of(i.as_str()).as_slice(), chars_of(expected_id).as_slice()),
        None => false,
    };
    if !matches {
        return (Err(OcrError::InvalidResponse), true);
    }
    let result = match (ok, document, error) {
        (true, Some(d), None) => Ok(d),
        (false, None, Some(e)) => Err(OcrError::Protocol { code: e.code, message: e.message }),
        _ => Err(OcrError::InvalidResponse),
    };
    (result, false)
}

/// The id of the OCR request with this sequence number: `ocr-` and the
/// number in decimal.
pub fn ocr_request_id(sequence: u64) -> (r: String)
    ensures
        r@ == "ocr-"@ + decimal(sequence as nat),
{
    let mut out = chars_of("ocr-");
    extend_chars(&mut out, decimal_exec(sequence).as_slice());
    string_from_chars(out.as_slice())
}

/// Sends an OCR request once more when the sidecar exited under the first
/// try; any other outcome of the first try is final.
pub fn recognize_with_retry<T, F: Fn() -> Result<T, OcrError>>(send: &F) -> (r: Result<T, OcrError>)
    requires
        send.requires(()),
    ensures
        exists|first: Result<T, OcrError>|
            #![trigger send.ensures((), first)]
            send.ensures((), first) && if first == Err::<T, OcrError>(OcrError::UnexpectedExit) {
                send.ensures((), r)
            } else {
                r == first
            },
{
    let first = send();
    match first {
        Err(OcrError::UnexpectedExit) => send(),
        other => other,
    }
}


/// With OCR on, a PDF whose own text has enough letters and digits keeps
/// that text and is never sent to OCR.
pub proof fn law_text_pdfs_keep_their_text(
    extension: Seq<char>,
    extracted_text: Seq<char>,
    math_ocr_enabled: bool,
    has_math_hint: bool,
)
    requires
        normalized_extension(extension) == "pdf"@,
        alphanumeric_count(extracted_text) >= MIN_MEANINGFUL_TEXT_CHARS,
    ensures
        spec_decide(extension, extracted_text, true, math_ocr_enabled, has_math_hint)
            == OcrDecision::UseEmbeddedText,
{
    reveal_strlit("pdf");
    reveal_strlit("jpg");
    reveal_strlit("jpeg");
    reveal_strlit("png");
    reveal_strlit("webp");
    reveal_strlit("bmp");
    reveal_strlit("tif");
    reveal_strlit("tiff");
    let e = normalized_extension(extension);
    assert(e.len() == 3 && e[0] == 'p');
    assert(e != "jpg"@ && e != "png"@ && e != "bmp"@ && e != "tif"@) by {
        assert("jpg"@[0] == 'j' && "png"@[0] == 'p' && "png"@[1] == 'n' && e[1] == 'd');
        assert("bmp"@[0] == 'b' && "tif"@[0] == 't');
    }
    assert(e != "jpeg"@ && e != "webp"@ && e != "tiff"@) by {
        assert("jpeg"@.len() == 4 && "webp"@.len() == 4 && "tiff"@.len() == 4);
    }
}

/// With OCR off, no document is ever sent to OCR.
pub proof fn law_ocr_off_means_no_ocr(
    extension: Seq<char>,
    extracted_text: Seq<char>,
    math_ocr_enabled: bool,
    has_math_hint: bool,
)
    ensures
        spec_decide(extension, extracted_text, false, math_ocr_enabled, has_math_hint)
            == OcrDecision::Disabled,
{
}
} // verus!
