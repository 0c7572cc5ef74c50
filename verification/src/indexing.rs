//! The decisions of the indexing pipeline: which files are extracted, how
//! failures are reported, and which watcher events name a registered file.
use vstd::prelude::*;
use rand::RngExt;

use crate::models::{IndexFailure, IndexStatus, JobState};
use crate::ocr::{
    eq_literal, is_image_extension, is_image_extension_exec, spec_decide, OcrDecision, OcrError,
    OcrErrorCode, OcrMode, spec_ocr_error_message,
};
use crate::parsing::{spec_parser_error_message, ParseErrorCode, ParsedDocument, ParserError};
use crate::paths::{
    char_is_separator, extension_of, file_name_of, find_last_separator, is_dot_or_dot_dot,
    is_separator, last_separator, path_starts_with, path_starts_with_exec, spec_extension,
    spec_file_name,
};
use crate::retrieval::{decimal, decimal_u128};
use crate::text::{ascii_lower_chars, ascii_lower_seq, chars_of, eq_chars, string_from_chars, sub_chars};

verus! {

broadcast use vstd::string::group_string_axioms;

// ---------------------------------------------------------------------------
// Job states as stored
// ---------------------------------------------------------------------------

pub open spec fn job_state_sql(state: JobState) -> Seq<char> {
    match state {
        JobState::Queued => "queued"@,
        JobState::Discovering => "discovering"@,
        JobState::Parsing => "parsing"@,
        JobState::Paused => "paused"@,
        JobState::Completed => "completed"@,
        JobState::Cancelled => "cancelled"@,
        JobState::Failed => "failed"@,
    }
}

pub open spec fn job_state_from_sql(value: Seq<char>) -> Option<JobState> {
    if value == "queued"@ {
        Some(JobState::Queued)
    } else if value == "discovering"@ {
        Some(JobState::Discovering)
    } else if value == "parsing"@ {
        Some(JobState::Parsing)
    } else if value == "paused"@ {
        Some(JobState::Paused)
    } else if value == "completed"@ {
        Some(JobState::Completed)
    } else if value == "cancelled"@ {
        Some(JobState::Cancelled)
    } else if value == "failed"@ {
        Some(JobState::Failed)
    } else {
        None
    }
}

impl JobState {
    /// The state's name in the index database.
    pub fn as_sql(self) -> (r: &'static str)
        ensures
            r@ == job_state_sql(self),
    {
        match self {
            JobState::Queued => "queued",
            JobState::Discovering => "discovering",
            JobState::Parsing => "parsing",
            JobState::Paused => "paused",
            JobState::Completed => "completed",
            JobState::Cancelled => "cancelled",
            JobState::Failed => "failed",
        }
    }

    /// Reads a state from its name in the index database.
    pub fn from_sql(value: &str) -> (r: Result<JobState, IndexingError>)
        ensures
            match job_state_from_sql(value@) {
                Some(state) => r == Ok::<JobState, IndexingError>(state),
                None => r matches Err(IndexingError::InvalidState(v)) && v@ == value@,
            },
    {
        let v = chars_of(value);
        let v = v.as_slice();
        if eq_literal(v, "queued") {
            Ok(JobState::Queued)
        } else if eq_literal(v, "discovering") {
            Ok(JobState::Discovering)
        } else if eq_literal(v, "parsing") {
            Ok(JobState::Parsing)
        } else if eq_literal(v, "paused") {
            Ok(JobState::Paused)
        } else if eq_literal(v, "completed") {
            Ok(JobState::Completed)
        } else if eq_literal(v, "cancelled") {
            Ok(JobState::Cancelled)
        } else if eq_literal(v, "failed") {
            Ok(JobState::Failed)
        } else {
            Err(IndexingError::InvalidState(String::from_str(value)))
        }
    }
}

/// Reading back the stored name of a job state gives the same state.
pub proof fn law_job_state_sql_roundtrip(state: JobState)
    ensures
        job_state_from_sql(job_state_sql(state)) == Some(state),
{
    reveal_strlit("queued");
    reveal_strlit("discovering");
    reveal_strlit("parsing");
    reveal_strlit("paused");
    reveal_strlit("completed");
    reveal_strlit("cancelled");
    reveal_strlit("failed");
    let names = seq![
        "queued"@,
        "discovering"@,
        "parsing"@,
        "paused"@,
        "completed"@,
        "cancelled"@,
        "failed"@,
    ];
    assert(names[0][0] == 'q' && names[1][0] == 'd' && names[2][1] == 'a' && names[3][1] == 'a'
        && names[4][0] == 'c' && names[5][0] == 'c' && names[6][0] == 'f');
    assert(names[2][0] == 'p' && names[3][0] == 'p' && names[2][2] == 'r' && names[3][2] == 'u');
    assert(names[4][1] == 'o' && names[5][1] == 'a');
    assert(names[0] != names[1] && names[0] != names[2] && names[0] != names[3] && names[0]
        != names[4] && names[0] != names[5] && names[0] != names[6]);
    assert(names[1] != names[2] && names[1] != names[3] && names[1] != names[4] && names[1]
        != names[5] && names[1] != names[6]);
    assert(names[2] != names[3] && names[2] != names[4] && names[2] != names[5] && names[2]
        != names[6]);
    assert(names[3] != names[4] && names[3] != names[5] && names[3] != names[6]);
    assert(names[4] != names[5] && names[4] != names[6]);
    assert(names[5] != names[6]);
}

// ---------------------------------------------------------------------------
// Which files are extracted
// ---------------------------------------------------------------------------

#[derive(Debug, Clone)]
pub struct RuntimeIndexSettings {
    pub max_file_size_bytes: u64,
    pub excluded_path_patterns: Vec<String>,
    pub indexing_intensity: String,
    pub ocr_enabled: bool,
    pub math_ocr_enabled: bool,
}

/// A path's extension, ASCII lower-cased; empty when it has none.
pub open spec fn lower_extension(path: Seq<char>) -> Seq<char> {
    match spec_extension(path) {
        Some(e) => ascii_lower_seq(e),
        None => seq![],
    }
}

/// Extensions whose content the parser extracts.
pub open spec fn is_parsed_extension(e: Seq<char>) -> bool {
    ||| e == "txt"@
    ||| e == "md"@
    ||| e == "markdown"@
    ||| e == "hwp"@
    ||| e == "hwpx"@
    ||| e == "hml"@
    ||| e == "hwpml"@
    ||| e == "pdf"@
    ||| e == "xlsx"@
    ||| e == "docx"@
}

pub open spec fn spec_candidate_requires_extraction(path: Seq<char>, ocr_enabled: bool) -> bool {
    let e = lower_extension(path);
    is_parsed_extension(e) || (ocr_enabled && is_image_extension(e))
}

pub open spec fn spec_should_track_ocr(path: Seq<char>, ocr_enabled: bool) -> bool {
    let e = lower_extension(path);
    ocr_enabled && (e == "pdf"@ || is_image_extension(e))
}

fn lower_extension_exec(path: &str) -> (r: Vec<char>)
    ensures
        r@ == lower_extension(path@),
{
    let p = chars_of(path);
    match extension_of(p.as_slice()) {
        Some(e) => ascii_lower_chars(e.as_slice()),
        None => Vec::new(),
    }
}

fn is_parsed_extension_exec(e: &[char]) -> (r: bool)
    ensures
        r == is_parsed_extension(e@),
{
    eq_literal(e, "txt") || eq_literal(e, "md") || eq_literal(e, "markdown") || eq_literal(e, "hwp")
        || eq_literal(e, "hwpx") || eq_literal(e, "hml") || eq_literal(e, "hwpml") || eq_literal(
        e,
        "pdf",
    ) || eq_literal(e, "xlsx") || eq_literal(e, "docx")
}

/// Whether the file's content is extracted, by the parser or by OCR.
pub fn candidate_requires_extraction(path: &str, settings: &RuntimeIndexSettings) -> (r: bool)
    ensures
        r == spec_candidate_requires_extraction(path@, settings.ocr_enabled),
{
    let e = lower_extension_exec(path);
    if is_parsed_extension_exec(e.as_slice()) {
        return true;
    }
    settings.ocr_enabled && is_image_extension_exec(e.as_slice())
}

/// Whether the file's OCR attempts are recorded.
pub fn should_track_ocr(path: &str, settings: &RuntimeIndexSettings) -> (r: bool)
    ensures
        r == spec_should_track_ocr(path@, settings.ocr_enabled),
{
    if !settings.ocr_enabled {
        return false;
    }
    let e = lower_extension_exec(path);
    eq_literal(e.as_slice(), "pdf") || is_image_extension_exec(e.as_slice())
}

/// OCR attempts are recorded only for files whose content is extracted.
pub proof fn law_tracked_ocr_files_are_extracted(path: Seq<char>, ocr_enabled: bool)
    requires
        spec_should_track_ocr(path, ocr_enabled),
    ensures
        spec_candidate_requires_extraction(path, ocr_enabled),
{
}

/// The extensions, lower-cased, whose files the document parser reads.
pub open spec fn parser_extensions() -> Seq<Seq<char>> {
    seq![
        "txt"@,
        "md"@,
        "markdown"@,
        "hwp"@,
        "hwpx"@,
        "hml"@,
        "hwpml"@,
        "pdf"@,
        "xlsx"@,
        "docx"@,
    ]
}

/// A file the parser reads has its content extracted, whether OCR is on or
/// off: its text is indexed, not only its metadata.
pub proof fn law_parsed_documents_are_extracted(path: Seq<char>, ocr_enabled: bool)
    requires
        parser_extensions().contains(lower_extension(path)),
    ensures
        spec_candidate_requires_extraction(path, ocr_enabled),
{
    let e = lower_extension(path);
    let k = choose|k: int| 0 <= k < parser_extensions().len() && parser_extensions()[k] == e;
    assert(0 <= k < 10);
}

/// A file that is neither one the parser reads nor an image is never
/// extracted: only its metadata is recorded.
pub proof fn law_other_files_keep_only_metadata(path: Seq<char>, ocr_enabled: bool)
    requires
        !parser_extensions().contains(lower_extension(path)),
        !is_image_extension(lower_extension(path)),
    ensures
        !spec_candidate_requires_extraction(path, ocr_enabled),
{
    let e = lower_extension(path);
    if is_parsed_extension(e) {
        let k: int = if e == "txt"@ {
            0
        } else if e == "md"@ {
            1
        } else if e == "markdown"@ {
            2
        } else if e == "hwp"@ {
            3
        } else if e == "hwpx"@ {
            4
        } else if e == "hml"@ {
            5
        } else if e == "hwpml"@ {
            6
        } else if e == "pdf"@ {
            7
        } else if e == "xlsx"@ {
            8
        } else {
            9
        };
        assert(parser_extensions()[k] == e);
    }
}

// ---------------------------------------------------------------------------
// Failure reports
// ---------------------------------------------------------------------------

#[derive(Debug, Clone, PartialEq, Eq)]
pub enum ExtractionError {
    Parser(ParserError),
    Ocr(OcrError),
    OcrUnavailable,
}

pub open spec fn spec_ocr_error_code(code: OcrErrorCode) -> Seq<char> {
    match code {
        OcrErrorCode::InvalidRequest => "OCR_INVALID_REQUEST"@,
        OcrErrorCode::FileUnavailable => "OCR_FILE_UNAVAILABLE"@,
        OcrErrorCode::Unsupported => "OCR_UNSUPPORTED"@,
        OcrErrorCode::TooLarge => "OCR_TOO_LARGE"@,
        OcrErrorCode::ModelMissing => "OCR_MODEL_MISSING"@,
        OcrErrorCode::InvalidEngineResult => "OCR_INVALID_ENGINE_RESULT"@,
        OcrErrorCode::Internal => "OCR_INTERNAL"@,
    }
}

pub open spec fn spec_parse_error_code(code: ParseErrorCode) -> Seq<char> {
    match code {
        ParseErrorCode::InvalidRequest => "INVALID_REQUEST"@,
        ParseErrorCode::Unsupported => "UNSUPPORTED"@,
        ParseErrorCode::Encrypted => "ENCRYPTED"@,
        ParseErrorCode::Damaged => "DAMAGED"@,
        ParseErrorCode::Timeout => "TIMEOUT"@,
        ParseErrorCode::TooLarge => "TOO_LARGE"@,
        ParseErrorCode::ImageBasedPdf => "IMAGE_BASED_PDF"@,
        ParseErrorCode::Internal => "INTERNAL"@,
    }
}

/// The code and message recorded for a parser failure.
pub open spec fn spec_parser_failure(error: ParserError) -> (Seq<char>, Seq<char>) {
    match error {
        ParserError::Protocol { code, message } => (spec_parse_error_code(code), message@),
        ParserError::Start => ("PARSER_START"@, spec_parser_error_message(error)),
        ParserError::Io => ("PARSER_IO"@, spec_parser_error_message(error)),
        ParserError::UnexpectedExit => ("PARSER_EXIT"@, spec_parser_error_message(error)),
        ParserError::InvalidResponse => (
            "PARSER_INVALID_RESPONSE"@,
            spec_parser_error_message(error),
        ),
        ParserError::Timeout => ("TIMEOUT"@, spec_parser_error_message(error)),
    }
}

/// The code and message recorded for an extraction failure.
pub open spec fn spec_extraction_failure(error: ExtractionError) -> (Seq<char>, Seq<char>) {
    match error {
        ExtractionError::Parser(e) => spec_parser_failure(e),
        ExtractionError::Ocr(e) => match e {
            OcrError::Protocol { code, message } => (spec_ocr_error_code(code), message@),
            OcrError::Start => ("OCR_START"@, spec_ocr_error_message(e)),
            OcrError::Io => ("OCR_IO"@, spec_ocr_error_message(e)),
            OcrError::UnexpectedExit => ("OCR_EXIT"@, spec_ocr_error_message(e)),
            OcrError::InvalidResponse => ("OCR_INVALID_RESPONSE"@, spec_ocr_error_message(e)),
            OcrError::Timeout => ("OCR_TIMEOUT"@, spec_ocr_error_message(e)),
            OcrError::Cancelled => ("OCR_CANCELLED"@, spec_ocr_error_message(e)),
        },
        ExtractionError::OcrUnavailable => (
            "OCR_UNAVAILABLE"@,
            "Local OCR is enabled but its bundled engine is unavailable"@,
        ),
    }
}

pub fn ocr_error_code(code: &OcrErrorCode) -> (r: &'static str)
    ensures
        r@ == spec_ocr_error_code(*code),
{
    match code {
        OcrErrorCode::InvalidRequest => "OCR_INVALID_REQUEST",
        OcrErrorCode::FileUnavailable => "OCR_FILE_UNAVAILABLE",
        OcrErrorCode::Unsupported => "OCR_UNSUPPORTED",
        OcrErrorCode::TooLarge => "OCR_TOO_LARGE",
        OcrErrorCode::ModelMissing => "OCR_MODEL_MISSING",
        OcrErrorCode::InvalidEngineResult => "OCR_INVALID_ENGINE_RESULT",
        OcrErrorCode::Internal => "OCR_INTERNAL",
    }
}

pub fn parse_error_code(code: &ParseErrorCode) -> (r: &'static str)
    ensures
        r@ == spec_parse_error_code(*code),
{
    match code {
        ParseErrorCode::InvalidRequest => "INVALID_REQUEST",
        ParseErrorCode::Unsupported => "UNSUPPORTED",
        ParseErrorCode::Encrypted => "ENCRYPTED",
        ParseErrorCode::Damaged => "DAMAGED",
        ParseErrorCode::Timeout => "TIMEOUT",
        ParseErrorCode::TooLarge => "TOO_LARGE",
        ParseErrorCode::ImageBasedPdf => "IMAGE_BASED_PDF",
        ParseErrorCode::Internal => "INTERNAL",
    }
}

pub fn parser_failure(error: &ParserError) -> (r: (&'static str, String))
    ensures
        (r.0@, r.1@) == spec_parser_failure(*error),
{
    match error {
        ParserError::Protocol { code, message } => (parse_error_code(code), message.clone()),
        ParserError::Start => ("PARSER_START", error.message()),
        ParserError::Io => ("PARSER_IO", error.message()),
        ParserError::UnexpectedExit => ("PARSER_EXIT", error.message()),
        ParserError::InvalidResponse => ("PARSER_INVALID_RESPONSE", error.message()),
        ParserError::Timeout => ("TIMEOUT", error.message()),
    }
}

pub fn extraction_failure(error: &ExtractionError) -> (r: (&'static str, String))
    ensures
        (r.0@, r.1@) == spec_extraction_failure(*error),
{
    match error {
        ExtractionError::Parser(e) => parser_failure(e),
        ExtractionError::Ocr(e) => match e {
            OcrError::Protocol { code, message } => (ocr_error_code(code), message.clone()),
            OcrError::Start => ("OCR_START", e.message()),
            OcrError::Io => ("OCR_IO", e.message()),
            OcrError::UnexpectedExit => ("OCR_EXIT", e.message()),
            OcrError::InvalidResponse => ("OCR_INVALID_RESPONSE", e.message()),
            OcrError::Timeout => ("OCR_TIMEOUT", e.message()),
            OcrError::Cancelled => ("OCR_CANCELLED", e.message()),
        },
        ExtractionError::OcrUnavailable => (
            "OCR_UNAVAILABLE",
            String::from_str("Local OCR is enabled but its bundled engine is unavailable"),
        ),
    }
}

// ---------------------------------------------------------------------------
// Extracting a document's content
// ---------------------------------------------------------------------------

/// The OCR mode a decision asks for.
pub open spec fn ocr_mode_for(decision: OcrDecision) -> OcrMode {
    if decision == OcrDecision::MathOcr {
        OcrMode::Math
    } else {
        OcrMode::Text
    }
}

pub open spec fn wants_ocr(decision: OcrDecision) -> bool {
    decision == OcrDecision::TextOcr || decision == OcrDecision::MathOcr
}

/// What running OCR for a decision gives: no engine means OCR is
/// unavailable; otherwise what the engine returned in that mode.
pub open spec fn ocr_outcome<R: Fn(OcrMode) -> Result<ParsedDocument, OcrError>>(
    recognize: R,
    available: bool,
    decision: OcrDecision,
    r: Result<ParsedDocument, ExtractionError>,
) -> bool {
    if !available {
        r == Err::<ParsedDocument, ExtractionError>(ExtractionError::OcrUnavailable)
    } else {
        exists|res: Result<ParsedDocument, OcrError>|
            #![trigger recognize.ensures((ocr_mode_for(decision),), res)]
            recognize.ensures((ocr_mode_for(decision),), res) && r == match res {
                Ok(d) => Ok(d),
                Err(e) => Err(ExtractionError::Ocr(e)),
            }
    }
}

/// What follows the parser's result: its text decides whether OCR takes
/// over; a PDF the parser finds image-based goes to OCR when OCR is on;
/// any other parser failure is the result.
pub open spec fn after_parse<R: Fn(OcrMode) -> Result<ParsedDocument, OcrError>>(
    recognize: R,
    available: bool,
    extension: Seq<char>,
    ocr_enabled: bool,
    math_ocr_enabled: bool,
    parsed: Result<ParsedDocument, ParserError>,
    r: Result<ParsedDocument, ExtractionError>,
) -> bool {
    match parsed {
        Ok(document) => {
            let decision = spec_decide(
                extension,
                document.plain_text@,
                ocr_enabled,
                math_ocr_enabled,
                math_ocr_enabled && extension == "pdf"@,
            );
            if wants_ocr(decision) {
                ocr_outcome(recognize, available, decision, r)
            } else {
                r == Ok::<ParsedDocument, ExtractionError>(document)
            }
        },
        Err(e) => if ocr_enabled && e matches ParserError::Protocol {
            code: ParseErrorCode::ImageBasedPdf,
            ..
        } {
            ocr_outcome(
                recognize,
                available,
                if math_ocr_enabled {
                    OcrDecision::MathOcr
                } else {
                    OcrDecision::TextOcr
                },
                r,
            )
        } else {
            r == Err::<ParsedDocument, ExtractionError>(ExtractionError::Parser(e))
        },
    }
}

/// With OCR off, extraction is exactly what the parser gave: its document,
/// or its failure.
pub proof fn law_without_ocr_the_parser_decides<R: Fn(OcrMode) -> Result<ParsedDocument, OcrError>>(
    recognize: R,
    available: bool,
    extension: Seq<char>,
    math_ocr_enabled: bool,
    parsed: Result<ParsedDocument, ParserError>,
    r: Result<ParsedDocument, ExtractionError>,
)
    requires
        after_parse(recognize, available, extension, false, math_ocr_enabled, parsed, r),
    ensures
        r == match parsed {
            Ok(d) => Ok(d),
            Err(e) => Err(ExtractionError::Parser(e)),
        },
{
}

fn run_ocr<R: Fn(OcrMode) -> Result<ParsedDocument, OcrError>>(
    recognize: &R,
    available: bool,
    decision: OcrDecision,
) -> (r: Result<ParsedDocument, ExtractionError>)
    requires
        forall|m: OcrMode| #[trigger] recognize.requires((m,)),
    ensures
        ocr_outcome(*recognize, available, decision, r),
{
    if !available {
        return Err(ExtractionError::OcrUnavailable);
    }
    let mode = if decision == OcrDecision::MathOcr {
        OcrMode::Math
    } else {
        OcrMode::Text
    };
    let res = recognize(mode);
    let r = match res {
        Ok(d) => Ok(d),
        Err(e) => Err(ExtractionError::Ocr(e)),
    };
    assert(recognize.ensures((ocr_mode_for(decision),), res));
    r
}

/// Extracts a document's content. An image goes straight to OCR; anything
/// else goes to the parser first, and a PDF whose text is too thin, or that
/// the parser finds image-based, goes to OCR after it. `ocr_available` says
/// whether the OCR engine is bundled.
pub fn extract_document<
    P: Fn() -> Result<ParsedDocument, ParserError>,
    R: Fn(OcrMode) -> Result<ParsedDocument, OcrError>,
>(
    parse: &P,
    recognize: &R,
    ocr_available: bool,
    path: &str,
    settings: &RuntimeIndexSettings,
) -> (r: Result<ParsedDocument, ExtractionError>)
    requires
        parse.requires(()),
        forall|m: OcrMode| #[trigger] recognize.requires((m,)),
    ensures
        ({
            let extension = lower_extension(path@);
            let initial = spec_decide(
                extension,
                seq![],
                settings.ocr_enabled,
                settings.math_ocr_enabled,
                settings.math_ocr_enabled && extension == "pdf"@,
            );
            if wants_ocr(initial) && extension != "pdf"@ {
                ocr_outcome(*recognize, ocr_available, initial, r)
            } else {
                exists|parsed: Result<ParsedDocument, ParserError>|
                    #![trigger parse.ensures((), parsed)]
                    parse.ensures((), parsed) && after_parse(
                        *recognize,
                        ocr_available,
                        extension,
                        settings.ocr_enabled,
                        settings.math_ocr_enabled,
                        parsed,
                        r,
                    )
            }
        }),
{
    let extension_chars = lower_extension_exec(path);
    let extension = string_from_chars(extension_chars.as_slice());
    let is_pdf = eq_literal(extension_chars.as_slice(), "pdf");
    let hint = settings.math_ocr_enabled && is_pdf;
    let initial = crate::ocr::decide(
        extension.as_str(),
        "",
        settings.ocr_enabled,
        settings.math_ocr_enabled,
        hint,
    );
    proof {
        assert(""@ =~= seq![]) by {
            reveal_strlit("");
        }
    }
    if (initial == OcrDecision::TextOcr || initial == OcrDecision::MathOcr) && !is_pdf {
        return run_ocr(recognize, ocr_available, initial);
    }
    let parsed = parse();
    let r = match parsed {
        Ok(document) => {
            let decision = crate::ocr::decide(
                extension.as_str(),
                document.plain_text.as_str(),
                settings.ocr_enabled,
                settings.math_ocr_enabled,
                hint,
            );
            if decision == OcrDecision::TextOcr || decision == OcrDecision::MathOcr {
                run_ocr(recognize, ocr_available, decision)
            } else {
                Ok(document)
            }
        },
        Err(e) => {
            let image_based = match &e {
                ParserError::Protocol { code: ParseErrorCode::ImageBasedPdf, .. } => true,
                _ => false,
            };
            if settings.ocr_enabled && image_based {
                let decision = if settings.math_ocr_enabled {
                    OcrDecision::MathOcr
                } else {
                    OcrDecision::TextOcr
                };
                run_ocr(recognize, ocr_available, decision)
            } else {
                Err(ExtractionError::Parser(e))
            }
        },
    };
    assert(parse.ensures((), parsed));
    r
}

// ---------------------------------------------------------------------------
// One candidate through the pipeline
// ---------------------------------------------------------------------------

/// How a discovered candidate is handled.
#[derive(Debug, Clone, Copy, PartialEq, Eq, Structural)]
pub enum CandidateRoute {
    /// The index already holds this version: only the job's progress moves.
    Cached,
    /// Only the file's metadata is recorded.
    MetadataOnly,
    /// The content is extracted.
    Extract,
}

pub open spec fn spec_candidate_route(
    metadata_only: bool,
    extraction_required: bool,
    is_current: bool,
    placeholder: bool,
) -> CandidateRoute {
    if is_current {
        CandidateRoute::Cached
    } else if metadata_only || placeholder || !extraction_required {
        CandidateRoute::MetadataOnly
    } else {
        CandidateRoute::Extract
    }
}

/// Routes a candidate: `metadata_only` is what discovery recorded,
/// `extraction_required` whether its content would be extracted,
/// `is_current` whether the stored document already matches it, and
/// `placeholder` whether the file is now a cloud placeholder.
pub fn candidate_route(
    metadata_only: bool,
    extraction_required: bool,
    is_current: bool,
    placeholder: bool,
) -> (r: CandidateRoute)
    ensures
        r == spec_candidate_route(metadata_only, extraction_required, is_current, placeholder),
{
    if is_current {
        CandidateRoute::Cached
    } else if metadata_only || placeholder || !extraction_required {
        CandidateRoute::MetadataOnly
    } else {
        CandidateRoute::Extract
    }
}

/// What the index holds for a path, as read.
#[derive(Debug, Clone)]
pub struct StoredDocument {
    pub size_bytes: i64,
    pub modified_at: String,
    pub parse_state: String,
    pub has_content: bool,
    pub has_fts: bool,
}

/// A file size as stored: sizes beyond `i64::MAX` are stored as `i64::MAX`.
pub fn size_as_stored(size_bytes: u64) -> (r: i64)
    ensures
        r == (if size_bytes <= i64::MAX {
            size_bytes as int
        } else {
            i64::MAX as int
        }),
{
    if size_bytes <= i64::MAX as u64 {
        size_bytes as i64
    } else {
        i64::MAX
    }
}

/// Whether the stored document is this version of the file: same size and
/// modification time, and parsed with its content and full-text entry where
/// its content is extracted, recorded as metadata only otherwise.
pub open spec fn spec_is_current(
    stored: Option<StoredDocument>,
    size_bytes: i64,
    modified_at: Seq<char>,
    extraction_required: bool,
) -> bool {
    match stored {
        None => false,
        Some(d) => d.size_bytes == size_bytes && d.modified_at@ == modified_at && if extraction_required {
            d.parse_state@ == "parsed"@ && d.has_content && d.has_fts
        } else {
            d.parse_state@ == "metadata_only"@
        },
    }
}

pub fn stored_document_is_current(
    stored: &Option<StoredDocument>,
    size_bytes: i64,
    modified_at: &str,
    extraction_required: bool,
) -> (r: bool)
    ensures
        r == spec_is_current(*stored, size_bytes, modified_at@, extraction_required),
{
    match stored {
        None => false,
        Some(d) => {
            if d.size_bytes != size_bytes || !eq_chars(
                chars_of(d.modified_at.as_str()).as_slice(),
                chars_of(modified_at).as_slice(),
            ) {
                return false;
            }
            let state = chars_of(d.parse_state.as_str());
            if extraction_required {
                eq_literal(state.as_slice(), "parsed") && d.has_content && d.has_fts
            } else {
                eq_literal(state.as_slice(), "metadata_only")
            }
        },
    }
}

/// The stored document at a rename's source, as read: its id, size,
/// modification time and whether a parse attempt holds it.
#[derive(Debug, Clone)]
pub struct RenamedDocument {
    pub id: String,
    pub size_bytes: i64,
    pub modified_at: String,
    pub attempt_active: bool,
}

/// What a rename comes to once its source's stored document was read: the
/// same file moved keeps its index entry (parsed again if a parse attempt
/// held it); anything else is dropped at the old path and indexed anew at
/// the new one.
#[derive(Debug, Clone, Copy, PartialEq, Eq, Structural)]
pub enum RenameOutcome {
    /// Moved; nothing more to do.
    Moved,
    /// Moved, and parsed again because an attempt was interrupted.
    MovedAndReindexed,
    /// Not the same file: the old entry is deleted and the new path indexed.
    Replaced,
}

pub open spec fn spec_rename_outcome(
    stored: Option<RenamedDocument>,
    new_size: i64,
    new_modified: Seq<char>,
) -> RenameOutcome {
    match stored {
        Some(d) => if d.size_bytes == new_size && d.modified_at@ == new_modified {
            if d.attempt_active {
                RenameOutcome::MovedAndReindexed
            } else {
                RenameOutcome::Moved
            }
        } else {
            RenameOutcome::Replaced
        },
        None => RenameOutcome::Replaced,
    }
}

pub fn rename_outcome(stored: &Option<RenamedDocument>, new_size: i64, new_modified: &str) -> (r:
    RenameOutcome)
    ensures
        r == spec_rename_outcome(*stored, new_size, new_modified@),
{
    match stored {
        Some(d) => {
            if d.size_bytes == new_size && eq_chars(
                chars_of(d.modified_at.as_str()).as_slice(),
                chars_of(new_modified).as_slice(),
            ) {
                if d.attempt_active {
                    RenameOutcome::MovedAndReindexed
                } else {
                    RenameOutcome::Moved
                }
            } else {
                RenameOutcome::Replaced
            }
        },
        None => RenameOutcome::Replaced,
    }
}

/// The extension recorded for a renamed file: its extension, ASCII
/// lower-cased, or empty.
pub fn recorded_extension(path: &str) -> (r: String)
    ensures
        r@ == lower_extension(path@),
{
    string_from_chars(lower_extension_exec(path).as_slice())
}

/// The OCR mode recorded for an attempt: `math` for PDFs when math OCR is
/// on, `text` otherwise.
pub fn ocr_attempt_mode(path: &str, settings: &RuntimeIndexSettings) -> (r: &'static str)
    ensures
        r@ == (if settings.math_ocr_enabled && lower_extension(path@) == "pdf"@ {
            "math"@
        } else {
            "text"@
        }),
{
    if settings.math_ocr_enabled && eq_literal(lower_extension_exec(path).as_slice(), "pdf") {
        "math"
    } else {
        "text"
    }
}

/// How one extraction run ended.
#[derive(Debug, Clone, PartialEq, Eq)]
pub enum ParseRun {
    /// A document came back; `engine` is the engine its metadata names.
    Parsed { engine: Option<String> },
    /// Extraction failed.
    Failed(ExtractionError),
    /// The worker running the extraction stopped.
    WorkerStopped,
    /// The job was cancelled while the extraction ran.
    Cancelled,
}

/// What is recorded once an extraction run ends: the OCR attempt's final
/// status and error code (when OCR attempts are recorded), and the failure recorded
/// against the document, if any.
#[derive(Debug, Clone, PartialEq, Eq)]
pub struct ParseSettlement {
    pub ocr_status: &'static str,
    pub ocr_code: Option<String>,
    pub failure: Option<(String, String)>,
}

/// Whether a document came from the OCR engine.
pub open spec fn spec_was_ocr(engine: Option<String>) -> bool {
    match engine {
        Some(e) => ascii_lower_seq(e@) == "paddleocr"@,
        None => false,
    }
}

pub open spec fn opt_view(o: Option<String>) -> Option<Seq<char>> {
    match o {
        Some(s) => Some(s@),
        None => None,
    }
}

pub open spec fn pair_view(o: Option<(String, String)>) -> Option<(Seq<char>, Seq<char>)> {
    match o {
        Some(p) => Some((p.0@, p.1@)),
        None => None,
    }
}

/// The settlement of a run, as (OCR status, OCR code, failure).
pub open spec fn spec_settle_parse(run: ParseRun) -> (Seq<char>, Option<Seq<char>>, Option<
    (Seq<char>, Seq<char>),
>) {
    match run {
        ParseRun::Parsed { engine } => (
            if spec_was_ocr(engine) {
                "completed"@
            } else {
                "skipped"@
            },
            None,
            None,
        ),
        ParseRun::Failed(error) => (
            if error == ExtractionError::Ocr(OcrError::Cancelled) {
                "cancelled"@
            } else {
                "failed"@
            },
            Some(spec_extraction_failure(error).0),
            Some(spec_extraction_failure(error)),
        ),
        ParseRun::WorkerStopped => (
            "failed"@,
            Some("PARSER_WORKER_STOPPED"@),
            Some(("PARSER_WORKER_STOPPED"@, "parser worker stopped unexpectedly"@)),
        ),
        ParseRun::Cancelled => ("cancelled"@, Some("OCR_CANCELLED"@), None),
    }
}

/// Settles an extraction run. A cancelled run records no failure: the
/// document is put back as it was.
pub fn settle_parse(run: &ParseRun) -> (r: ParseSettlement)
    ensures
        (r.ocr_status@, opt_view(r.ocr_code), pair_view(r.failure)) == spec_settle_parse(*run),
{
    match run {
        ParseRun::Parsed { engine } => {
            let was_ocr = match engine {
                Some(e) => eq_literal(ascii_lower_chars(chars_of(e.as_str()).as_slice()).as_slice(), "paddleocr"),
                None => false,
            };
            ParseSettlement {
                ocr_status: if was_ocr {
                    "completed"
                } else {
                    "skipped"
                },
                ocr_code: None,
                failure: None,
            }
        },
        ParseRun::Failed(error) => {
            let (code, message) = extraction_failure(error);
            let cancelled = match error {
                ExtractionError::Ocr(OcrError::Cancelled) => true,
                _ => false,
            };
            ParseSettlement {
                ocr_status: if cancelled {
                    "cancelled"
                } else {
                    "failed"
                },
                ocr_code: Some(String::from_str(code)),
                failure: Some((String::from_str(code), message)),
            }
        },
        ParseRun::WorkerStopped => ParseSettlement {
            ocr_status: "failed",
            ocr_code: Some(String::from_str("PARSER_WORKER_STOPPED")),
            failure: Some(
                (
                    String::from_str("PARSER_WORKER_STOPPED"),
                    String::from_str("parser worker stopped unexpectedly"),
                ),
            ),
        },
        ParseRun::Cancelled => ParseSettlement {
            ocr_status: "cancelled",
            ocr_code: Some(String::from_str("OCR_CANCELLED")),
            failure: None,
        },
    }
}

/// The modification time as stored: nanoseconds since the Unix epoch in
/// decimal, or empty when unknown or before the epoch.
pub fn modified_at_string(nanos_since_epoch: Option<u128>) -> (r: String)
    ensures
        r@ == (match nanos_since_epoch {
            Some(n) => decimal(n as nat),
            None => seq![],
        }),
{
    match nanos_since_epoch {
        Some(n) => string_from_chars(decimal_u128(n).as_slice()),
        None => String::new(),
    }
}

/// Whether a path lies under the root, judged by its canonicalized parent
/// directory: none when the path has no parent or the parent could not be
/// canonicalized.
pub fn lexically_within(root: &str, canonical_parent: Option<&str>) -> (r: bool)
    ensures
        r == (match canonical_parent {
            Some(parent) => path_starts_with(parent@, root@),
            None => false,
        }),
{
    match canonical_parent {
        Some(parent) => path_starts_with_exec(chars_of(parent).as_slice(), chars_of(root).as_slice()),
        None => false,
    }
}

// ---------------------------------------------------------------------------
// File names and watcher identities
// ---------------------------------------------------------------------------

/// A file's name as recorded: its final path component, or empty.
pub fn file_name(path: &str) -> (r: String)
    ensures
        r@ == (match spec_file_name(path@) {
            Some(name) => name,
            None => seq![],
        }),
{
    let p = chars_of(path);
    match file_name_of(p.as_slice()) {
        Some(name) => string_from_chars(name.as_slice()),
        None => String::new(),
    }
}

/// The outcome of canonicalizing an event's parent directory.
#[derive(Debug, Clone, PartialEq, Eq)]
pub enum ParentLookup {
    Found(String),
    NotFound,
    Failed(String),
}

/// An event path split at its last separator into the parent, the separator
/// and the file name; none when the path names no file.
pub open spec fn event_split(path: Seq<char>) -> Option<(Seq<char>, char, Seq<char>)> {
    match last_separator(path) {
        Some(k) => {
            let name = path.skip(k + 1);
            if name.len() == 0 || is_dot_or_dot_dot(name) {
                None
            } else {
                Some((path.take(k), path[k], name))
            }
        },
        None => None,
    }
}

/// A directory joined with a file name, keeping the given separator.
pub open spec fn join_with(base: Seq<char>, sep: char, name: Seq<char>) -> Seq<char> {
    if base.len() > 0 && is_separator(base.last()) {
        base + name
    } else {
        base.push(sep) + name
    }
}

/// What an event identity is, given how its parent directory canonicalized.
pub open spec fn identity_matches(
    r: Result<Option<String>, IndexingError>,
    canonical_root: Seq<char>,
    parent: Seq<char>,
    sep: char,
    name: Seq<char>,
    lookup: ParentLookup,
) -> bool {
    match lookup {
        ParentLookup::Found(canonical) => if path_starts_with(canonical@, canonical_root) {
            r matches Ok(Some(identity)) && identity@ == join_with(canonical@, sep, name)
        } else {
            r matches Ok(None)
        },
        ParentLookup::NotFound => r matches Ok(None),
        ParentLookup::Failed(reason) => r matches Err(
            IndexingError::PathUnavailable { path, reason: why },
        ) && path@ == parent && why@ == reason@,
    }
}

/// The trusted identity of a watcher event: its canonical parent directory,
/// if that lies under the registered root, joined with its file name. Only
/// the parent is canonicalized, so a cloud placeholder is never opened.
pub fn trusted_event_identity<F: Fn(&str) -> ParentLookup>(
    canonical_root: &str,
    event_path: &str,
    canonicalize_parent: &F,
) -> (r: Result<Option<String>, IndexingError>)
    requires
        forall|p: &str| #[trigger] canonicalize_parent.requires((p,)),
    ensures
        match event_split(event_path@) {
            None => r matches Ok(None),
            Some((parent, sep, name)) => exists|arg: &str, lookup: ParentLookup|
                #![trigger canonicalize_parent.ensures((arg,), lookup)]
                arg@ == parent && canonicalize_parent.ensures((arg,), lookup) && identity_matches(
                    r,
                    canonical_root@,
                    parent,
                    sep,
                    name,
                    lookup,
                ),
        },
{
    let path = chars_of(event_path);
    let k = match find_last_separator(path.as_slice()) {
        Some(k) => k,
        None => return Ok(None),
    };
    let name = sub_chars(path.as_slice(), k + 1, path.len());
    if name.len() == 0 || eq_chars(name.as_slice(), &['.']) || eq_chars(
        name.as_slice(),
        &['.', '.'],
    ) {
        proof {
            assert(['.']@ =~= seq!['.']);
            assert(['.', '.']@ =~= seq!['.', '.']);
            assert(name@ == path@.skip(k + 1));
        }
        return Ok(None);
    }
    proof {
        assert(['.']@ =~= seq!['.']);
        assert(['.', '.']@ =~= seq!['.', '.']);
        assert(name@ =~= path@.skip(k + 1));
    }
    let parent_chars = sub_chars(path.as_slice(), 0, k);
    let sep = path[k];
    let parent = string_from_chars(parent_chars.as_slice());
    let lookup = canonicalize_parent(parent.as_str());
    let root = chars_of(canonical_root);
    let r = match &lookup {
        ParentLookup::Found(canonical) => {
            let c = chars_of(canonical.as_str());
            if path_starts_with_exec(c.as_slice(), root.as_slice()) {
                let mut joined = c.clone();
                if !(c.len() > 0 && char_is_separator(c[c.len() - 1])) {
                    joined.push(sep);
                }
                let mut i: usize = 0;
                let ghost base = joined@;
                while i < name.len()
                    invariant
                        i <= name@.len(),
                        joined@ == base + name@.take(i as int),
                    decreases name@.len() - i,
                {
                    joined.push(name[i]);
                    i += 1;
                    assert(joined@ =~= base + name@.take(i as int));
                }
                assert(name@.take(name@.len() as int) =~= name@);
                Ok(Some(string_from_chars(joined.as_slice())))
            } else {
                Ok(None)
            }
        },
        ParentLookup::NotFound => Ok(None),
        ParentLookup::Failed(reason) => Err(
            IndexingError::PathUnavailable { path: parent.clone(), reason: reason.clone() },
        ),
    };
    proof {
        assert(parent_chars@ =~= path@.take(k as int));
    }
    r
}

// ---------------------------------------------------------------------------
// Random identifiers
// ---------------------------------------------------------------------------

pub open spec fn hex_digit(n: u8) -> char {
    if n < 10 {
        ('0' as u32 + n) as char
    } else {
        ('a' as u32 + (n - 10)) as char
    }
}

/// Two lower-case hex digits per byte.
pub open spec fn hex_lower(bytes: Seq<u8>) -> Seq<char>
    decreases bytes.len(),
{
    if bytes.len() == 0 {
        seq![]
    } else {
        hex_lower(bytes.drop_last()) + seq![
            hex_digit(bytes.last() / 16),
            hex_digit(bytes.last() % 16),
        ]
    }
}

pub fn hex_digit_exec(n: u8) -> (c: char)
    requires
        n < 16,
    ensures
        c == hex_digit(n),
{
    if n < 10 {
        (48u8 + n) as char
    } else {
        (97u8 + (n - 10)) as char
    }
}

/// Formats bytes as lower-case hex.
pub fn to_hex_lower(bytes: &[u8]) -> (r: String)
    ensures
        r@ == hex_lower(bytes@),
        r@.len() == 2 * bytes@.len(),
{
    let mut out: Vec<char> = Vec::new();
    let mut i: usize = 0;
    while i < bytes.len()
        invariant
            i <= bytes@.len(),
            out@ == hex_lower(bytes@.take(i as int)),
            out@.len() == 2 * i,
        decreases bytes@.len() - i,
    {
        out.push(hex_digit_exec(bytes[i] / 16));
        out.push(hex_digit_exec(bytes[i] % 16));
        i += 1;
        assert(bytes@.take(i as int).drop_last() =~= bytes@.take(i - 1));
        assert(out@ =~= hex_lower(bytes@.take(i as int)));
    }
    assert(bytes@.take(bytes@.len() as int) =~= bytes@);
    string_from_chars(out.as_slice())
}

/// Draws sixteen bytes from `rand::rng()`. Nothing is stated of the bytes:
/// they are random.
#[verifier::external_body]
fn random_bytes() -> [u8; 16] {
    rand::rng().random::<[u8; 16]>()
}

/// A random identifier: sixteen random bytes as thirty-two lower-case hex digits.
pub fn random_id() -> (r: String)
    ensures
        exists|bytes: Seq<u8>| bytes.len() == 16 && r@ == hex_lower(bytes),
        r@.len() == 32,
{
    let bytes = random_bytes();
    to_hex_lower(&bytes)
}

// ---------------------------------------------------------------------------
// Claiming a document for parsing
// ---------------------------------------------------------------------------

/// Makes the tokens that mark a parse attempt as a document's owner.
pub trait ParseAttemptTokenGenerator {
    fn generate(&self) -> String;
}

/// Tokens drawn at random: thirty-two lower-case hex digits.
pub struct SecureParseAttemptTokenGenerator;

impl ParseAttemptTokenGenerator for SecureParseAttemptTokenGenerator {
    fn generate(&self) -> (r: String)
        ensures
            r@.len() == 32,
            exists|bytes: Seq<u8>| bytes.len() == 16 && r@ == hex_lower(bytes),
    {
        random_id()
    }
}

/// How many fresh tokens are tried before a claim gives up.
pub const MAX_PARSE_ATTEMPT_TOKEN_CLAIMS: usize = 4;

/// How one try to claim a document with a token went.
#[derive(Debug)]
pub enum TokenClaim<T> {
    Claimed(T),
    /// Another document already holds this token.
    Collision(IndexingError),
    Failed(IndexingError),
}

/// What follows one try to claim a document: another try, or the result.
#[derive(Debug)]
pub enum ClaimStep<T> {
    Retry,
    Done(Result<T, IndexingError>),
}

/// A claim is done once it succeeds or fails; a token collision asks for
/// another try with a fresh token, unless it came on the last allowed try.
pub open spec fn spec_after_token_claim<T>(outcome: TokenClaim<T>, attempt: usize) -> ClaimStep<T> {
    match outcome {
        TokenClaim::Claimed(v) => ClaimStep::Done(Ok(v)),
        TokenClaim::Collision(e) => if attempt + 1 < MAX_PARSE_ATTEMPT_TOKEN_CLAIMS {
            ClaimStep::Retry
        } else {
            ClaimStep::Done(Err(e))
        },
        TokenClaim::Failed(e) => ClaimStep::Done(Err(e)),
    }
}

/// Decides what follows try number `attempt` (counted from 0).
pub fn after_token_claim<T>(outcome: TokenClaim<T>, attempt: usize) -> (r: ClaimStep<T>)
    ensures
        r == spec_after_token_claim(outcome, attempt),
{
    match outcome {
        TokenClaim::Claimed(v) => ClaimStep::Done(Ok(v)),
        TokenClaim::Collision(e) => if attempt < MAX_PARSE_ATTEMPT_TOKEN_CLAIMS - 1 {
            ClaimStep::Retry
        } else {
            ClaimStep::Done(Err(e))
        },
        TokenClaim::Failed(e) => ClaimStep::Done(Err(e)),
    }
}

/// Whether the claim can come out this way for some token.
pub open spec fn possible_claim<T, F: Fn(&str) -> TokenClaim<T>>(claim: F, outcome: TokenClaim<T>) -> bool {
    exists|token: &str| #[trigger] claim.ensures((token,), outcome)
}

/// A run of tries that ends in `result`: each outcome one the claim can
/// give, every try but the last asking for another, the last one done.
pub open spec fn claim_run<T, F: Fn(&str) -> TokenClaim<T>>(
    claim: F,
    tries: Seq<TokenClaim<T>>,
    result: Result<T, IndexingError>,
) -> bool {
    &&& 1 <= tries.len()
    &&& forall|i: int| 0 <= i < tries.len() ==> possible_claim(claim, #[trigger] tries[i])
    &&& forall|i: int|
        0 <= i < tries.len() - 1 ==> spec_after_token_claim(#[trigger] tries[i], i as usize)
            == ClaimStep::<T>::Retry
    &&& spec_after_token_claim(tries.last(), (tries.len() - 1) as usize) == ClaimStep::Done(result)
}

/// The claimed value of a claim's result, without its token.
pub open spec fn claimed_value<T>(r: Result<(String, T), IndexingError>) -> Result<T, IndexingError> {
    match r {
        Ok((_, v)) => Ok(v),
        Err(e) => Err(e),
    }
}

/// Claims a document for a parse attempt: a fresh token each try, another
/// try only after a token collision, and at most
/// `MAX_PARSE_ATTEMPT_TOKEN_CLAIMS` tries; the last try's collision, or any
/// other failure, is the error.
pub fn claim_parse_attempt<T, G: ParseAttemptTokenGenerator, F: Fn(&str) -> TokenClaim<T>>(
    tokens: &G,
    claim: &F,
) -> (r: Result<(String, T), IndexingError>)
    requires
        forall|token: &str| #[trigger] claim.requires((token,)),
    ensures
        exists|tries: Seq<TokenClaim<T>>| #[trigger] claim_run(*claim, tries, claimed_value(r)),
        r matches Ok((token, value)) ==> exists|arg: &str|
            #![trigger claim.ensures((arg,), TokenClaim::Claimed(value))]
            arg@ == token@ && claim.ensures((arg,), TokenClaim::Claimed(value)),
{
    let mut attempt: usize = 0;
    let ghost mut tries: Seq<TokenClaim<T>> = Seq::empty();
    loop
        invariant
            attempt < MAX_PARSE_ATTEMPT_TOKEN_CLAIMS,
            tries.len() == attempt,
            forall|token: &str| #[trigger] claim.requires((token,)),
            forall|i: int| 0 <= i < tries.len() ==> possible_claim(*claim, #[trigger] tries[i]),
            forall|i: int|
                0 <= i < tries.len() ==> spec_after_token_claim(#[trigger] tries[i], i as usize)
                    == ClaimStep::<T>::Retry,
        decreases MAX_PARSE_ATTEMPT_TOKEN_CLAIMS - attempt,
    {
        let token = tokens.generate();
        let arg: &str = token.as_str();
        let outcome = claim(arg);
        proof {
            assert(claim.ensures((arg,), outcome));
            assert(possible_claim(*claim, outcome));
            tries = tries.push(outcome);
            assert(tries[attempt as int] == outcome);
        }
        let ghost last = outcome;
        match after_token_claim(outcome, attempt) {
            ClaimStep::Retry => {
                proof {
                    assert(spec_after_token_claim(tries[attempt as int], attempt) == ClaimStep::<T>::Retry);
                }
            },
            ClaimStep::Done(result) => {
                let r: Result<(String, T), IndexingError> = match result {
                    Ok(value) => {
                        proof {
                            assert(last == TokenClaim::Claimed(value));
                            assert(claim.ensures((arg,), TokenClaim::Claimed(value)));
                        }
                        Ok((token, value))
                    },
                    Err(e) => Err(e),
                };
                proof {
                    assert(claimed_value(r) == result);
                    assert(claim_run(*claim, tries, claimed_value(r)));
                }
                return r;
            },
        }
        attempt += 1;
    }
}

// ---------------------------------------------------------------------------
// Errors
// ---------------------------------------------------------------------------

#[derive(Debug, Clone, PartialEq, Eq)]
pub enum IndexingError {
    FolderNotFound(String),
    JobNotFound(String),
    InvalidState(String),
    Transition { from: JobState, to: JobState },
    PathOutsideRoot,
    MetadataOnly,
    PathUnavailable { path: String, reason: String },
    MissingDocument,
    WorkerStopped,
    AlreadyRunning(String),
    StateChanged,
    WorkerFailure(String),
    ReconciliationCancelled,
    RuntimeSettingsUnavailable,
    Discovery(String),
    Database(String),
    Serialization(String),
    Io(String),
}

pub open spec fn spec_indexing_error_code(e: IndexingError) -> Seq<char> {
    match e {
        IndexingError::FolderNotFound(_) => "INDEX_FOLDER_NOT_FOUND"@,
        IndexingError::JobNotFound(_) => "INDEX_JOB_NOT_FOUND"@,
        IndexingError::InvalidState(_) | IndexingError::Transition { .. } => "INDEX_INVALID_STATE"@,
        IndexingError::PathOutsideRoot | IndexingError::MetadataOnly => "INDEX_PATH_NOT_TRUSTED"@,
        IndexingError::PathUnavailable { .. } | IndexingError::Io(_) => "INDEX_PATH_UNAVAILABLE"@,
        IndexingError::MissingDocument => "INDEX_DOCUMENT_MISSING"@,
        IndexingError::WorkerStopped => "INDEX_WORKER_STOPPED"@,
        IndexingError::AlreadyRunning(_) => "INDEX_ALREADY_RUNNING"@,
        IndexingError::StateChanged => "INDEX_STATE_CHANGED"@,
        IndexingError::WorkerFailure(_) => "INDEX_WORKER_FAILED"@,
        IndexingError::ReconciliationCancelled => "INDEX_RECONCILIATION_CANCELLED"@,
        IndexingError::RuntimeSettingsUnavailable => "INDEX_RUNTIME_SETTINGS_UNAVAILABLE"@,
        IndexingError::Discovery(_) => "INDEX_DISCOVERY_FAILED"@,
        IndexingError::Database(_) => "INDEX_DATABASE_ERROR"@,
        IndexingError::Serialization(_) => "INDEX_SERIALIZATION_ERROR"@,
    }
}

impl IndexingError {
    pub fn code(&self) -> (r: &'static str)
        ensures
            r@ == spec_indexing_error_code(*self),
    {
        match self {
            IndexingError::FolderNotFound(_) => "INDEX_FOLDER_NOT_FOUND",
            IndexingError::JobNotFound(_) => "INDEX_JOB_NOT_FOUND",
            IndexingError::InvalidState(_) | IndexingError::Transition { .. } => "INDEX_INVALID_STATE",
            IndexingError::PathOutsideRoot | IndexingError::MetadataOnly => "INDEX_PATH_NOT_TRUSTED",
            IndexingError::PathUnavailable { .. } | IndexingError::Io(_) => "INDEX_PATH_UNAVAILABLE",
            IndexingError::MissingDocument => "INDEX_DOCUMENT_MISSING",
            IndexingError::WorkerStopped => "INDEX_WORKER_STOPPED",
            IndexingError::AlreadyRunning(_) => "INDEX_ALREADY_RUNNING",
            IndexingError::StateChanged => "INDEX_STATE_CHANGED",
            IndexingError::WorkerFailure(_) => "INDEX_WORKER_FAILED",
            IndexingError::ReconciliationCancelled => "INDEX_RECONCILIATION_CANCELLED",
            IndexingError::RuntimeSettingsUnavailable => "INDEX_RUNTIME_SETTINGS_UNAVAILABLE",
            IndexingError::Discovery(_) => "INDEX_DISCOVERY_FAILED",
            IndexingError::Database(_) => "INDEX_DATABASE_ERROR",
            IndexingError::Serialization(_) => "INDEX_SERIALIZATION_ERROR",
        }
    }
}

/// Why restoring or changing the application state failed: the error of the
/// part that failed, outside errors carried as their messages.
#[derive(Debug, Clone, PartialEq, Eq)]
pub enum StateError {
    Folder(String),
    Indexing(IndexingError),
    Watcher(String),
    Database(String),
}

// ---------------------------------------------------------------------------
// The job lifecycle
// ---------------------------------------------------------------------------

/// A job that is queued, discovering or parsing.
pub open spec fn is_active(state: JobState) -> bool {
    state == JobState::Queued || state == JobState::Discovering || state == JobState::Parsing
}

/// A job that will never run again.
pub open spec fn is_terminal(state: JobState) -> bool {
    state == JobState::Completed || state == JobState::Cancelled || state == JobState::Failed
}

/// What a user or the worker asks of a job.
#[derive(Debug, Clone, Copy, PartialEq, Eq)]
pub enum JobCommand {
    Pause,
    /// Resuming continues with parsing once discovery has finished.
    Resume { discovery_complete: bool },
    Cancel,
    Fail,
}

/// The state a command moves a job to, or why it cannot.
pub open spec fn spec_job_transition(state: JobState, command: JobCommand) -> Option<JobState> {
    match command {
        JobCommand::Pause => if is_active(state) {
            Some(JobState::Paused)
        } else {
            None
        },
        JobCommand::Resume { discovery_complete } => if state == JobState::Paused {
            Some(
                if discovery_complete {
                    JobState::Parsing
                } else {
                    JobState::Discovering
                },
            )
        } else {
            None
        },
        JobCommand::Cancel => if is_active(state) || state == JobState::Paused {
            Some(JobState::Cancelled)
        } else {
            None
        },
        JobCommand::Fail => if is_active(state) {
            Some(JobState::Failed)
        } else {
            None
        },
    }
}

pub open spec fn command_target(command: JobCommand) -> JobState {
    match command {
        JobCommand::Pause => JobState::Paused,
        JobCommand::Resume { discovery_complete } => if discovery_complete {
            JobState::Parsing
        } else {
            JobState::Discovering
        },
        JobCommand::Cancel => JobState::Cancelled,
        JobCommand::Fail => JobState::Failed,
    }
}

/// Applies a command to a job's state. A refused pause, resume or cancel
/// names the state it was refused in; a refused failure is a worker failure
/// with the worker's message.
pub fn job_transition(state: JobState, command: JobCommand, failure: &str) -> (r: Result<
    JobState,
    IndexingError,
>)
    ensures
        match spec_job_transition(state, command) {
            Some(next) => r == Ok::<JobState, IndexingError>(next),
            None => match command {
                JobCommand::Fail => r matches Err(IndexingError::WorkerFailure(m)) && m@ == failure@,
                _ => r == Err::<JobState, IndexingError>(
                    IndexingError::Transition { from: state, to: command_target(command) },
                ),
            },
        },
{
    let active = matches!(state, JobState::Queued | JobState::Discovering | JobState::Parsing);
    match command {
        JobCommand::Pause => {
            if active {
                Ok(JobState::Paused)
            } else {
                Err(IndexingError::Transition { from: state, to: JobState::Paused })
            }
        },
        JobCommand::Resume { discovery_complete } => {
            let target = if discovery_complete {
                JobState::Parsing
            } else {
                JobState::Discovering
            };
            if matches!(state, JobState::Paused) {
                Ok(target)
            } else {
                Err(IndexingError::Transition { from: state, to: target })
            }
        },
        JobCommand::Cancel => {
            if active || matches!(state, JobState::Paused) {
                Ok(JobState::Cancelled)
            } else {
                Err(IndexingError::Transition { from: state, to: JobState::Cancelled })
            }
        },
        JobCommand::Fail => {
            if active {
                Ok(JobState::Failed)
            } else {
                Err(IndexingError::WorkerFailure(failure.to_string()))
            }
        },
    }
}

/// A completed, cancelled or failed job accepts no command: its state is
/// final.
pub proof fn law_terminal_states_are_final(state: JobState, command: JobCommand)
    requires
        is_terminal(state),
    ensures
        spec_job_transition(state, command) is None,
{
}

/// Pausing an active job and resuming it brings it back to an active state,
/// which a later cancel still reaches.
pub proof fn law_pause_then_resume_is_active(
    state: JobState,
    discovery_complete: bool,
)
    requires
        is_active(state),
    ensures
        ({
            let paused = spec_job_transition(state, JobCommand::Pause);
            &&& paused == Some(JobState::Paused)
            &&& spec_job_transition(
                JobState::Paused,
                JobCommand::Resume { discovery_complete },
            ) matches Some(resumed) && is_active(resumed)
            &&& spec_job_transition(JobState::Paused, JobCommand::Cancel) == Some(JobState::Cancelled)
        }),
{
}

/// Resuming a paused job continues with parsing exactly when discovery had
/// finished, and with discovery otherwise.
pub proof fn law_resume_respects_discovery(discovery_complete: bool)
    ensures
        spec_job_transition(JobState::Paused, JobCommand::Resume { discovery_complete })
            == Some(
            if discovery_complete {
                JobState::Parsing
            } else {
                JobState::Discovering
            },
        ),
{
}


// ---------------------------------------------------------------------------
// A job's status as reported
// ---------------------------------------------------------------------------

/// The most error details a finished job's status lists.
pub const MAX_TERMINAL_ERROR_DETAILS: usize = 100;

/// A job's stored row.
#[derive(Debug, Clone)]
pub struct JobRow {
    pub state: String,
    pub total_files: i64,
    pub completed_files: i64,
    pub last_path: Option<String>,
    pub origin: String,
}

/// Whether a job in this state lists its error details: only once it ended.
pub fn lists_error_details(state: JobState) -> (r: bool)
    ensures
        r == is_terminal(state),
{
    match state {
        JobState::Completed | JobState::Cancelled | JobState::Failed => true,
        _ => false,
    }
}

fn count_of(value: i64) -> (r: u64)
    ensures
        r == (if value >= 0 {
            value as int
        } else {
            0
        }),
{
    if value >= 0 {
        value as u64
    } else {
        0
    }
}

/// The status reported for a job from its stored row, its error count and
/// the error details read for it (oldest first). Negative counts read as
/// zero; details are listed only for a job that ended, at most
/// `MAX_TERMINAL_ERROR_DETAILS` of them; a job not started by the user is
/// silent.
pub fn index_status_from_row(
    job_id: &str,
    row: Option<JobRow>,
    error_count: i64,
    details: Vec<IndexFailure>,
) -> (r: Result<IndexStatus, IndexingError>)
    ensures
        match row {
            None => r matches Err(IndexingError::JobNotFound(id)) && id@ == job_id@,
            Some(row) => match job_state_from_sql(row.state@) {
                None => r matches Err(IndexingError::InvalidState(v)) && v@ == row.state@,
                Some(state) => r matches Ok(status) && {
                    &&& status.job_id@ == job_id@
                    &&& status.state == state
                    &&& status.total_files == (if row.total_files >= 0 {
                        row.total_files as int
                    } else {
                        0
                    })
                    &&& status.completed_files == (if row.completed_files >= 0 {
                        row.completed_files as int
                    } else {
                        0
                    })
                    &&& status.current_path == row.last_path
                    &&& status.error_count == (if error_count >= 0 {
                        error_count as int
                    } else {
                        0
                    })
                    &&& status.errors@ == (if is_terminal(state) {
                        details@.take(
                            if details@.len() <= MAX_TERMINAL_ERROR_DETAILS {
                                details@.len() as int
                            } else {
                                MAX_TERMINAL_ERROR_DETAILS as int
                            },
                        )
                    } else {
                        Seq::empty()
                    })
                    &&& status.silent == (row.origin@ != "manual"@)
                },
            },
        },
{
    let row = match row {
        Some(row) => row,
        None => return Err(IndexingError::JobNotFound(String::from_str(job_id))),
    };
    let state = match JobState::from_sql(row.state.as_str()) {
        Ok(state) => state,
        Err(e) => return Err(e),
    };
    let mut errors: Vec<IndexFailure> = Vec::new();
    if lists_error_details(state) {
        let mut details = details;
        details.truncate(MAX_TERMINAL_ERROR_DETAILS);
        errors = details;
    }
    let manual = eq_literal(chars_of(row.origin.as_str()).as_slice(), "manual");
    Ok(IndexStatus {
        job_id: String::from_str(job_id),
        state,
        total_files: count_of(row.total_files),
        completed_files: count_of(row.completed_files),
        current_path: row.last_path,
        error_count: count_of(error_count),
        errors,
        silent: !manual,
    })
}

} // verus!

