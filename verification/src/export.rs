//! Exporting search results and Markdown: the request and destination
//! rules, the CSV text, and the name of the temporary file written first.
use vstd::prelude::*;
use rand::RngExt;

use crate::diagnostics::{contains_parent_component, has_parent_component};
use crate::models::SearchMatchKind;
use crate::ocr::eq_literal;
use crate::paths::{extension_of, file_name_of, is_separator, spec_extension, spec_file_name};
use crate::retrieval::{decimal, decimal_exec};
use crate::text::{
    ascii_lower_seq, char_is_control, char_is_whitespace, chars_of, extend_chars, is_control,
    is_unicode_whitespace, join, join_chars, string_from_chars,
};

verus! {

broadcast use vstd::string::group_string_axioms;

#[derive(Debug, Clone, Copy, PartialEq, Eq)]
pub enum ExportFormat {
    Csv,
    Xlsx,
    Markdown,
}

pub open spec fn spec_format_extension(format: ExportFormat) -> Seq<char> {
    match format {
        ExportFormat::Csv => "csv"@,
        ExportFormat::Xlsx => "xlsx"@,
        ExportFormat::Markdown => "md"@,
    }
}

impl ExportFormat {
    pub fn extension(self) -> (r: &'static str)
        ensures
            r@ == spec_format_extension(self),
    {
        match self {
            ExportFormat::Csv => "csv",
            ExportFormat::Xlsx => "xlsx",
            ExportFormat::Markdown => "md",
        }
    }
}

#[derive(Debug, Clone, Copy, PartialEq, Eq)]
pub enum ExportOutcome {
    Written,
    Cancelled,
}

/// One search hit as it is exported. The score is carried as the text it is
/// written as.
#[derive(Debug, Clone, PartialEq, Eq)]
pub struct ExportRow {
    pub file_name: String,
    pub path: String,
    pub extension: String,
    pub size_bytes: u64,
    pub modified_at: String,
    pub snippet: Option<String>,
    pub score_text: String,
    pub match_kind: SearchMatchKind,
}

#[derive(Debug, Clone, PartialEq, Eq)]
pub enum ExportRequest {
    SearchResults { rows: Vec<ExportRow> },
    MarkdownDocument { file_name: String, markdown: String },
}

/// Why an export failed; system failures carry their messages.
#[derive(Debug, Clone, PartialEq, Eq)]
pub enum ExportError {
    RequestFormatMismatch,
    InvalidDestination(String),
    InvalidExtension { expected: String },
    DestinationUnavailable(String),
    Workbook(String),
    TooManyRows,
    TemporaryNameExhausted,
    Write(String),
}

pub open spec fn spec_export_code(e: ExportError) -> Seq<char> {
    match e {
        ExportError::RequestFormatMismatch => "EXPORT_FORMAT_MISMATCH"@,
        ExportError::InvalidDestination(_) | ExportError::InvalidExtension { .. } => "EXPORT_DESTINATION_INVALID"@,
        ExportError::DestinationUnavailable(_) => "EXPORT_DESTINATION_UNAVAILABLE"@,
        ExportError::Workbook(_) => "EXPORT_RENDER_FAILED"@,
        ExportError::TooManyRows => "EXPORT_TOO_LARGE"@,
        ExportError::TemporaryNameExhausted | ExportError::Write(_) => "EXPORT_WRITE_FAILED"@,
    }
}

impl ExportError {
    pub fn code(&self) -> (r: &'static str)
        ensures
            r@ == spec_export_code(*self),
    {
        match self {
            ExportError::RequestFormatMismatch => "EXPORT_FORMAT_MISMATCH",
            ExportError::InvalidDestination(_) | ExportError::InvalidExtension { .. } => {
                "EXPORT_DESTINATION_INVALID"
            },
            ExportError::DestinationUnavailable(_) => "EXPORT_DESTINATION_UNAVAILABLE",
            ExportError::Workbook(_) => "EXPORT_RENDER_FAILED",
            ExportError::TooManyRows => "EXPORT_TOO_LARGE",
            ExportError::TemporaryNameExhausted | ExportError::Write(_) => "EXPORT_WRITE_FAILED",
        }
    }
}

/// Search results go to CSV or Excel, a Markdown document to Markdown.
pub open spec fn request_fits_format(request: ExportRequest, format: ExportFormat) -> bool {
    match request {
        ExportRequest::SearchResults { .. } => format == ExportFormat::Csv || format
            == ExportFormat::Xlsx,
        ExportRequest::MarkdownDocument { .. } => format == ExportFormat::Markdown,
    }
}

pub fn validate_request_format(request: &ExportRequest, format: ExportFormat) -> (r: Result<
    (),
    ExportError,
>)
    ensures
        request_fits_format(*request, format) ==> r is Ok,
        !request_fits_format(*request, format) ==> r == Err::<(), ExportError>(
            ExportError::RequestFormatMismatch,
        ),
{
    match (request, format) {
        (ExportRequest::SearchResults { .. }, ExportFormat::Csv) => Ok(()),
        (ExportRequest::SearchResults { .. }, ExportFormat::Xlsx) => Ok(()),
        (ExportRequest::MarkdownDocument { .. }, ExportFormat::Markdown) => Ok(()),
        _ => Err(ExportError::RequestFormatMismatch),
    }
}

// ---------------------------------------------------------------------------
// Destinations
// ---------------------------------------------------------------------------

/// An absolute Windows path: a drive letter, a colon and a separator, or two
/// leading separators (a UNC or device path).
pub open spec fn is_absolute_path(p: Seq<char>) -> bool {
    ||| (p.len() >= 3 && crate::text::is_ascii_alnum(p[0]) && !crate::text::is_ascii_digit(p[0])
        && p[1] == ':' && is_separator(p[2]))
    ||| (p.len() >= 2 && is_separator(p[0]) && is_separator(p[1]))
}

pub fn is_absolute_exec(p: &[char]) -> (r: bool)
    ensures
        r == is_absolute_path(p@),
{
    (p.len() >= 3 && (('a' <= p[0] && p[0] <= 'z') || ('A' <= p[0] && p[0] <= 'Z')) && p[1] == ':'
        && (p[2] == '/' || p[2] == '\\')) || (p.len() >= 2 && (p[0] == '/' || p[0] == '\\') && (
    p[1] == '/' || p[1] == '\\'))
}

pub open spec fn any_control(s: Seq<char>) -> bool {
    exists|i: int| 0 <= i < s.len() && is_control(#[trigger] s[i])
}

/// What is wrong with a destination's text, checked in order, if anything.
pub open spec fn spec_destination_problem(destination: Seq<char>, format: ExportFormat) -> Option<
    Result<Seq<char>, Seq<char>>,
> {
    if !is_absolute_path(destination) {
        Some(Ok("destination must be absolute"@))
    } else if has_parent_component(destination) {
        Some(Ok("destination cannot contain parent traversal"@))
    } else {
        match spec_file_name(destination) {
            None => Some(Ok("file name is invalid"@)),
            Some(name) => if name.len() == 0 {
                Some(Ok("file name is invalid"@))
            } else if any_control(name) {
                Some(Ok("file name contains control characters"@))
            } else {
                let ext = match spec_extension(destination) {
                    Some(e) => e,
                    None => seq![],
                };
                if ascii_lower_seq(ext) != ascii_lower_seq(spec_format_extension(format)) {
                    Some(Err(spec_format_extension(format)))
                } else {
                    None
                }
            },
        }
    }
}

/// Checks a destination's text: absolute, without `..`, with a file name
/// free of control characters and the format's extension in any ASCII case.
/// `Ok` in the problem is an invalid destination with its message, `Err` a
/// wrong extension with the one expected.
pub fn check_destination(destination: &str, format: ExportFormat) -> (r: Result<(), ExportError>)
    ensures
        match spec_destination_problem(destination@, format) {
            None => r is Ok,
            Some(Ok(m)) => r matches Err(ExportError::InvalidDestination(s)) && s@ == m,
            Some(Err(e)) => r matches Err(ExportError::InvalidExtension { expected }) && expected@
                == e,
        },
{
    let d = chars_of(destination);
    if !is_absolute_exec(d.as_slice()) {
        return Err(ExportError::InvalidDestination(String::from_str("destination must be absolute")));
    }
    if contains_parent_component(d.as_slice()) {
        return Err(
            ExportError::InvalidDestination(
                String::from_str("destination cannot contain parent traversal"),
            ),
        );
    }
    let name = match file_name_of(d.as_slice()) {
        None => {
            return Err(ExportError::InvalidDestination(String::from_str("file name is invalid")));
        },
        Some(n) => n,
    };
    if name.len() == 0 {
        return Err(ExportError::InvalidDestination(String::from_str("file name is invalid")));
    }
    let mut i: usize = 0;
    while i < name.len()
        invariant
            i <= name@.len(),
            d@ == destination@,
            is_absolute_path(destination@),
            !has_parent_component(destination@),
            spec_file_name(destination@) == Some(name@),
            name@.len() > 0,
            forall|j: int| 0 <= j < i ==> !is_control(#[trigger] name@[j]),
        decreases name@.len() - i,
    {
        if char_is_control(name[i]) {
            assert(is_control(name@[i as int]));
            return Err(
                ExportError::InvalidDestination(
                    String::from_str("file name contains control characters"),
                ),
            );
        }
        i += 1;
    }
    let ext = match extension_of(d.as_slice()) {
        Some(e) => e,
        None => Vec::new(),
    };
    let wanted = chars_of(format.extension());
    if !crate::diagnostics::paths_equal_exec(ext.as_slice(), wanted.as_slice()) {
        return Err(ExportError::InvalidExtension { expected: format.extension().to_string() });
    }
    Ok(())
}

/// The checks made before anything is rendered: no destination means the
/// user cancelled; otherwise the request must fit the format and the
/// destination's text must pass.
pub fn prepare_export(request: &ExportRequest, format: ExportFormat, destination: Option<&str>) -> (r:
    Result<ExportOutcome, ExportError>)
    ensures
        destination is None ==> r == Ok::<ExportOutcome, ExportError>(ExportOutcome::Cancelled),
        destination is Some && !request_fits_format(*request, format) ==> r == Err::<
            ExportOutcome,
            ExportError,
        >(ExportError::RequestFormatMismatch),
        destination matches Some(d) ==> (request_fits_format(*request, format) ==> match spec_destination_problem(d@, format) {
            None => r == Ok::<ExportOutcome, ExportError>(ExportOutcome::Written),
            Some(Ok(m)) => r matches Err(ExportError::InvalidDestination(s)) && s@ == m,
            Some(Err(e)) => r matches Err(ExportError::InvalidExtension { expected }) && expected@
                == e,
        }),
{
    let destination = match destination {
        None => {
            return Ok(ExportOutcome::Cancelled);
        },
        Some(d) => d,
    };
    validate_request_format(request, format)?;
    check_destination(destination, format)?;
    Ok(ExportOutcome::Written)
}

// ---------------------------------------------------------------------------
// CSV
// ---------------------------------------------------------------------------

pub open spec fn significant(c: char) -> bool {
    !is_unicode_whitespace(c) && !is_control(c)
}

/// The first character that is neither white space nor a control character.
pub open spec fn first_significant(s: Seq<char>) -> Option<char>
    decreases s.len(),
{
    if s.len() == 0 {
        None
    } else if significant(s[0]) {
        Some(s[0])
    } else {
        first_significant(s.drop_first())
    }
}

/// A text cell: one that would start a spreadsheet formula is prefixed with
/// `'`.
pub open spec fn spec_csv_text(s: Seq<char>) -> Seq<char> {
    match first_significant(s) {
        Some(c) => if c == '=' || c == '+' || c == '-' || c == '@' {
            seq!['\''] + s
        } else {
            s
        },
        None => s,
    }
}

proof fn lemma_first_significant_at(s: Seq<char>, i: int)
    requires
        0 <= i <= s.len(),
        forall|j: int| 0 <= j < i ==> !significant(#[trigger] s[j]),
    ensures
        first_significant(s) == first_significant(s.skip(i)),
    decreases i,
{
    if i > 0 {
        assert forall|j: int| 0 <= j < i - 1 implies !significant(#[trigger] s.drop_first()[j]) by {
            assert(s.drop_first()[j] == s[j + 1]);
        }
        lemma_first_significant_at(s.drop_first(), i - 1);
        assert(s.drop_first().skip(i - 1) =~= s.skip(i));
    } else {
        assert(s.skip(0) =~= s);
    }
}

pub fn csv_text(value: &str) -> (r: Vec<char>)
    ensures
        r@ == spec_csv_text(value@),
{
    let v = chars_of(value);
    let mut i: usize = 0;
    while i < v.len() && !(!char_is_whitespace(v[i]) && !char_is_control(v[i]))
        invariant
            i <= v@.len(),
            forall|j: int| 0 <= j < i ==> !significant(#[trigger] v@[j]),
        decreases v@.len() - i,
    {
        i += 1;
    }
    proof {
        lemma_first_significant_at(v@, i as int);
        if i < v@.len() {
            assert(v@.skip(i as int)[0] == v@[i as int]);
        } else {
            assert(v@.skip(i as int).len() == 0);
        }
    }
    if i < v.len() && (v[i] == '=' || v[i] == '+' || v[i] == '-' || v[i] == '@') {
        let mut out: Vec<char> = Vec::new();
        out.push('\'');
        extend_chars(&mut out, v.as_slice());
        assert(out@ =~= seq!['\''] + v@);
        out
    } else {
        v
    }
}

pub open spec fn needs_quotes(s: Seq<char>) -> bool {
    exists|i: int| 0 <= i < s.len() && (#[trigger] s[i] == ',' || s[i] == '"' || s[i] == '\r'
        || s[i] == '\n')
}

/// Every `"` doubled.
pub open spec fn double_quotes(s: Seq<char>) -> Seq<char>
    decreases s.len(),
{
    if s.len() == 0 {
        seq![]
    } else if s.last() == '"' {
        double_quotes(s.drop_last()) + seq!['"', '"']
    } else {
        double_quotes(s.drop_last()).push(s.last())
    }
}

/// A cell in double quotes, with inner quotes doubled, when it holds a
/// comma, a quote or a line break.
pub open spec fn spec_csv_quote(s: Seq<char>) -> Seq<char> {
    if needs_quotes(s) {
        seq!['"'] + double_quotes(s) + seq!['"']
    } else {
        s
    }
}

pub fn csv_quote(value: &[char]) -> (r: Vec<char>)
    ensures
        r@ == spec_csv_quote(value@),
{
    let mut needs = false;
    let mut i: usize = 0;
    while i < value.len()
        invariant
            i <= value@.len(),
            needs == exists|j: int| 0 <= j < i && (#[trigger] value@[j] == ',' || value@[j] == '"'
                || value@[j] == '\r' || value@[j] == '\n'),
        decreases value@.len() - i,
    {
        let c = value[i];
        if c == ',' || c == '"' || c == '\r' || c == '\n' {
            needs = true;
        }
        i += 1;
    }
    if !needs {
        let mut out: Vec<char> = Vec::new();
        extend_chars(&mut out, value);
        assert(out@ =~= value@);
        return out;
    }
    double_quoted(value)
}

/// The value in double quotes with each inner quote doubled.
pub fn double_quoted(value: &[char]) -> (r: Vec<char>)
    ensures
        r@ == seq!['"'] + double_quotes(value@) + seq!['"'],
{
    let mut out: Vec<char> = Vec::new();
    out.push('"');
    let mut k: usize = 0;
    while k < value.len()
        invariant
            k <= value@.len(),
            out@ == seq!['"'] + double_quotes(value@.take(k as int)),
        decreases value@.len() - k,
    {
        if value[k] == '"' {
            out.push('"');
            out.push('"');
        } else {
            out.push(value[k]);
        }
        proof {
            assert(value@.take(k + 1).drop_last() =~= value@.take(k as int));
        }
        k += 1;
        assert(out@ =~= seq!['"'] + double_quotes(value@.take(k as int)));
    }
    out.push('"');
    assert(value@.take(value@.len() as int) =~= value@);
    out
}

pub open spec fn spec_match_kind_name(kind: SearchMatchKind) -> Seq<char> {
    match kind {
        SearchMatchKind::Filename => "filename"@,
        SearchMatchKind::Content => "content"@,
        SearchMatchKind::Both => "both"@,
        SearchMatchKind::Metadata => "metadata"@,
    }
}

pub fn match_kind_name(kind: SearchMatchKind) -> (r: &'static str)
    ensures
        r@ == spec_match_kind_name(kind),
{
    match kind {
        SearchMatchKind::Filename => "filename",
        SearchMatchKind::Content => "content",
        SearchMatchKind::Both => "both",
        SearchMatchKind::Metadata => "metadata",
    }
}

pub open spec fn snippet_text(snippet: Option<String>) -> Seq<char> {
    match snippet {
        Some(s) => s@,
        None => seq![],
    }
}

/// The cells of one row, quoted.
pub open spec fn spec_row_cells(row: ExportRow) -> Seq<Seq<char>> {
    seq![
        spec_csv_quote(spec_csv_text(row.file_name@)),
        spec_csv_quote(spec_csv_text(row.path@)),
        spec_csv_quote(spec_csv_text(row.extension@)),
        spec_csv_quote(decimal(row.size_bytes as nat)),
        spec_csv_quote(spec_csv_text(row.modified_at@)),
        spec_csv_quote(spec_csv_text(snippet_text(row.snippet))),
        spec_csv_quote(row.score_text@),
        spec_csv_quote(spec_match_kind_name(row.match_kind)),
    ]
}

pub open spec fn spec_csv_header() -> Seq<char> {
    "\u{feff}fileName,path,extension,sizeBytes,modifiedAt,excerpt,score,matchKind\r\n"@
}

/// The rows after the header, each ended by CR LF.
pub open spec fn spec_csv_rows(rows: Seq<ExportRow>) -> Seq<char>
    decreases rows.len(),
{
    if rows.len() == 0 {
        seq![]
    } else {
        spec_csv_rows(rows.drop_last()) + join(spec_row_cells(rows.last()), seq![','])
            + seq!['\r', '\n']
    }
}

/// The CSV text of search results: a byte-order mark and a header, then one
/// line per hit.
pub open spec fn spec_render_csv(rows: Seq<ExportRow>) -> Seq<char> {
    spec_csv_header() + spec_csv_rows(rows)
}

fn row_cells(row: &ExportRow) -> (r: Vec<Vec<char>>)
    ensures
        r@.map_values(|p: Vec<char>| p@) == spec_row_cells(*row),
{
    let c0 = csv_quote(csv_text(row.file_name.as_str()).as_slice());
    let c1 = csv_quote(csv_text(row.path.as_str()).as_slice());
    let c2 = csv_quote(csv_text(row.extension.as_str()).as_slice());
    let c3 = csv_quote(decimal_exec(row.size_bytes).as_slice());
    let c4 = csv_quote(csv_text(row.modified_at.as_str()).as_slice());
    let snippet = match &row.snippet {
        Some(s) => csv_text(s.as_str()),
        None => csv_text(""),
    };
    proof {
        reveal_strlit("");
        assert(snippet@ == spec_csv_text(snippet_text(row.snippet)));
    }
    let c5 = csv_quote(snippet.as_slice());
    let c6 = csv_quote(chars_of(row.score_text.as_str()).as_slice());
    let c7 = csv_quote(chars_of(match_kind_name(row.match_kind)).as_slice());
    let mut cells: Vec<Vec<char>> = Vec::new();
    cells.push(c0);
    cells.push(c1);
    cells.push(c2);
    cells.push(c3);
    cells.push(c4);
    cells.push(c5);
    cells.push(c6);
    cells.push(c7);
    let ghost expected = spec_row_cells(*row);
    assert(cells@.map_values(|p: Vec<char>| p@) =~= expected) by {
        assert(cells@[0]@ == expected[0]);
        assert(cells@[1]@ == expected[1]);
        assert(cells@[2]@ == expected[2]);
        assert(cells@[3]@ == expected[3]);
        assert(cells@[4]@ == expected[4]);
        assert(cells@[5]@ == expected[5]);
        assert(cells@[6]@ == expected[6]);
        assert(cells@[7]@ == expected[7]);
    }
    cells
}

pub fn render_csv(rows: &Vec<ExportRow>) -> (r: String)
    ensures
        r@ == spec_render_csv(rows@),
{
    let mut out = chars_of(
        "\u{feff}fileName,path,extension,sizeBytes,modifiedAt,excerpt,score,matchKind\r\n",
    );
    let ghost header = out@;
    let mut i: usize = 0;
    while i < rows.len()
        invariant
            i <= rows@.len(),
            header == spec_csv_header(),
            out@ == header + spec_csv_rows(rows@.take(i as int)),
        decreases rows@.len() - i,
    {
        let cells = row_cells(&rows[i]);
        let line = join_chars(&cells, &[',']);
        proof {
            assert([',']@ =~= seq![',']);
        }
        extend_chars(&mut out, line.as_slice());
        let crlf: [char; 2] = ['\r', '\n'];
        extend_chars(&mut out, &crlf);
        proof {
            assert(crlf@ =~= seq!['\r', '\n']);
            assert(rows@.take(i + 1).drop_last() =~= rows@.take(i as int));
            assert(rows@.take(i + 1).last() == rows@[i as int]);
        }
        i += 1;
        assert(out@ =~= header + spec_csv_rows(rows@.take(i as int)));
    }
    assert(rows@.take(rows@.len() as int) =~= rows@);
    string_from_chars(out.as_slice())
}

// ---------------------------------------------------------------------------
// The temporary file
// ---------------------------------------------------------------------------

pub open spec fn hex_char(d: nat) -> char {
    if d < 10 {
        ((d + 48) as u32) as char
    } else {
        ((d + 87) as u32) as char
    }
}

/// `n` in `width` lower-case hex digits, most significant first.
pub open spec fn hex_fixed(n: nat, width: nat) -> Seq<char>
    decreases width,
{
    if width == 0 {
        seq![]
    } else {
        hex_fixed(n / 16, (width - 1) as nat).push(hex_char(n % 16))
    }
}

fn hex_fixed_exec(n: u64, width: u32) -> (r: Vec<char>)
    ensures
        r@ == hex_fixed(n as nat, width as nat),
    decreases width,
{
    if width == 0 {
        Vec::new()
    } else {
        let mut v = hex_fixed_exec(n / 16, width - 1);
        let d = n % 16;
        let c: char = if d < 10 {
            ((d + 48) as u8) as char
        } else {
            ((d + 87) as u8) as char
        };
        v.push(c);
        v
    }
}

/// The temporary file an export is written to before it replaces the
/// destination: `.{file name}.{16 hex digits}.tmp`.
pub open spec fn spec_temporary_name(file_name: Seq<char>, suffix: u64) -> Seq<char> {
    seq!['.'] + file_name + seq!['.'] + hex_fixed(suffix as nat, 16) + ".tmp"@
}

pub fn temporary_name(file_name: &str, suffix: u64) -> (r: String)
    ensures
        r@ == spec_temporary_name(file_name@, suffix),
{
    let mut out: Vec<char> = Vec::new();
    out.push('.');
    extend_chars(&mut out, chars_of(file_name).as_slice());
    out.push('.');
    extend_chars(&mut out, hex_fixed_exec(suffix, 16).as_slice());
    extend_chars(&mut out, chars_of(".tmp").as_slice());
    string_from_chars(out.as_slice())
}

/// Draws a random `u64` from `rand::rng()`. Nothing is stated of it: it is
/// random.
#[verifier::external_body]
fn random_u64() -> u64 {
    rand::rng().random::<u64>()
}

/// A fresh temporary name for an export: a random suffix, so whatever was
/// drawn, the name has the temporary form for this file name.
pub fn random_temporary_name(file_name: &str) -> (r: String)
    ensures
        exists|suffix: u64| r@ == spec_temporary_name(file_name@, suffix),
{
    let suffix = random_u64();
    temporary_name(file_name, suffix)
}


/// A spreadsheet never reads an exported text cell as a formula: its first
/// significant character is never `=`, `+`, `-` or `@`.
pub proof fn law_csv_cells_never_start_formulas(s: Seq<char>)
    ensures
        !(first_significant(spec_csv_text(s)) matches Some(c) && (c == '=' || c == '+' || c == '-'
            || c == '@')),
{
    let t = spec_csv_text(s);
    if t != s {
        assert(t[0] == '\'');
        assert(significant('\''));
        assert(first_significant(t) == Some('\''));
    }
}

/// Whether a character would end or split a CSV field: a comma, a double
/// quote, a carriage return or a line feed.
pub open spec fn breaks_csv_field(c: char) -> bool {
    c == ',' || c == '"' || c == '\r' || c == '\n'
}

/// A CSV cell holding a comma, a double quote, a carriage return or a line
/// feed is written in double quotes with each inner quote doubled; any other
/// cell is written as it is.
pub proof fn law_csv_cells_that_could_split_are_quoted(s: Seq<char>)
    ensures
        (exists|i: int| 0 <= i < s.len() && breaks_csv_field(#[trigger] s[i])) ==> spec_csv_quote(s)
            == seq!['"'] + double_quotes(s) + seq!['"'],
        (forall|i: int| 0 <= i < s.len() ==> !breaks_csv_field(#[trigger] s[i])) ==> spec_csv_quote(s)
            == s,
{
    if exists|i: int| 0 <= i < s.len() && breaks_csv_field(#[trigger] s[i]) {
        let i = choose|i: int| 0 <= i < s.len() && breaks_csv_field(#[trigger] s[i]);
        assert(needs_quotes(s));
    } else {
        if needs_quotes(s) {
            let i = choose|i: int| 0 <= i < s.len() && (#[trigger] s[i] == ',' || s[i] == '"' || s[i]
                == '\r' || s[i] == '\n');
            assert(breaks_csv_field(s[i]));
        }
    }
}

/// Every cell of an exported row stays one CSV field: a written cell that
/// holds a comma, a double quote, a carriage return or a line feed begins
/// and ends with a double quote, so no hit is split across records.
pub proof fn law_csv_rows_keep_each_cell_one_field(row: ExportRow, k: int)
    requires
        0 <= k < 8,
    ensures
        ({
            let cell = spec_row_cells(row)[k];
            (exists|i: int| 0 <= i < cell.len() && breaks_csv_field(#[trigger] cell[i])) ==> cell.len()
                >= 2 && cell[0] == '"' && cell[cell.len() - 1] == '"'
        }),
{
    let cells = spec_row_cells(row);
    let raw = if k == 0 {
        spec_csv_text(row.file_name@)
    } else if k == 1 {
        spec_csv_text(row.path@)
    } else if k == 2 {
        spec_csv_text(row.extension@)
    } else if k == 3 {
        decimal(row.size_bytes as nat)
    } else if k == 4 {
        spec_csv_text(row.modified_at@)
    } else if k == 5 {
        spec_csv_text(snippet_text(row.snippet))
    } else if k == 6 {
        row.score_text@
    } else {
        spec_match_kind_name(row.match_kind)
    };
    assert(cells[k] == spec_csv_quote(raw));
    law_csv_cells_that_could_split_are_quoted(raw);
    let cell = cells[k];
    if exists|i: int| 0 <= i < cell.len() && breaks_csv_field(#[trigger] cell[i]) {
        if !(exists|i: int| 0 <= i < raw.len() && breaks_csv_field(#[trigger] raw[i])) {
            assert(cell == raw);
        }
        let q = seq!['"'] + double_quotes(raw) + seq!['"'];
        assert(cell == q);
        assert(q[0] == '"');
        assert(q[q.len() - 1] == '"');
    }
}
} // verus!
