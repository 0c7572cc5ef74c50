//! Search request rules shared by the query parser and the search repository.
use vstd::prelude::*;

use crate::models::{SearchMode, TermMode};
use crate::ocr::eq_literal;
use crate::text::chars_of;

verus! {

broadcast use vstd::string::group_string_axioms;

#[derive(Debug, Clone, PartialEq, Eq)]
pub enum SearchError {
    InvalidQuery(String),
    InvalidRequest(String),
    Database(String),
    Serialization(String),
    Cancelled,
}

pub open spec fn spec_search_error_code(e: SearchError) -> Seq<char> {
    match e {
        SearchError::InvalidQuery(_) => "SEARCH_QUERY_INVALID"@,
        SearchError::InvalidRequest(_) => "SEARCH_REQUEST_INVALID"@,
        SearchError::Database(_) => "SEARCH_DATABASE_FAILED"@,
        SearchError::Serialization(_) => "SEARCH_HISTORY_FAILED"@,
        SearchError::Cancelled => "SEARCH_CANCELLED"@,
    }
}

/// Whether `e` rejects a request with exactly this message.
pub open spec fn is_invalid_request(e: SearchError, message: Seq<char>) -> bool {
    e matches SearchError::InvalidRequest(m) && m@ == message
}

impl SearchError {
    pub fn invalid_query(message: &str) -> (r: SearchError)
        ensures
            r matches SearchError::InvalidQuery(m) && m@ == message@,
    {
        SearchError::InvalidQuery(String::from_str(message))
    }

    pub fn invalid_request(message: &str) -> (r: SearchError)
        ensures
            is_invalid_request(r, message@),
    {
        SearchError::InvalidRequest(String::from_str(message))
    }

    pub fn code(&self) -> (r: &'static str)
        ensures
            r@ == spec_search_error_code(*self),
    {
        match self {
            SearchError::InvalidQuery(_) => "SEARCH_QUERY_INVALID",
            SearchError::InvalidRequest(_) => "SEARCH_REQUEST_INVALID",
            SearchError::Database(_) => "SEARCH_DATABASE_FAILED",
            SearchError::Serialization(_) => "SEARCH_HISTORY_FAILED",
            SearchError::Cancelled => "SEARCH_CANCELLED",
        }
    }
}

/// Whether a request identifier is 1 to 128 ASCII letters, digits, `-` or `_`.
pub open spec fn valid_request_id(id: Seq<char>) -> bool {
    &&& 0 < id.len() <= 128
    &&& forall|i: int| 0 <= i < id.len() ==> is_request_id_char(#[trigger] id[i])
}

pub open spec fn is_request_id_char(c: char) -> bool {
    crate::text::is_ascii_alnum(c) || c == '-' || c == '_'
}

/// Checks a request identifier character by character.
pub fn request_id_is_valid(request_id: &str) -> (r: bool)
    ensures
        r == valid_request_id(request_id@),
{
    let id = chars_of(request_id);
    if id.len() == 0 || id.len() > 128 {
        return false;
    }
    let mut i: usize = 0;
    while i < id.len()
        invariant
            i <= id@.len(),
            id@ == request_id@,
            0 < id@.len() <= 128,
            forall|j: int| 0 <= j < i ==> is_request_id_char(#[trigger] id@[j]),
        decreases id@.len() - i,
    {
        let c = id[i];
        if !(crate::text::char_is_ascii_alnum(c) || c == '-' || c == '_') {
            assert(!is_request_id_char(id@[i as int]));
            return false;
        }
        i += 1;
    }
    true
}

/// Rejects a search request identifier that is not 1 to 128 ASCII letters,
/// digits, `-` or `_`.
pub fn validate_request_id(request_id: &str) -> (r: Result<(), SearchError>)
    ensures
        valid_request_id(request_id@) ==> r is Ok,
        !valid_request_id(request_id@) ==> (r matches Err(e) && is_invalid_request(
            e,
            "search request identifier must be 1-128 ASCII letters, numbers, '-' or '_'"@,
        )),
{
    if request_id_is_valid(request_id) {
        Ok(())
    } else {
        Err(
            SearchError::invalid_request(
                "search request identifier must be 1-128 ASCII letters, numbers, '-' or '_'",
            ),
        )
    }
}

/// The ORDER BY clause for a sort name; keyword searches rank by score.
pub open spec fn spec_sort_clause(sort: Seq<char>, has_score: bool) -> Option<Seq<char>> {
    if sort == "relevance"@ && has_score {
        Some("score ASC, d.modified_at DESC, d.id ASC"@)
    } else if sort == "confidence"@ && has_score {
        Some("score ASC, d.id ASC"@)
    } else if sort == "relevance"@ {
        Some("d.file_name COLLATE NOCASE ASC, d.id ASC"@)
    } else if sort == "newest"@ {
        Some("d.modified_at DESC, d.id ASC"@)
    } else if sort == "oldest"@ {
        Some("d.modified_at ASC, d.id ASC"@)
    } else if sort == "name"@ {
        Some("d.file_name COLLATE NOCASE ASC, d.id ASC"@)
    } else if sort == "size"@ {
        Some("d.size_bytes DESC, d.id ASC"@)
    } else {
        None
    }
}

pub fn sort_clause(sort: &str, has_score: bool) -> (r: Result<&'static str, SearchError>)
    ensures
        match spec_sort_clause(sort@, has_score) {
            Some(clause) => r matches Ok(c) && c@ == clause,
            None => r matches Err(e) && is_invalid_request(e, "unsupported search sort"@),
        },
{
    let s = chars_of(sort);
    let s = s.as_slice();
    if eq_literal(s, "relevance") && has_score {
        Ok("score ASC, d.modified_at DESC, d.id ASC")
    } else if eq_literal(s, "confidence") && has_score {
        Ok("score ASC, d.id ASC")
    } else if eq_literal(s, "relevance") {
        Ok("d.file_name COLLATE NOCASE ASC, d.id ASC")
    } else if eq_literal(s, "newest") {
        Ok("d.modified_at DESC, d.id ASC")
    } else if eq_literal(s, "oldest") {
        Ok("d.modified_at ASC, d.id ASC")
    } else if eq_literal(s, "name") {
        Ok("d.file_name COLLATE NOCASE ASC, d.id ASC")
    } else if eq_literal(s, "size") {
        Ok("d.size_bytes DESC, d.id ASC")
    } else {
        Err(SearchError::invalid_request("unsupported search sort"))
    }
}

/// `LIKE` escaping with `\`: the escape character itself, `%` and `_` are escaped.
pub open spec fn spec_escape_like(s: Seq<char>) -> Seq<char>
    decreases s.len(),
{
    if s.len() == 0 {
        seq![]
    } else {
        let c = s.last();
        spec_escape_like(s.drop_last()) + if c == '\\' || c == '%' || c == '_' {
            seq!['\\', c]
        } else {
            seq![c]
        }
    }
}

pub fn escape_like(value: &str) -> (r: String)
    ensures
        r@ == spec_escape_like(value@),
{
    let v = chars_of(value);
    let mut out: Vec<char> = Vec::new();
    let mut i: usize = 0;
    while i < v.len()
        invariant
            i <= v@.len(),
            out@ == spec_escape_like(v@.take(i as int)),
        decreases v@.len() - i,
    {
        let c = v[i];
        if c == '\\' || c == '%' || c == '_' {
            out.push('\\');
        }
        out.push(c);
        i += 1;
        assert(v@.take(i as int).drop_last() =~= v@.take(i - 1));
        assert(out@ =~= spec_escape_like(v@.take(i as int)));
    }
    assert(v@.take(v@.len() as int) =~= v@);
    crate::text::string_from_chars(out.as_slice())
}

pub fn mode_name(mode: &SearchMode) -> (r: &'static str)
    ensures
        r@ == (match *mode {
            SearchMode::Keyword => "keyword"@,
            SearchMode::Filename => "filename"@,
        }),
{
    match mode {
        SearchMode::Keyword => "keyword",
        SearchMode::Filename => "filename",
    }
}

pub fn term_mode_name(mode: TermMode) -> (r: &'static str)
    ensures
        r@ == (match mode {
            TermMode::All => "all"@,
            TermMode::Any => "any"@,
            TermMode::Exact => "exact"@,
            TermMode::Exclude => "exclude"@,
            TermMode::Near => "near"@,
        }),
{
    match mode {
        TermMode::All => "all",
        TermMode::Any => "any",
        TermMode::Exact => "exact",
        TermMode::Exclude => "exclude",
        TermMode::Near => "near",
    }
}

// ---------------------------------------------------------------------------
// Checking a request against its parsed query
// ---------------------------------------------------------------------------

/// Why a search request is refused: an invalid request with its message, or
/// an invalid date.
pub enum RequestProblem {
    Request(Seq<char>),
    Date(crate::query::QueryFault),
}

/// The first rule a request breaks, in the order the rules are checked.
pub open spec fn spec_validate_request(
    req: crate::models::SearchRequest,
    q: crate::query::QueryModel,
) -> Option<RequestProblem> {
    let keyword = req.mode == SearchMode::Keyword;
    if spec_sort_clause(req.sort@, keyword) is None {
        Some(RequestProblem::Request("unsupported search sort"@))
    } else if q.match_any && req.term_mode != TermMode::Any {
        Some(RequestProblem::Request("explicit OR syntax requires the any term mode"@))
    } else if q.near is Some && req.term_mode != TermMode::Near {
        Some(RequestProblem::Request("explicit near syntax requires the near term mode"@))
    } else if q.phrases.len() + q.terms.len() == 0 && q.excluded_terms.len() > 0
        && req.term_mode != TermMode::Exclude {
        Some(RequestProblem::Request("an exclusion-only query requires the exclude term mode"@))
    } else if req.mode == SearchMode::Filename && !req.include_filename {
        Some(RequestProblem::Request("filename mode always includes the filename"@))
    } else if req.mode == SearchMode::Filename && (req.term_mode == TermMode::Near
        || q.near is Some) {
        Some(RequestProblem::Request("near search is available only in keyword mode"@))
    } else if req.mode == SearchMode::Filename && req.sort@ == "confidence"@ {
        Some(RequestProblem::Request("confidence sort is available only in keyword mode"@))
    } else if req.term_mode == TermMode::Near && q.terms.len() + q.phrases.len() < 2 {
        Some(RequestProblem::Request("near search requires at least two positive terms or phrases"@))
    } else {
        match (req.modified_after, req.modified_before) {
            (Some(after), Some(before)) => match crate::query::spec_validate_date(after@) {
                Err(f) => Some(RequestProblem::Date(f)),
                Ok(_) => match crate::query::spec_validate_date(before@) {
                    Err(f) => Some(RequestProblem::Date(f)),
                    Ok(_) => if crate::query::lex_less(before@, after@) {
                        Some(RequestProblem::Request("modified-after date cannot follow modified-before date"@))
                    } else {
                        None
                    },
                },
            },
            _ => None,
        }
    }
}

/// Checks a search request against its parsed query: the sort, the term mode
/// the query's syntax needs, what filename mode allows, and the date range.
pub fn validate_request(
    request: &crate::models::SearchRequest,
    parsed: &crate::query::ParsedQuery,
) -> (r: Result<(), SearchError>)
    ensures
        match spec_validate_request(*request, parsed@) {
            None => r is Ok,
            Some(RequestProblem::Request(m)) => r matches Err(e) && is_invalid_request(e, m),
            Some(RequestProblem::Date(f)) => r matches Err(e) && crate::query::reports(e, f),
        },
{
    let keyword = matches!(request.mode, SearchMode::Keyword);
    sort_clause(request.sort.as_str(), keyword)?;
    if parsed.match_any && !matches!(request.term_mode, TermMode::Any) {
        return Err(SearchError::invalid_request("explicit OR syntax requires the any term mode"));
    }
    if parsed.near.is_some() && !matches!(request.term_mode, TermMode::Near) {
        return Err(
            SearchError::invalid_request("explicit near syntax requires the near term mode"),
        );
    }
    if parsed.phrases.len() == 0 && parsed.terms.len() == 0 && parsed.excluded_terms.len() > 0
        && !matches!(request.term_mode, TermMode::Exclude) {
        return Err(
            SearchError::invalid_request("an exclusion-only query requires the exclude term mode"),
        );
    }
    if matches!(request.mode, SearchMode::Filename) {
        if !request.include_filename {
            return Err(SearchError::invalid_request("filename mode always includes the filename"));
        }
        if matches!(request.term_mode, TermMode::Near) || parsed.near.is_some() {
            return Err(
                SearchError::invalid_request("near search is available only in keyword mode"),
            );
        }
        if eq_literal(chars_of(request.sort.as_str()).as_slice(), "confidence") {
            return Err(
                SearchError::invalid_request("confidence sort is available only in keyword mode"),
            );
        }
    }
    if matches!(request.term_mode, TermMode::Near) && parsed.terms.len() < 2 && (
    parsed.phrases.len() < 2 - parsed.terms.len()) {
        return Err(
            SearchError::invalid_request(
                "near search requires at least two positive terms or phrases",
            ),
        );
    }
    match (&request.modified_after, &request.modified_before) {
        (Some(after), Some(before)) => {
            crate::query::validate_date(after.as_str())?;
            crate::query::validate_date(before.as_str())?;
            if crate::query::lex_less_exec(
                chars_of(before.as_str()).as_slice(),
                chars_of(after.as_str()).as_slice(),
            ) {
                return Err(
                    SearchError::invalid_request(
                        "modified-after date cannot follow modified-before date",
                    ),
                );
            }
            Ok(())
        },
        _ => Ok(()),
    }
}

} // verus!

