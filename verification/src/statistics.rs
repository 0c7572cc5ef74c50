//! Document and search statistics: the records shown and the rules on the
//! requests. The numbers themselves are counted by the database.
use vstd::prelude::*;

use crate::text::{chars_of, trim_chars, trim_ws};

verus! {

broadcast use vstd::string::group_string_axioms;

#[derive(Debug, Clone, PartialEq, Eq)]
pub struct StatisticsBucket {
    pub label: String,
    pub count: u64,
}

#[derive(Debug, Clone, PartialEq, Eq)]
pub struct FolderStatisticsBucket {
    pub id: String,
    pub label: String,
    pub count: u64,
}

#[derive(Debug, Clone, PartialEq, Eq)]
pub struct DocumentSummary {
    pub document_id: String,
    pub file_name: String,
    pub path: String,
    pub extension: String,
    pub size_bytes: u64,
    pub modified_at: String,
    pub folder_name: String,
    pub parse_state: String,
}

#[derive(Debug, Clone, PartialEq, Eq)]
pub struct SearchTermCount {
    pub query: String,
    pub count: u64,
    pub last_searched_at: String,
}

#[derive(Debug, Clone, PartialEq, Eq)]
pub struct ParseErrorRecord {
    pub document_id: String,
    pub file_name: String,
    pub path: String,
    pub error_code: String,
    pub modified_at: String,
    pub folder_name: String,
}

/// Why a statistics request failed. Database and decoding failures carry
/// their messages.
#[derive(Debug, Clone, PartialEq, Eq)]
pub enum StatisticsError {
    Database(String),
    HistoryFilters(String),
    InvalidInput(String),
}

pub open spec fn spec_statistics_code(e: StatisticsError) -> Seq<char> {
    match e {
        StatisticsError::Database(_) => "STATISTICS_DATABASE_FAILED"@,
        StatisticsError::HistoryFilters(_) => "HISTORY_FILTERS_INVALID"@,
        StatisticsError::InvalidInput(_) => "STATISTICS_INPUT_INVALID"@,
    }
}

impl StatisticsError {
    pub fn code(&self) -> (r: &'static str)
        ensures
            r@ == spec_statistics_code(*self),
    {
        match self {
            StatisticsError::Database(_) => "STATISTICS_DATABASE_FAILED",
            StatisticsError::HistoryFilters(_) => "HISTORY_FILTERS_INVALID",
            StatisticsError::InvalidInput(_) => "STATISTICS_INPUT_INVALID",
        }
    }
}

pub open spec fn retention_allowed(days: u32) -> bool {
    days == 0 || days == 30 || days == 90 || days == 365
}

/// History is kept for 30, 90 or 365 days, or without limit (0).
pub fn validate_retention(retention_days: u32) -> (r: Result<(), StatisticsError>)
    ensures
        retention_allowed(retention_days) ==> r is Ok,
        !retention_allowed(retention_days) ==> (r matches Err(StatisticsError::InvalidInput(m))
            && m@ == "retention must be 30, 90, 365, or 0 for unlimited"@),
{
    if retention_days == 0 || retention_days == 30 || retention_days == 90 || retention_days
        == 365 {
        Ok(())
    } else {
        Err(
            StatisticsError::InvalidInput(
                String::from_str("retention must be 30, 90, 365, or 0 for unlimited"),
            ),
        )
    }
}

/// A count read from the database: a negative value counts as zero.
pub fn non_negative(value: i64) -> (r: u64)
    ensures
        value >= 0 ==> r == value,
        value < 0 ==> r == 0,
{
    if value >= 0 {
        value as u64
    } else {
        0
    }
}

pub const MAX_HISTORY_PAGE_SIZE: u32 = 500;

/// A history page holds at most 500 entries.
pub fn history_page_size(limit: u32) -> (r: u32)
    ensures
        r == if limit < MAX_HISTORY_PAGE_SIZE {
            limit
        } else {
            MAX_HISTORY_PAGE_SIZE
        },
{
    if limit < MAX_HISTORY_PAGE_SIZE {
        limit
    } else {
        MAX_HISTORY_PAGE_SIZE
    }
}

/// A history entry to delete must be named.
pub fn validate_history_id(id: &str) -> (r: Result<(), StatisticsError>)
    ensures
        trim_ws(id@).len() > 0 ==> r is Ok,
        trim_ws(id@).len() == 0 ==> (r matches Err(StatisticsError::InvalidInput(m)) && m@
            == "history id cannot be empty"@),
{
    let chars = chars_of(id);
    if trim_chars(chars.as_slice()).len() == 0 {
        Err(StatisticsError::InvalidInput(String::from_str("history id cannot be empty")))
    } else {
        Ok(())
    }
}

/// A document to parse again must be named.
pub fn validate_retry_document_id(document_id: &str) -> (r: Result<(), StatisticsError>)
    ensures
        trim_ws(document_id@).len() > 0 ==> r is Ok,
        trim_ws(document_id@).len() == 0 ==> (r matches Err(StatisticsError::InvalidInput(m))
            && m@ == "document id cannot be empty"@),
{
    let chars = chars_of(document_id);
    if trim_chars(chars.as_slice()).len() == 0 {
        Err(StatisticsError::InvalidInput(String::from_str("document id cannot be empty")))
    } else {
        Ok(())
    }
}

/// A parse error without a recorded code is shown as `UNKNOWN`.
pub fn parse_error_code_or_unknown(code: Option<String>) -> (r: String)
    ensures
        match code {
            Some(c) => r@ == c@,
            None => r@ == "UNKNOWN"@,
        },
{
    match code {
        Some(c) => c,
        None => String::from_str("UNKNOWN"),
    }
}

} // verus!
