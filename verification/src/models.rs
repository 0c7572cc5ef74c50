//! The records that the application exchanges with its user interface.
use vstd::prelude::*;

verus! {

#[derive(Debug, Clone, Copy, PartialEq, Eq, Structural)]
pub enum SearchMode {
    Keyword,
    Filename,
}

#[derive(Debug, Clone, Copy, PartialEq, Eq, Structural)]
pub enum TermMode {
    All,
    Any,
    Exact,
    Exclude,
    Near,
}

#[derive(Debug, Clone, Copy, PartialEq, Eq, Structural)]
pub enum SearchMatchKind {
    Filename,
    Content,
    Both,
    Metadata,
}

#[derive(Debug, Clone)]
pub struct SearchRequest {
    pub request_id: String,
    pub query: String,
    pub mode: SearchMode,
    pub folder_ids: Vec<String>,
    pub extensions: Vec<String>,
    pub extensionless: bool,
    pub modified_after: Option<String>,
    pub modified_before: Option<String>,
    pub include_filename: bool,
    pub term_mode: TermMode,
    pub private_search: bool,
    pub sort: String,
    pub limit: u32,
    pub offset: u32,
}

#[derive(Debug, Clone)]
pub struct FolderRecord {
    pub id: String,
    pub canonical_path: String,
    pub display_name: String,
    pub document_count: u64,
    pub index_state: String,
}

#[derive(Debug, Clone)]
pub struct DocumentRecord {
    pub id: String,
    pub folder_id: String,
    pub canonical_path: String,
    pub file_name: String,
    pub extension: String,
    pub size_bytes: u64,
    pub modified_at: String,
    pub content_hash: Option<String>,
    pub parser_kind: Option<String>,
    pub parse_state: String,
    pub parse_error_code: Option<String>,
    pub indexed_at: Option<String>,
}

#[derive(Debug)]
pub struct PreviewBlock {
    pub kind: String,
    pub text: String,
    pub level: Option<u8>,
    pub page_number: Option<u32>,
    pub href: Option<String>,
    pub list_type: Option<String>,
    pub children: Vec<PreviewBlock>,
    pub table: Option<PreviewTable>,
}

#[derive(Debug, Clone, PartialEq, Eq)]
pub struct PreviewTable {
    pub rows: u32,
    pub cols: u32,
    pub has_header: bool,
    pub cells: Vec<Vec<PreviewCell>>,
}

#[derive(Debug, Clone, PartialEq, Eq)]
pub struct PreviewCell {
    pub text: String,
    pub col_span: u32,
    pub row_span: u32,
}

#[derive(Debug, Clone, PartialEq, Eq)]
pub struct PreviewWarning {
    pub code: String,
    pub message: String,
    pub page: Option<u32>,
}

#[derive(Debug, Clone, PartialEq, Eq)]
pub struct TagRecord {
    pub id: String,
    pub name: String,
    pub color: String,
}

#[derive(Debug, Clone, PartialEq, Eq)]
pub struct BookmarkRecord {
    pub document_id: String,
    pub note: String,
    pub created_at: String,
}

#[derive(Debug)]
pub struct PreviewDocument {
    pub document_id: String,
    pub file_name: String,
    pub path: String,
    pub extension: String,
    pub markdown: String,
    pub blocks: Vec<PreviewBlock>,
    pub warnings: Vec<PreviewWarning>,
    pub bookmarked: bool,
    pub bookmark_note: String,
    pub tags: Vec<TagRecord>,
    pub truncated: bool,
}

#[derive(Debug, Clone, PartialEq, Eq)]
pub struct IndexStatus {
    pub job_id: String,
    pub state: JobState,
    pub total_files: u64,
    pub completed_files: u64,
    pub current_path: Option<String>,
    pub error_count: u64,
    pub errors: Vec<IndexFailure>,
    /// Whether the job was started by the watcher rather than by the user.
    pub silent: bool,
}

#[derive(Debug, Clone, Copy, PartialEq, Eq, Structural)]
pub enum JobState {
    Queued,
    Discovering,
    Parsing,
    Paused,
    Completed,
    Cancelled,
    Failed,
}

#[derive(Debug, Clone, PartialEq, Eq)]
pub struct IndexFailure {
    pub code: String,
    pub file_name: String,
    pub message: String,
}

} // verus!
