//! Registering a folder: the record a canonical root becomes, and what a
//! failed registration reports.
use vstd::prelude::*;

use crate::models::FolderRecord;
use crate::paths::{file_name_of, spec_file_name};
use crate::text::{chars_of, string_from_chars};

verus! {

broadcast use vstd::string::group_string_axioms;

#[derive(Debug, Clone, PartialEq, Eq)]
pub enum FolderError {
    InvalidRoot { path: String, reason: String },
    NotDirectory(String),
    AlreadyRegistered(String),
    Database(String),
}

pub open spec fn spec_folder_error_code(e: FolderError) -> Seq<char> {
    match e {
        FolderError::InvalidRoot { .. } => "FOLDER_INVALID_ROOT"@,
        FolderError::NotDirectory(_) => "FOLDER_NOT_DIRECTORY"@,
        FolderError::AlreadyRegistered(_) => "FOLDER_ALREADY_REGISTERED"@,
        FolderError::Database(_) => "FOLDER_DATABASE_ERROR"@,
    }
}

impl FolderError {
    pub fn code(&self) -> (r: &'static str)
        ensures
            r@ == spec_folder_error_code(*self),
    {
        match self {
            FolderError::InvalidRoot { .. } => "FOLDER_INVALID_ROOT",
            FolderError::NotDirectory(_) => "FOLDER_NOT_DIRECTORY",
            FolderError::AlreadyRegistered(_) => "FOLDER_ALREADY_REGISTERED",
            FolderError::Database(_) => "FOLDER_DATABASE_ERROR",
        }
    }
}

/// The name a folder is shown under: its last path component, or the whole
/// path where it has none (a drive root).
pub open spec fn spec_display_name(canonical_path: Seq<char>) -> Seq<char> {
    match spec_file_name(canonical_path) {
        Some(name) => name,
        None => canonical_path,
    }
}

pub fn folder_display_name(canonical_path: &str) -> (r: String)
    ensures
        r@ == spec_display_name(canonical_path@),
{
    match file_name_of(chars_of(canonical_path).as_slice()) {
        Some(name) => string_from_chars(name.as_slice()),
        None => String::from_str(canonical_path),
    }
}

/// How storing a new folder went.
#[derive(Debug, Clone, PartialEq, Eq)]
pub enum FolderInsert {
    Inserted,
    /// The root is already registered.
    Duplicate,
    Failed(String),
}

/// The result of registering a root: `root` is the selected root as
/// canonicalized with whether it is a directory, or why it could not be
/// resolved; `insert` is how storing it went, where it got that far. A new
/// folder has no documents and is idle.
pub fn registration_result(
    selected_root: &str,
    root: Result<(String, bool), String>,
    id: String,
    insert: FolderInsert,
) -> (r: Result<FolderRecord, FolderError>)
    ensures
        match root {
            Err(reason) => r matches Err(FolderError::InvalidRoot { path, reason: why }) && path@
                == selected_root@ && why@ == reason@,
            Ok((canonical, is_dir)) => if !is_dir {
                r matches Err(FolderError::NotDirectory(p)) && p@ == canonical@
            } else {
                match insert {
                    FolderInsert::Inserted => r matches Ok(folder) && folder.id@ == id@
                        && folder.canonical_path@ == canonical@ && folder.display_name@
                        == spec_display_name(canonical@) && folder.document_count == 0
                        && folder.index_state@ == "idle"@,
                    FolderInsert::Duplicate => r matches Err(FolderError::AlreadyRegistered(p))
                        && p@ == canonical@,
                    FolderInsert::Failed(reason) => r matches Err(FolderError::Database(why))
                        && why@ == reason@,
                }
            },
        },
{
    let (canonical, is_dir) = match root {
        Err(reason) => {
            return Err(FolderError::InvalidRoot { path: String::from_str(selected_root), reason });
        },
        Ok(resolved) => resolved,
    };
    if !is_dir {
        return Err(FolderError::NotDirectory(canonical));
    }
    match insert {
        FolderInsert::Inserted => {
            let display_name = folder_display_name(canonical.as_str());
            Ok(
                FolderRecord {
                    id,
                    canonical_path: canonical,
                    display_name,
                    document_count: 0,
                    index_state: String::from_str("idle"),
                },
            )
        },
        FolderInsert::Duplicate => Err(FolderError::AlreadyRegistered(canonical)),
        FolderInsert::Failed(reason) => Err(FolderError::Database(reason)),
    }
}

} // verus!
