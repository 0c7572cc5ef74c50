//! Opening an indexed source: the rules it must pass before the operating
//! system is asked to open or read it.
use vstd::prelude::*;

use crate::diagnostics::paths_equal_exec;
use crate::ocr::eq_literal;
use crate::paths::{extension_of, path_starts_with, path_starts_with_exec, spec_extension};
use crate::text::{ascii_lower_seq, chars_of, string_from_chars, sub_chars, trim_chars, trim_ws};

verus! {

broadcast use vstd::string::group_string_axioms;

/// Why an indexed source cannot be opened. Failures of the operating system
/// and the database are carried as their messages.
#[derive(Debug, Clone, PartialEq, Eq)]
pub enum SourceOpenError {
    NotFound,
    DisabledFolder,
    Unavailable(String),
    NotFile,
    NotPdf,
    NotLayoutPreview,
    TooLarge,
    Cancelled,
    OutsideRegisteredRoot,
    RedirectingReparsePoint,
    Platform(String),
    Launch(String),
    Database(String),
}

pub open spec fn spec_source_open_code(e: SourceOpenError) -> Seq<char> {
    match e {
        SourceOpenError::NotFound => "SOURCE_NOT_FOUND"@,
        SourceOpenError::DisabledFolder => "SOURCE_FOLDER_DISABLED"@,
        SourceOpenError::Unavailable(_) => "SOURCE_UNAVAILABLE"@,
        SourceOpenError::NotFile => "SOURCE_NOT_FILE"@,
        SourceOpenError::NotPdf => "SOURCE_NOT_PDF"@,
        SourceOpenError::NotLayoutPreview => "SOURCE_LAYOUT_UNSUPPORTED"@,
        SourceOpenError::TooLarge => "SOURCE_PDF_TOO_LARGE"@,
        SourceOpenError::Cancelled => "SOURCE_PDF_READ_CANCELLED"@,
        SourceOpenError::OutsideRegisteredRoot => "SOURCE_OUTSIDE_REGISTERED_ROOT"@,
        SourceOpenError::RedirectingReparsePoint => "SOURCE_REDIRECTING_REPARSE_POINT"@,
        SourceOpenError::Platform(_) => "SOURCE_VERIFICATION_FAILED"@,
        SourceOpenError::Launch(_) => "SOURCE_OPEN_FAILED"@,
        SourceOpenError::Database(_) => "SOURCE_LOOKUP_FAILED"@,
    }
}

impl SourceOpenError {
    pub fn code(&self) -> (r: &'static str)
        ensures
            r@ == spec_source_open_code(*self),
    {
        match self {
            SourceOpenError::NotFound => "SOURCE_NOT_FOUND",
            SourceOpenError::DisabledFolder => "SOURCE_FOLDER_DISABLED",
            SourceOpenError::Unavailable(_) => "SOURCE_UNAVAILABLE",
            SourceOpenError::NotFile => "SOURCE_NOT_FILE",
            SourceOpenError::NotPdf => "SOURCE_NOT_PDF",
            SourceOpenError::NotLayoutPreview => "SOURCE_LAYOUT_UNSUPPORTED",
            SourceOpenError::TooLarge => "SOURCE_PDF_TOO_LARGE",
            SourceOpenError::Cancelled => "SOURCE_PDF_READ_CANCELLED",
            SourceOpenError::OutsideRegisteredRoot => "SOURCE_OUTSIDE_REGISTERED_ROOT",
            SourceOpenError::RedirectingReparsePoint => "SOURCE_REDIRECTING_REPARSE_POINT",
            SourceOpenError::Platform(_) => "SOURCE_VERIFICATION_FAILED",
            SourceOpenError::Launch(_) => "SOURCE_OPEN_FAILED",
            SourceOpenError::Database(_) => "SOURCE_LOOKUP_FAILED",
        }
    }
}

// ---------------------------------------------------------------------------
// Paths handed to the shell
// ---------------------------------------------------------------------------

/// A path as the Windows shell wants it: `\\?\UNC\server\…` becomes
/// `\\server\…`, and a `\\?\` prefix is dropped.
pub open spec fn spec_shell_path(path: Seq<char>) -> Seq<char> {
    let unc = seq!['\\', '\\', '?', '\\', 'U', 'N', 'C', '\\'];
    let verbatim = seq!['\\', '\\', '?', '\\'];
    if unc.is_prefix_of(path) {
        seq!['\\', '\\'] + path.skip(8)
    } else if verbatim.is_prefix_of(path) {
        path.skip(4)
    } else {
        path
    }
}

pub fn shell_path(path: &str) -> (r: String)
    ensures
        r@ == spec_shell_path(path@),
{
    let p = chars_of(path);
    let unc: [char; 8] = ['\\', '\\', '?', '\\', 'U', 'N', 'C', '\\'];
    let verbatim: [char; 4] = ['\\', '\\', '?', '\\'];
    proof {
        assert(unc@ =~= seq!['\\', '\\', '?', '\\', 'U', 'N', 'C', '\\']);
        assert(verbatim@ =~= seq!['\\', '\\', '?', '\\']);
    }
    if crate::text::starts_with_chars(p.as_slice(), &unc) {
        let rest = sub_chars(p.as_slice(), 8, p.len());
        let mut out: Vec<char> = Vec::new();
        out.push('\\');
        out.push('\\');
        let ghost before = out@;
        let mut i: usize = 0;
        while i < rest.len()
            invariant
                i <= rest@.len(),
                out@ == before + rest@.take(i as int),
            decreases rest@.len() - i,
        {
            out.push(rest[i]);
            i += 1;
            assert(out@ =~= before + rest@.take(i as int));
        }
        proof {
            assert(rest@.take(rest@.len() as int) =~= rest@);
            assert(rest@ =~= p@.skip(8));
            assert(before =~= seq!['\\', '\\']);
        }
        string_from_chars(out.as_slice())
    } else if crate::text::starts_with_chars(p.as_slice(), &verbatim) {
        let rest = sub_chars(p.as_slice(), 4, p.len());
        assert(rest@ =~= p@.skip(4));
        string_from_chars(rest.as_slice())
    } else {
        string_from_chars(p.as_slice())
    }
}

pub const IO_REPARSE_TAG_NAME_SURROGATE: u32 = 0x20000000;

/// A reparse point redirects a path when it is a name surrogate, such as a
/// symbolic link or a mount point; other reparse points, such as cloud
/// placeholders, do not.
pub fn is_redirecting_reparse_tag(attributes: u32, reparse_attribute: u32, tag: u32) -> (r: bool)
    ensures
        r == (attributes & reparse_attribute != 0 && tag & IO_REPARSE_TAG_NAME_SURROGATE != 0),
{
    attributes & reparse_attribute != 0 && tag & IO_REPARSE_TAG_NAME_SURROGATE != 0
}

// ---------------------------------------------------------------------------
// Verifying an indexed source
// ---------------------------------------------------------------------------

/// What the database holds for a document: its path, its folder's path, and
/// whether the folder is enabled.
pub struct IndexedRecord {
    pub source_path: String,
    pub root_path: String,
    pub folder_enabled: bool,
}

/// The checks made on a document's record before its paths are resolved.
pub open spec fn spec_check_record(document_id: Seq<char>, record: Option<IndexedRecord>) -> Option<
    SourceOpenError,
> {
    if trim_ws(document_id).len() == 0 {
        Some(SourceOpenError::NotFound)
    } else {
        match record {
            None => Some(SourceOpenError::NotFound),
            Some(r) => if !r.folder_enabled {
                Some(SourceOpenError::DisabledFolder)
            } else if !path_starts_with(r.source_path@, r.root_path@) {
                Some(SourceOpenError::OutsideRegisteredRoot)
            } else {
                None
            },
        }
    }
}

/// Checks a document's record: the identifier is not blank, the document
/// exists, its folder is enabled, and its path lies under the folder.
pub fn check_indexed_record(document_id: &str, record: &Option<IndexedRecord>) -> (r: Result<
    (),
    SourceOpenError,
>)
    ensures
        match spec_check_record(document_id@, *record) {
            None => r is Ok,
            Some(e) => r == Err::<(), SourceOpenError>(e),
        },
{
    let id = chars_of(document_id);
    if trim_chars(id.as_slice()).len() == 0 {
        return Err(SourceOpenError::NotFound);
    }
    match record {
        None => Err(SourceOpenError::NotFound),
        Some(r) => {
            if !r.folder_enabled {
                return Err(SourceOpenError::DisabledFolder);
            }
            let s = chars_of(r.source_path.as_str());
            let root = chars_of(r.root_path.as_str());
            if !path_starts_with_exec(s.as_slice(), root.as_slice()) {
                return Err(SourceOpenError::OutsideRegisteredRoot);
            }
            Ok(())
        },
    }
}

/// Checks the resolved paths: the source is a file and lies under the root.
pub fn check_resolved_source(root: &str, source: &str, source_is_file: bool) -> (r: Result<
    (),
    SourceOpenError,
>)
    ensures
        !source_is_file ==> r == Err::<(), SourceOpenError>(SourceOpenError::NotFile),
        source_is_file && !path_starts_with(source@, root@) ==> r == Err::<(), SourceOpenError>(
            SourceOpenError::OutsideRegisteredRoot,
        ),
        source_is_file && path_starts_with(source@, root@) ==> r is Ok,
{
    if !source_is_file {
        return Err(SourceOpenError::NotFile);
    }
    let s = chars_of(source);
    let rt = chars_of(root);
    if !path_starts_with_exec(s.as_slice(), rt.as_slice()) {
        return Err(SourceOpenError::OutsideRegisteredRoot);
    }
    Ok(())
}

// ---------------------------------------------------------------------------
// Reading sources for preview
// ---------------------------------------------------------------------------

pub const MAX_PREVIEW_BYTES: u64 = 134217728;

/// The kinds of file shown in their original layout.
#[derive(Debug, Clone, Copy, PartialEq, Eq)]
pub enum LayoutKind {
    Pdf,
    Hwp,
    Hwpx,
}

pub open spec fn spec_layout_kind(path: Seq<char>) -> Option<LayoutKind> {
    match spec_extension(path) {
        Some(e) => if ascii_lower_seq(e) == "pdf"@ {
            Some(LayoutKind::Pdf)
        } else if ascii_lower_seq(e) == "hwp"@ {
            Some(LayoutKind::Hwp)
        } else if ascii_lower_seq(e) == "hwpx"@ {
            Some(LayoutKind::Hwpx)
        } else {
            None
        },
        None => None,
    }
}

/// The layout kind of a path by its extension, ignoring ASCII case.
pub fn layout_kind(path: &str) -> (r: Option<LayoutKind>)
    ensures
        r == spec_layout_kind(path@),
{
    let p = chars_of(path);
    match extension_of(p.as_slice()) {
        Some(e) => {
            let lower = crate::text::ascii_lower_chars(e.as_slice());
            if eq_literal(lower.as_slice(), "pdf") {
                Some(LayoutKind::Pdf)
            } else if eq_literal(lower.as_slice(), "hwp") {
                Some(LayoutKind::Hwp)
            } else if eq_literal(lower.as_slice(), "hwpx") {
                Some(LayoutKind::Hwpx)
            } else {
                None
            }
        },
        None => None,
    }
}

/// A PDF preview needs a `.pdf` path of at most 128 MiB.
pub fn check_pdf_source(path: &str, size_bytes: u64) -> (r: Result<(), SourceOpenError>)
    ensures
        spec_layout_kind(path@) != Some(LayoutKind::Pdf) ==> r == Err::<(), SourceOpenError>(
            SourceOpenError::NotPdf,
        ),
        spec_layout_kind(path@) == Some(LayoutKind::Pdf) && size_bytes > MAX_PREVIEW_BYTES ==> r
            == Err::<(), SourceOpenError>(SourceOpenError::TooLarge),
        spec_layout_kind(path@) == Some(LayoutKind::Pdf) && size_bytes <= MAX_PREVIEW_BYTES ==> r
            is Ok,
{
    match layout_kind(path) {
        Some(LayoutKind::Pdf) => {
            if size_bytes > MAX_PREVIEW_BYTES {
                Err(SourceOpenError::TooLarge)
            } else {
                Ok(())
            }
        },
        _ => Err(SourceOpenError::NotPdf),
    }
}

/// An original-layout preview needs a `.pdf`, `.hwp` or `.hwpx` path of at
/// most 128 MiB.
pub fn check_layout_source(path: &str, size_bytes: u64) -> (r: Result<LayoutKind, SourceOpenError>)
    ensures
        match spec_layout_kind(path@) {
            None => r == Err::<LayoutKind, SourceOpenError>(SourceOpenError::NotLayoutPreview),
            Some(k) => if size_bytes > MAX_PREVIEW_BYTES {
                r == Err::<LayoutKind, SourceOpenError>(SourceOpenError::TooLarge)
            } else {
                r == Ok::<LayoutKind, SourceOpenError>(k)
            },
        },
{
    match layout_kind(path) {
        None => Err(SourceOpenError::NotLayoutPreview),
        Some(k) => {
            if size_bytes > MAX_PREVIEW_BYTES {
                Err(SourceOpenError::TooLarge)
            } else {
                Ok(k)
            }
        },
    }
}

/// The bytes a file of each layout kind starts with.
pub open spec fn layout_magic(kind: LayoutKind) -> Seq<u8> {
    match kind {
        LayoutKind::Pdf => seq![0x25u8, 0x50u8, 0x44u8, 0x46u8, 0x2du8],
        LayoutKind::Hwp => seq![0xd0u8, 0xcfu8, 0x11u8, 0xe0u8],
        LayoutKind::Hwpx => seq![0x50u8, 0x4bu8],
    }
}

fn bytes_start_with(bytes: &[u8], prefix: &[u8]) -> (r: bool)
    ensures
        r == prefix@.is_prefix_of(bytes@),
{
    if prefix.len() > bytes.len() {
        return false;
    }
    let mut i: usize = 0;
    while i < prefix.len()
        invariant
            i <= prefix@.len(),
            prefix@.len() <= bytes@.len(),
            forall|j: int| 0 <= j < i ==> prefix@[j] == bytes@[j],
        decreases prefix@.len() - i,
    {
        if prefix[i] != bytes[i] {
            return false;
        }
        i += 1;
    }
    true
}

/// Whether read bytes start as a file of this kind must (`%PDF-`, the
/// compound-document signature, or `PK`).
pub fn has_layout_magic(kind: LayoutKind, bytes: &[u8]) -> (r: bool)
    ensures
        r == layout_magic(kind).is_prefix_of(bytes@),
{
    let prefix: Vec<u8> = match kind {
        LayoutKind::Pdf => vec![0x25u8, 0x50u8, 0x44u8, 0x46u8, 0x2du8],
        LayoutKind::Hwp => vec![0xd0u8, 0xcfu8, 0x11u8, 0xe0u8],
        LayoutKind::Hwpx => vec![0x50u8, 0x4bu8],
    };
    assert(prefix@ =~= layout_magic(kind));
    bytes_start_with(bytes, prefix.as_slice())
}

} // verus!
