//! Folder discovery: which directory entries are descended into, pruned,
//! skipped or taken as file candidates, and how a candidate's paths are
//! formed. The directory walk itself belongs to the caller.
use vstd::prelude::*;

use crate::diagnostics::paths_equal_exec;
use crate::paths::{is_separator, path_starts_with, path_starts_with_exec};
use crate::text::{ascii_lower_seq, chars_of, string_from_chars};

verus! {

broadcast use vstd::string::group_string_axioms;

/// Which directories discovery never enters, by name.
#[derive(Debug)]
pub struct DiscoveryOptions {
    excluded_directories: Vec<String>,
}

pub open spec fn names_unique(v: Seq<String>) -> bool {
    forall|i: int, j: int| 0 <= i < j < v.len() ==> #[trigger] v[i]@ != #[trigger] v[j]@
}

impl DiscoveryOptions {
    /// The excluded directory names.
    pub closed spec fn excluded(&self) -> Set<Seq<char>> {
        Set::new(|n: Seq<char>| exists|i: int| 0 <= i < self.excluded_directories@.len()
            && #[trigger] self.excluded_directories@[i]@ == n)
    }

    pub closed spec fn wf(&self) -> bool {
        names_unique(self.excluded_directories@)
    }

    /// Also excludes directories with this name.
    pub fn with_excluded_directory(self, name: String) -> (r: DiscoveryOptions)
        requires
            self.wf(),
        ensures
            r.wf(),
            r.excluded() == self.excluded().insert(name@),
    {
        let mut names = self.excluded_directories;
        let ghost before = names@;
        let mut i: usize = 0;
        while i < names.len()
            invariant
                i <= names@.len(),
                names@ == before,
                before == self.excluded_directories@,
                names_unique(before),
                forall|j: int| 0 <= j < i ==> #[trigger] names@[j]@ != name@,
            decreases names@.len() - i,
        {
            if crate::text::eq_chars(
                chars_of(names[i].as_str()).as_slice(),
                chars_of(name.as_str()).as_slice(),
            ) {
                let r = DiscoveryOptions { excluded_directories: names };
                proof {
                    assert(self.excluded().contains(name@)) by {
                        assert(before[i as int]@ == name@);
                    }
                    assert forall|n: Seq<char>| #[trigger] r.excluded().contains(n)
                        == self.excluded().contains(n) by {
                        if r.excluded().contains(n) {
                            let k = choose|k: int| 0 <= k < names@.len() && #[trigger] names@[k]@
                                == n;
                            assert(before[k]@ == n);
                        }
                        if self.excluded().contains(n) {
                            let k = choose|k: int| 0 <= k < before.len() && #[trigger] before[k]@
                                == n;
                            assert(names@[k]@ == n);
                        }
                    }
                    assert(r.excluded() =~= self.excluded().insert(name@));
                }
                return r;
            }
            i += 1;
        }
        let ghost name_view = name@;
        names.push(name);
        let r = DiscoveryOptions { excluded_directories: names };
        proof {
            assert forall|a: int, b: int| 0 <= a < b < names@.len() implies #[trigger] names@[a]@
                != #[trigger] names@[b]@ by {
                if b == before.len() {
                    assert(names@[a] == before[a]);
                } else {
                    assert(names@[a] == before[a] && names@[b] == before[b]);
                }
            }
            assert forall|n: Seq<char>| #[trigger] r.excluded().contains(n) == self.excluded().insert(
                name@,
            ).contains(n) by {
                if n == name_view {
                    assert(names@[before.len() as int]@ == n);
                }
                if self.excluded().contains(n) {
                    let k = choose|k: int| 0 <= k < before.len() && #[trigger] before[k]@ == n;
                    assert(names@[k] == before[k]);
                }
                if r.excluded().contains(n) {
                    let k = choose|k: int| 0 <= k < names@.len() && #[trigger] names@[k]@ == n;
                    if k < before.len() {
                        assert(names@[k] == before[k]);
                    }
                }
            }
            assert(r.excluded() =~= self.excluded().insert(name@));
        }
        r
    }

    /// Whether a directory name is excluded, ignoring ASCII case.
    pub fn excludes(&self, name: &str) -> (r: bool)
        ensures
            r == exists|n: Seq<char>| #[trigger] self.excluded().contains(n) && ascii_lower_seq(
                n,
            ) == ascii_lower_seq(name@),
    {
        let target = chars_of(name);
        let mut i: usize = 0;
        while i < self.excluded_directories.len()
            invariant
                i <= self.excluded_directories@.len(),
                target@ == name@,
                forall|j: int| 0 <= j < i ==> ascii_lower_seq(
                    #[trigger] self.excluded_directories@[j]@,
                ) != ascii_lower_seq(name@),
            decreases self.excluded_directories@.len() - i,
        {
            let candidate = chars_of(self.excluded_directories[i].as_str());
            if paths_equal_exec(candidate.as_slice(), target.as_slice()) {
                proof {
                    let n = self.excluded_directories@[i as int]@;
                    assert(self.excluded().contains(n));
                }
                return true;
            }
            i += 1;
        }
        proof {
            assert forall|n: Seq<char>| #[trigger] self.excluded().contains(n) implies ascii_lower_seq(
                n,
            ) != ascii_lower_seq(name@) by {
                let k = choose|k: int| 0 <= k < self.excluded_directories@.len()
                    && #[trigger] self.excluded_directories@[k]@ == n;
                assert(ascii_lower_seq(self.excluded_directories@[k]@) != ascii_lower_seq(name@));
            }
        }
        false
    }
}

impl Default for DiscoveryOptions {
    /// Excludes `.git`, `node_modules` and `$RECYCLE.BIN`.
    fn default() -> (r: DiscoveryOptions)
        ensures
            r.wf(),
            r.excluded() == set![".git"@, "node_modules"@, "$RECYCLE.BIN"@],
    {
        let mut names: Vec<String> = Vec::new();
        names.push(String::from_str(".git"));
        names.push(String::from_str("node_modules"));
        names.push(String::from_str("$RECYCLE.BIN"));
        let r = DiscoveryOptions { excluded_directories: names };
        proof {
            reveal_strlit(".git");
            reveal_strlit("node_modules");
            reveal_strlit("$RECYCLE.BIN");
            assert(names@[0]@ != names@[1]@ && names@[0]@ != names@[2]@ && names@[1]@
                != names@[2]@) by {
                assert(names@[0]@.len() != names@[1]@.len());
                assert(names@[0]@.len() != names@[2]@.len());
                assert(names@[1]@[0] != names@[2]@[0]);
            }
            assert forall|n: Seq<char>| #[trigger] r.excluded().contains(n) == set![
                ".git"@,
                "node_modules"@,
                "$RECYCLE.BIN"@,
            ].contains(n) by {
                if r.excluded().contains(n) {
                    let k = choose|k: int| 0 <= k < names@.len() && #[trigger] names@[k]@ == n;
                    assert(k == 0 || k == 1 || k == 2);
                }
                if n == ".git"@ {
                    assert(names@[0]@ == n);
                }
                if n == "node_modules"@ {
                    assert(names@[1]@ == n);
                }
                if n == "$RECYCLE.BIN"@ {
                    assert(names@[2]@ == n);
                }
            }
            assert(r.excluded() =~= set![".git"@, "node_modules"@, "$RECYCLE.BIN"@]);
        }
        r
    }
}

// ---------------------------------------------------------------------------
// Entries
// ---------------------------------------------------------------------------

pub const FILE_ATTRIBUTE_REPARSE_POINT: u32 = 0x400;

pub const FILE_ATTRIBUTE_OFFLINE: u32 = 0x1000;

pub const FILE_ATTRIBUTE_RECALL_ON_OPEN: u32 = 0x40000;

pub const FILE_ATTRIBUTE_RECALL_ON_DATA_ACCESS: u32 = 0x400000;

/// The placeholder attributes of a cloud file whose content is not local.
pub const PLACEHOLDER_ATTRIBUTES: u32 = 0x441000;

/// A file whose content is not stored locally: offline, or recalled on open
/// or on data access. Such a file is indexed by its metadata only.
pub fn is_metadata_only_file_attributes(attributes: u32) -> (r: bool)
    ensures
        r == (attributes & PLACEHOLDER_ATTRIBUTES != 0),
{
    attributes & PLACEHOLDER_ATTRIBUTES != 0
}

/// A directory that is a reparse point (a junction or a mount point).
pub fn is_directory_reparse_attributes(attributes: u32) -> (r: bool)
    ensures
        r == (attributes & FILE_ATTRIBUTE_REPARSE_POINT != 0),
{
    attributes & FILE_ATTRIBUTE_REPARSE_POINT != 0
}

#[derive(Debug, Clone, Copy, PartialEq, Eq, Structural)]
pub enum DiscoveryEntryKind {
    File,
    Directory,
    Symlink,
    Other,
}

/// What the walk saw of one entry. `file_name` is the entry's name, with
/// `file_name_is_unicode` false where it had to be converted lossily;
/// `modified_at` is in milliseconds since the Unix epoch.
#[derive(Debug, Clone)]
pub struct DiscoveryEntrySnapshot {
    pub path: String,
    pub canonical_parent: String,
    pub file_name: String,
    pub file_name_is_unicode: bool,
    pub kind: DiscoveryEntryKind,
    pub attributes: u32,
    pub size_bytes: u64,
    pub modified_at: Option<i64>,
}

#[derive(Debug, Clone, Copy, PartialEq, Eq, Structural)]
pub enum EntryClassification {
    PruneDirectory,
    Descend,
    Skip,
    Candidate { metadata_only: bool },
}

pub open spec fn spec_classify(
    kind: DiscoveryEntryKind,
    attributes: u32,
    name_excluded: bool,
) -> EntryClassification {
    match kind {
        DiscoveryEntryKind::Symlink => EntryClassification::PruneDirectory,
        DiscoveryEntryKind::Directory => if attributes & FILE_ATTRIBUTE_REPARSE_POINT != 0
            || name_excluded {
            EntryClassification::PruneDirectory
        } else {
            EntryClassification::Descend
        },
        DiscoveryEntryKind::File => EntryClassification::Candidate {
            metadata_only: attributes & PLACEHOLDER_ATTRIBUTES != 0,
        },
        DiscoveryEntryKind::Other => EntryClassification::Skip,
    }
}

/// Whether an entry's name is one of the excluded names, ignoring ASCII
/// case; a name that is not valid Unicode is never excluded.
pub open spec fn name_is_excluded(options: DiscoveryOptions, name: Seq<char>, is_unicode: bool) -> bool {
    is_unicode && exists|e: Seq<char>| #[trigger] options.excluded().contains(e)
        && ascii_lower_seq(e) == ascii_lower_seq(name)
}

/// Symbolic links and reparse or excluded directories are pruned, other
/// directories descended into, files taken as candidates and anything else
/// skipped.
pub fn classify_snapshot(snapshot: &DiscoveryEntrySnapshot, options: &DiscoveryOptions) -> (r:
    EntryClassification)
    ensures
        r == spec_classify(
            snapshot.kind,
            snapshot.attributes,
            name_is_excluded(*options, snapshot.file_name@, snapshot.file_name_is_unicode),
        ),
{
    match snapshot.kind {
        DiscoveryEntryKind::Symlink => EntryClassification::PruneDirectory,
        DiscoveryEntryKind::Directory => {
            let excluded = snapshot.file_name_is_unicode && options.excludes(
                snapshot.file_name.as_str(),
            );
            if is_directory_reparse_attributes(snapshot.attributes) || excluded {
                EntryClassification::PruneDirectory
            } else {
                EntryClassification::Descend
            }
        },
        DiscoveryEntryKind::File => EntryClassification::Candidate {
            metadata_only: is_metadata_only_file_attributes(snapshot.attributes),
        },
        DiscoveryEntryKind::Other => EntryClassification::Skip,
    }
}

// ---------------------------------------------------------------------------
// Candidates
// ---------------------------------------------------------------------------

/// A file found under a registered root. `modified_at` is in milliseconds
/// since the Unix epoch.
#[derive(Debug, Clone, PartialEq, Eq)]
pub struct FileCandidate {
    pub canonical_path: String,
    pub relative_path: String,
    pub size_bytes: u64,
    pub modified_at: Option<i64>,
    pub metadata_only: bool,
}

impl View for FileCandidate {
    type V = (Seq<char>, Seq<char>, u64, Option<i64>, bool);

    open spec fn view(&self) -> Self::V {
        (self.canonical_path@, self.relative_path@, self.size_bytes, self.modified_at, self.metadata_only)
    }
}

/// An entry the walk could not take, with why.
#[derive(Debug, Clone, PartialEq, Eq)]
pub struct DiscoveryWarning {
    pub code: String,
    pub path: Option<String>,
    pub message: String,
}

impl View for DiscoveryWarning {
    type V = (Seq<char>, Option<Seq<char>>, Seq<char>);

    open spec fn view(&self) -> Self::V {
        (
            self.code@,
            match self.path {
                Some(p) => Some(p@),
                None => None,
            },
            self.message@,
        )
    }
}

#[derive(Debug, Clone, PartialEq, Eq)]
pub struct DiscoveryReport {
    pub files: Vec<FileCandidate>,
    pub warnings: Vec<DiscoveryWarning>,
}

/// Why a registered root cannot be walked; the system's message is carried.
#[derive(Debug, Clone, PartialEq, Eq)]
pub enum DiscoveryError {
    RootUnavailable { path: String, message: String },
    RootIsNotDirectory(String),
}

/// A directory and a name joined with `\`, the separator of the platform the
/// application runs on, unless the directory is empty or already ends with a
/// separator.
pub open spec fn join_name(dir: Seq<char>, name: Seq<char>) -> Seq<char> {
    if dir.len() == 0 || is_separator(dir.last()) {
        dir + name
    } else {
        dir + seq!['\\'] + name
    }
}

/// The part of `path` below `root`, written with `/`.
pub open spec fn relative_to(path: Seq<char>, root: Seq<char>) -> Seq<char> {
    let rest = if root.len() == path.len() || (root.len() > 0 && is_separator(root.last())) {
        path.skip(root.len() as int)
    } else {
        path.skip(root.len() as int + 1)
    };
    crate::diagnostics::swap_char(rest, '\\', '/')
}

/// Whether a candidate's canonical path must come from opening its path:
/// a local file, not a placeholder.
pub open spec fn needs_path_open(snapshot: DiscoveryEntrySnapshot) -> bool {
    snapshot.kind == DiscoveryEntryKind::File && snapshot.attributes & PLACEHOLDER_ATTRIBUTES == 0
}

pub fn path_open_needed(snapshot: &DiscoveryEntrySnapshot) -> (r: bool)
    ensures
        r == needs_path_open(*snapshot),
{
    snapshot.kind == DiscoveryEntryKind::File && !is_metadata_only_file_attributes(
        snapshot.attributes,
    )
}

pub open spec fn string_option_view(o: Option<String>) -> Option<Seq<char>> {
    match o {
        Some(s) => Some(s@),
        None => None,
    }
}

/// What becomes of an entry: nothing, a candidate, or a warning. The
/// canonical path of a placeholder is formed from its parent and name, that
/// of a local file is what opening its path gave.
pub open spec fn spec_candidate(
    root: Seq<char>,
    snapshot: DiscoveryEntrySnapshot,
    opened: Option<Result<String, String>>,
) -> Result<Option<(Seq<char>, Seq<char>, u64, Option<i64>, bool)>, (Seq<char>, Option<Seq<char>>, Seq<char>)> {
    if snapshot.kind != DiscoveryEntryKind::File {
        Ok(None)
    } else {
        let metadata_only = snapshot.attributes & PLACEHOLDER_ATTRIBUTES != 0;
        let canonical: Result<Seq<char>, Seq<char>> = if metadata_only {
            Ok(join_name(snapshot.canonical_parent@, snapshot.file_name@))
        } else {
            match opened {
                Some(Ok(p)) => Ok(p@),
                Some(Err(m)) => Err(m@),
                None => Err(seq![]),
            }
        };
        match canonical {
            Err(m) => Err(("ENTRY_CANONICALIZE_FAILED"@, Some(snapshot.path@), m)),
            Ok(p) => if path_starts_with(p, root) {
                Ok(Some((p, relative_to(p, root), snapshot.size_bytes, snapshot.modified_at, metadata_only)))
            } else {
                Err(
                    (
                        "ENTRY_OUTSIDE_ROOT"@,
                        Some(snapshot.path@),
                        "candidate resolved outside the registered root"@,
                    ),
                )
            },
        }
    }
}

fn join_name_exec(dir: &str, name: &str) -> (r: String)
    ensures
        r@ == join_name(dir@, name@),
{
    let mut out = chars_of(dir);
    let n = chars_of(name);
    if !(out.len() == 0 || crate::paths::char_is_separator(out[out.len() - 1])) {
        out.push('\\');
    }
    let ghost before = out@;
    let mut i: usize = 0;
    while i < n.len()
        invariant
            i <= n@.len(),
            out@ == before + n@.take(i as int),
        decreases n@.len() - i,
    {
        out.push(n[i]);
        i += 1;
        assert(out@ =~= before + n@.take(i as int));
    }
    assert(n@.take(n@.len() as int) =~= n@);
    string_from_chars(out.as_slice())
}

fn relative_to_exec(path: &[char], root: &[char]) -> (r: String)
    requires
        path_starts_with(path@, root@),
    ensures
        r@ == relative_to(path@, root@),
{
    let start: usize = if root.len() == path.len() || (root.len() > 0
        && crate::paths::char_is_separator(root[root.len() - 1])) {
        root.len()
    } else {
        root.len() + 1
    };
    let rest = crate::text::sub_chars(path, start, path.len());
    assert(rest@ =~= path@.skip(start as int));
    let mut out: Vec<char> = Vec::new();
    let mut i: usize = 0;
    while i < rest.len()
        invariant
            i <= rest@.len(),
            out@ == crate::diagnostics::swap_char(rest@.take(i as int), '\\', '/'),
        decreases rest@.len() - i,
    {
        let c = rest[i];
        out.push(if c == '\\' {
            '/'
        } else {
            c
        });
        i += 1;
        assert(out@ =~= crate::diagnostics::swap_char(rest@.take(i as int), '\\', '/'));
    }
    assert(rest@.take(rest@.len() as int) =~= rest@);
    string_from_chars(out.as_slice())
}

/// Forms the candidate for an entry. `opened` is what opening the entry's
/// path gave, and is needed only for a local file: a placeholder is never
/// opened.
pub fn candidate_from_snapshot(
    root: &str,
    snapshot: DiscoveryEntrySnapshot,
    opened: Option<Result<String, String>>,
) -> (r: Result<Option<FileCandidate>, DiscoveryWarning>)
    requires
        needs_path_open(snapshot) ==> opened is Some,
    ensures
        match (r, spec_candidate(root@, snapshot, opened)) {
            (Ok(None), Ok(None)) => true,
            (Ok(Some(c)), Ok(Some(v))) => c@ == v,
            (Err(w), Err(v)) => w@ == v,
            _ => false,
        },
{
    if snapshot.kind != DiscoveryEntryKind::File {
        return Ok(None);
    }
    let metadata_only = is_metadata_only_file_attributes(snapshot.attributes);
    let canonical: String = if metadata_only {
        join_name_exec(snapshot.canonical_parent.as_str(), snapshot.file_name.as_str())
    } else {
        match opened {
            Some(Ok(p)) => p,
            Some(Err(m)) => {
                return Err(
                    DiscoveryWarning {
                        code: String::from_str("ENTRY_CANONICALIZE_FAILED"),
                        path: Some(snapshot.path),
                        message: m,
                    },
                );
            },
            None => {
                return Err(
                    DiscoveryWarning {
                        code: String::from_str("ENTRY_CANONICALIZE_FAILED"),
                        path: Some(snapshot.path),
                        message: String::new(),
                    },
                );
            },
        }
    };
    let p = chars_of(canonical.as_str());
    let r = chars_of(root);
    if !path_starts_with_exec(p.as_slice(), r.as_slice()) {
        return Err(
            DiscoveryWarning {
                code: String::from_str("ENTRY_OUTSIDE_ROOT"),
                path: Some(snapshot.path),
                message: String::from_str("candidate resolved outside the registered root"),
            },
        );
    }
    let relative_path = relative_to_exec(p.as_slice(), r.as_slice());
    Ok(
        Some(
            FileCandidate {
                canonical_path: canonical,
                relative_path,
                size_bytes: snapshot.size_bytes,
                modified_at: snapshot.modified_at,
                metadata_only,
            },
        ),
    )
}

// ---------------------------------------------------------------------------
// A whole walk
// ---------------------------------------------------------------------------

/// One step of a directory walk below the root, as the caller saw it: an
/// entry, with what opening its path gave where that was needed, or an entry
/// that could not be read.
#[derive(Debug, Clone)]
pub enum WalkItem {
    Entry { snapshot: DiscoveryEntrySnapshot, opened: Option<Result<String, String>> },
    Failed(DiscoveryWarning),
}

pub open spec fn walk_item_ready(item: WalkItem) -> bool {
    match item {
        WalkItem::Entry { snapshot, opened } => needs_path_open(snapshot) ==> opened is Some,
        WalkItem::Failed(_) => true,
    }
}

/// Whether a walk entry is a directory that the walk prunes.
pub open spec fn prunes(options: DiscoveryOptions, item: WalkItem) -> bool {
    item matches WalkItem::Entry { snapshot, .. } && spec_classify(
        snapshot.kind,
        snapshot.attributes,
        name_is_excluded(options, snapshot.file_name@, snapshot.file_name_is_unicode),
    ) == EntryClassification::PruneDirectory
}

/// The paths of the directories a walk prunes, in walk order.
pub open spec fn pruned_paths(options: DiscoveryOptions, items: Seq<WalkItem>) -> Seq<Seq<char>>
    decreases items.len(),
{
    if items.len() == 0 {
        seq![]
    } else if prunes(options, items.last()) {
        pruned_paths(options, items.drop_last()).push(items.last()->Entry_snapshot.path@)
    } else {
        pruned_paths(options, items.drop_last())
    }
}

/// Whether a path lies strictly below a directory.
pub open spec fn below(path: Seq<char>, dir: Seq<char>) -> bool {
    path_starts_with(path, dir) && path.len() > dir.len()
}

/// Whether a path lies below one of the directories.
pub open spec fn below_any(path: Seq<char>, dirs: Seq<Seq<char>>) -> bool {
    exists|i: int| 0 <= i < dirs.len() && below(path, #[trigger] dirs[i])
}

/// The candidates and warnings of a walk, in walk order. An entry below a
/// directory that the walk pruned earlier is left out.
pub open spec fn spec_walk(root: Seq<char>, options: DiscoveryOptions, items: Seq<WalkItem>) -> (
    Seq<(Seq<char>, Seq<char>, u64, Option<i64>, bool)>,
    Seq<(Seq<char>, Option<Seq<char>>, Seq<char>)>,
)
    decreases items.len(),
{
    if items.len() == 0 {
        (seq![], seq![])
    } else {
        let (files, warnings) = spec_walk(root, options, items.drop_last());
        match items.last() {
            WalkItem::Failed(w) => (files, warnings.push(w@)),
            WalkItem::Entry { snapshot, opened } => if below_any(
                snapshot.path@,
                pruned_paths(options, items.drop_last()),
            ) {
                (files, warnings)
            } else {
                match spec_candidate(root, snapshot, opened) {
                    Ok(None) => (files, warnings),
                    Ok(Some(c)) => (files.push(c), warnings),
                    Err(w) => (files, warnings.push(w)),
                }
            },
        }
    }
}

pub open spec fn candidate_views(v: Seq<FileCandidate>) -> Seq<
    (Seq<char>, Seq<char>, u64, Option<i64>, bool),
> {
    v.map_values(|c: FileCandidate| c@)
}

pub open spec fn warning_views(v: Seq<DiscoveryWarning>) -> Seq<
    (Seq<char>, Option<Seq<char>>, Seq<char>),
> {
    v.map_values(|w: DiscoveryWarning| w@)
}

/// Whether a path lies below one of the directories.
fn below_any_exec(path: &[char], dirs: &Vec<Vec<char>>) -> (r: bool)
    ensures
        r == below_any(path@, dirs@.map_values(|d: Vec<char>| d@)),
{
    let ghost dv = dirs@.map_values(|d: Vec<char>| d@);
    let mut i: usize = 0;
    while i < dirs.len()
        invariant
            i <= dirs@.len(),
            dv == dirs@.map_values(|d: Vec<char>| d@),
            forall|j: int| 0 <= j < i ==> !below(path@, #[trigger] dv[j]),
        decreases dirs@.len() - i,
    {
        let d = dirs[i].as_slice();
        if path.len() > d.len() && path_starts_with_exec(path, d) {
            assert(below(path@, dv[i as int]));
            return true;
        }
        assert(!below(path@, dv[i as int]));
        i += 1;
    }
    false
}

/// Collects a walk of a registered root into its report: every entry that
/// classifies as a candidate is formed into one, and what cannot be formed
/// or read becomes a warning; nothing below a directory that the walk pruned
/// (a link, a reparse point or an excluded name) is reported. A root that
/// could not be resolved is the error.
pub fn discover_all(
    root: Result<String, DiscoveryError>,
    walk: Vec<WalkItem>,
    options: &DiscoveryOptions,
) -> (r: Result<DiscoveryReport, DiscoveryError>)
    requires
        forall|i: int| 0 <= i < walk@.len() ==> walk_item_ready(#[trigger] walk@[i]),
    ensures
        match (root, r) {
            (Err(e), Err(f)) => e == f,
            (Ok(root), Ok(report)) => (candidate_views(report.files@), warning_views(
                report.warnings@,
            )) == spec_walk(root@, *options, walk@),
            _ => false,
        },
{
    let root = match root {
        Err(e) => {
            return Err(e);
        },
        Ok(root) => root,
    };
    let ghost items = walk@;
    let mut files: Vec<FileCandidate> = Vec::new();
    let mut warnings: Vec<DiscoveryWarning> = Vec::new();
    let mut pruned: Vec<Vec<char>> = Vec::new();
    for item in it: walk.into_iter()
        invariant
            it.seq() == items,
            forall|i: int| 0 <= i < items.len() ==> walk_item_ready(#[trigger] items[i]),
            (candidate_views(files@), warning_views(warnings@)) == spec_walk(
                root@,
                *options,
                items.take(it.index() as int),
            ),
            pruned@.map_values(|d: Vec<char>| d@) == pruned_paths(
                *options,
                items.take(it.index() as int),
            ),
    {
        let ghost k = it.index();
        proof {
            assert(items.take(k + 1).drop_last() =~= items.take(k as int));
            assert(items.take(k + 1).last() == item);
            assert(walk_item_ready(items[k as int]));
        }
        match item {
            WalkItem::Failed(w) => {
                warnings.push(w);
                proof {
                    assert(warning_views(warnings@) =~= spec_walk(
                        root@,
                        *options,
                        items.take(k + 1),
                    ).1);
                    assert(candidate_views(files@) =~= spec_walk(root@, *options, items.take(k + 1)).0);
                }
            },
            WalkItem::Entry { snapshot, opened } => {
                let path = chars_of(snapshot.path.as_str());
                let hidden = below_any_exec(path.as_slice(), &pruned);
                let class = classify_snapshot(&snapshot, options);
                match class {
                    EntryClassification::PruneDirectory => {
                        pruned.push(path);
                        proof {
                            assert(pruned@.map_values(|d: Vec<char>| d@) =~= pruned_paths(
                                *options,
                                items.take(k + 1),
                            ));
                        }
                    },
                    EntryClassification::Candidate { .. } => {
                        if !hidden {
                            match candidate_from_snapshot(root.as_str(), snapshot, opened) {
                                Ok(Some(c)) => {
                                    files.push(c);
                                    assert(candidate_views(files@) =~= spec_walk(
                                        root@,
                                        *options,
                                        items.take(k + 1),
                                    ).0);
                                },
                                Ok(None) => {},
                                Err(w) => {
                                    warnings.push(w);
                                    assert(warning_views(warnings@) =~= spec_walk(
                                        root@,
                                        *options,
                                        items.take(k + 1),
                                    ).1);
                                },
                            }
                        }
                    },
                    _ => {},
                }
            },
        }
    }
    assert(items.take(items.len() as int) =~= items);
    Ok(DiscoveryReport { files, warnings })
}

/// Whether the walk's entry `i` is reported as this candidate: it is not
/// below a directory pruned before it, and it forms the candidate.
pub open spec fn reported_at(
    root: Seq<char>,
    options: DiscoveryOptions,
    items: Seq<WalkItem>,
    i: int,
    c: (Seq<char>, Seq<char>, u64, Option<i64>, bool),
) -> bool {
    &&& 0 <= i < items.len()
    &&& items[i] matches WalkItem::Entry { snapshot, opened }
    &&& !below_any(snapshot.path@, pruned_paths(options, items.take(i)))
    &&& spec_candidate(root, snapshot, opened) == Ok::<_, (Seq<char>, Option<Seq<char>>, Seq<char>)>(Some(c))
}

/// The entry of the walk that the report's candidate `k` comes from.
pub open spec fn source_entry(root: Seq<char>, options: DiscoveryOptions, items: Seq<WalkItem>, k: int) -> int
    decreases items.len(),
{
    if items.len() == 0 {
        0
    } else if k < spec_walk(root, options, items.drop_last()).0.len() {
        source_entry(root, options, items.drop_last(), k)
    } else {
        items.len() - 1
    }
}

/// Excluded and linked directories are never indexed: every reported
/// candidate comes from an entry of the walk that lies below no directory
/// the walk pruned before it.
pub proof fn law_nothing_below_pruned_directories(
    root: Seq<char>,
    options: DiscoveryOptions,
    items: Seq<WalkItem>,
    k: int,
)
    requires
        0 <= k < spec_walk(root, options, items).0.len(),
    ensures
        reported_at(
            root,
            options,
            items,
            source_entry(root, options, items, k),
            spec_walk(root, options, items).0[k],
        ),
    decreases items.len(),
{
    let init = items.drop_last();
    let before = spec_walk(root, options, init).0;
    let after = spec_walk(root, options, items).0;
    if k < before.len() {
        law_nothing_below_pruned_directories(root, options, init, k);
        let i = source_entry(root, options, init, k);
        assert(after[k] == before[k]);
        assert(items.take(i) =~= init.take(i));
        assert(items[i] == init[i]);
    } else {
        let i = items.len() - 1;
        assert(items.take(i) =~= init);
    }
}

/// Only registered folders are indexed: every candidate lies under the root
/// it was discovered in.
pub proof fn law_candidates_stay_under_root(
    root: Seq<char>,
    snapshot: DiscoveryEntrySnapshot,
    opened: Option<Result<String, String>>,
)
    requires
        spec_candidate(root, snapshot, opened) is Ok,
        spec_candidate(root, snapshot, opened)->Ok_0 is Some,
    ensures
        path_starts_with(spec_candidate(root, snapshot, opened)->Ok_0->Some_0.0, root),
{
}

/// Cloud placeholders are never hydrated: what becomes of a placeholder does
/// not depend on anything that opening its path would give.
pub proof fn law_placeholders_are_never_opened(
    root: Seq<char>,
    snapshot: DiscoveryEntrySnapshot,
    one: Option<Result<String, String>>,
    other: Option<Result<String, String>>,
)
    requires
        !needs_path_open(snapshot),
    ensures
        spec_candidate(root, snapshot, one) == spec_candidate(root, snapshot, other),
{
}
} // verus!


