//! Diagnostics: event validation, redaction of registered roots from log
//! messages, and the decisions around the application-data reset.
use vstd::prelude::*;

use crate::ocr::eq_literal;
use crate::paths::{is_separator, path_starts_with_exec};
use crate::query::parse_u64;
use crate::retrieval::{decimal, decimal_exec};
use crate::text::{
    char_to_lowercase, chars_of, eq_chars, is_ascii_digit, is_ascii_upper, string_from_chars,
    unicode_char_lowercase, utf8_len, utf8_len_at_most,
};

verus! {

broadcast use vstd::string::group_string_axioms;

// ---------------------------------------------------------------------------
// Errors and events
// ---------------------------------------------------------------------------

/// Why a diagnostics operation failed. Failures of the operating system are
/// carried as their messages.
#[derive(Debug, Clone, PartialEq, Eq)]
pub enum DiagnosticError {
    Io(String),
    InvalidEvent(String),
    Serialize(String),
    UnsafeLogDirectory,
    UnsafeResetTarget,
    LocalAppDataUnavailable,
    ResetUnsupported,
    ResetConfirmationRequired,
    InvalidResetRequest,
    ResetLocked(String),
    ResetTargetConflict,
}

pub open spec fn spec_diagnostic_code(e: DiagnosticError) -> Seq<char> {
    match e {
        DiagnosticError::Io(_) => "DIAGNOSTICS_IO_FAILED"@,
        DiagnosticError::InvalidEvent(_) => "DIAGNOSTICS_EVENT_INVALID"@,
        DiagnosticError::Serialize(_) => "DIAGNOSTICS_SERIALIZE_FAILED"@,
        DiagnosticError::UnsafeLogDirectory => "DIAGNOSTICS_LOG_PATH_UNSAFE"@,
        DiagnosticError::UnsafeResetTarget => "RESET_PATH_UNSAFE"@,
        DiagnosticError::LocalAppDataUnavailable => "LOCAL_APP_DATA_UNAVAILABLE"@,
        DiagnosticError::ResetUnsupported => "RESET_UNSUPPORTED"@,
        DiagnosticError::ResetConfirmationRequired => "RESET_CONFIRMATION_REQUIRED"@,
        DiagnosticError::InvalidResetRequest => "RESET_REQUEST_INVALID"@,
        DiagnosticError::ResetLocked(_) => "RESET_LOCKED"@,
        DiagnosticError::ResetTargetConflict => "RESET_TARGET_CONFLICT"@,
    }
}

impl DiagnosticError {
    pub fn code(&self) -> (r: &'static str)
        ensures
            r@ == spec_diagnostic_code(*self),
    {
        match self {
            DiagnosticError::Io(_) => "DIAGNOSTICS_IO_FAILED",
            DiagnosticError::InvalidEvent(_) => "DIAGNOSTICS_EVENT_INVALID",
            DiagnosticError::Serialize(_) => "DIAGNOSTICS_SERIALIZE_FAILED",
            DiagnosticError::UnsafeLogDirectory => "DIAGNOSTICS_LOG_PATH_UNSAFE",
            DiagnosticError::UnsafeResetTarget => "RESET_PATH_UNSAFE",
            DiagnosticError::LocalAppDataUnavailable => "LOCAL_APP_DATA_UNAVAILABLE",
            DiagnosticError::ResetUnsupported => "RESET_UNSUPPORTED",
            DiagnosticError::ResetConfirmationRequired => "RESET_CONFIRMATION_REQUIRED",
            DiagnosticError::InvalidResetRequest => "RESET_REQUEST_INVALID",
            DiagnosticError::ResetLocked(_) => "RESET_LOCKED",
            DiagnosticError::ResetTargetConflict => "RESET_TARGET_CONFLICT",
        }
    }
}

/// A diagnostic event as the front end reports it.
#[derive(Debug, Clone, PartialEq, Eq)]
pub struct DiagnosticEvent {
    pub level: String,
    pub code: String,
    pub message: String,
    pub document_id: Option<String>,
}

pub const MAX_CODE_BYTES: usize = 80;

pub const MAX_MESSAGE_BYTES: usize = 16384;

pub open spec fn level_allowed(level: Seq<char>) -> bool {
    level == "debug"@ || level == "info"@ || level == "warn"@ || level == "error"@
}

pub open spec fn code_char_allowed(c: char) -> bool {
    is_ascii_upper(c) || is_ascii_digit(c) || c == '_'
}

/// A code is non-empty, at most 80 bytes, and made of `A`-`Z`, `0`-`9` and `_`.
pub open spec fn code_allowed(code: Seq<char>) -> bool {
    &&& code.len() > 0
    &&& utf8_len(code) <= MAX_CODE_BYTES
    &&& forall|i: int| 0 <= i < code.len() ==> code_char_allowed(#[trigger] code[i])
}

/// What validating an event gives: the first rule it breaks, with its message.
pub open spec fn spec_validate_event(e: DiagnosticEvent) -> Option<Seq<char>> {
    if !level_allowed(e.level@) {
        Some("unsupported diagnostic level"@)
    } else if !code_allowed(e.code@) {
        Some("diagnostic code is invalid"@)
    } else if utf8_len(e.message@) > MAX_MESSAGE_BYTES {
        Some("diagnostic message is too long"@)
    } else {
        None
    }
}

/// Checks an event's level, code and message length.
pub fn validate_event(event: &DiagnosticEvent) -> (r: Result<(), DiagnosticError>)
    ensures
        match spec_validate_event(*event) {
            None => r is Ok,
            Some(m) => r matches Err(DiagnosticError::InvalidEvent(s)) && s@ == m,
        },
{
    let level = chars_of(event.level.as_str());
    if !(eq_literal(level.as_slice(), "debug") || eq_literal(level.as_slice(), "info")
        || eq_literal(level.as_slice(), "warn") || eq_literal(level.as_slice(), "error")) {
        return Err(DiagnosticError::InvalidEvent(String::from_str("unsupported diagnostic level")));
    }
    let code = chars_of(event.code.as_str());
    let mut all_allowed = true;
    let mut i: usize = 0;
    while i < code.len()
        invariant
            i <= code@.len(),
            all_allowed == (forall|j: int| 0 <= j < i ==> code_char_allowed(#[trigger] code@[j])),
        decreases code@.len() - i,
    {
        let c = code[i];
        if !(('A' <= c && c <= 'Z') || ('0' <= c && c <= '9') || c == '_') {
            all_allowed = false;
        }
        i += 1;
    }
    if code.len() == 0 || !utf8_len_at_most(code.as_slice(), MAX_CODE_BYTES) || !all_allowed {
        return Err(DiagnosticError::InvalidEvent(String::from_str("diagnostic code is invalid")));
    }
    let message = chars_of(event.message.as_str());
    if !utf8_len_at_most(message.as_slice(), MAX_MESSAGE_BYTES) {
        return Err(DiagnosticError::InvalidEvent(String::from_str("diagnostic message is too long")));
    }
    Ok(())
}

// ---------------------------------------------------------------------------
// Folding and replacing paths
// ---------------------------------------------------------------------------

/// One character of a folded path: a separator is `\`, anything else is
/// lower-cased.
pub open spec fn fold_char(c: char) -> Seq<char> {
    if is_separator(c) {
        seq!['\\']
    } else {
        unicode_char_lowercase(c)
    }
}

/// A path folded for comparison the way Windows compares paths.
pub open spec fn fold_path(s: Seq<char>) -> Seq<char>
    decreases s.len(),
{
    if s.len() == 0 {
        seq![]
    } else {
        fold_path(s.drop_last()) + fold_char(s.last())
    }
}

proof fn lemma_fold_push(s: Seq<char>, start: int, end: int)
    requires
        0 <= start <= end < s.len(),
    ensures
        fold_path(s.subrange(start, end + 1)) == fold_path(s.subrange(start, end)) + fold_char(
            s[end],
        ),
{
    assert(s.subrange(start, end + 1).drop_last() =~= s.subrange(start, end));
}

fn fold_chars(value: &[char]) -> (r: Vec<char>)
    ensures
        r@ == fold_path(value@),
        r@.len() >= value@.len(),
{
    let mut out: Vec<char> = Vec::new();
    let mut i: usize = 0;
    while i < value.len()
        invariant
            i <= value@.len(),
            out@ == fold_path(value@.subrange(0, i as int)),
            out@.len() >= i,
        decreases value@.len() - i,
    {
        let c = value[i];
        if c == '\\' || c == '/' {
            out.push('\\');
        } else {
            let lower = char_to_lowercase(c);
            let mut k: usize = 0;
            let ghost before = out@;
            while k < lower.len()
                invariant
                    k <= lower@.len(),
                    out@ == before + lower@.take(k as int),
                decreases lower@.len() - k,
            {
                out.push(lower[k]);
                k += 1;
                assert(out@ =~= before + lower@.take(k as int));
            }
            assert(lower@.take(lower@.len() as int) =~= lower@);
        }
        proof {
            lemma_fold_push(value@, 0, i as int);
        }
        i += 1;
    }
    assert(value@.subrange(0, value@.len() as int) =~= value@);
    out
}

/// Folds a path: separators become `\` and every other character is
/// lower-cased.
pub fn fold_windows_path(value: &str) -> (r: String)
    ensures
        r@ == fold_path(value@),
{
    let chars = chars_of(value);
    let folded = fold_chars(chars.as_slice());
    string_from_chars(folded.as_slice())
}

/// Where the segment starting at `start` stops being compared: at the first
/// end from `end` on whose folded segment is at least as long as `target`,
/// or at the end of the text.
pub open spec fn compare_end(h: Seq<char>, start: int, end: int, target: Seq<char>) -> int
    decreases h.len() - end,
{
    if end >= h.len() || fold_path(h.subrange(start, end)).len() >= target.len() {
        end
    } else {
        compare_end(h, start, end + 1, target)
    }
}

/// The end of the match starting at `start`: the compared segment folds to
/// `target` and is followed by the end of the text or a separator.
pub open spec fn match_end(h: Seq<char>, start: int, target: Seq<char>) -> Option<int> {
    let end = compare_end(h, start, start, target);
    if start < end && end <= h.len() && fold_path(h.subrange(start, end)) == target && (end
        == h.len() || is_separator(h[end])) {
        Some(end)
    } else {
        None
    }
}

/// The first match at or after `from`.
pub open spec fn first_match(h: Seq<char>, from: int, target: Seq<char>) -> Option<(int, int)>
    decreases h.len() - from,
{
    if from < 0 || from >= h.len() {
        None
    } else {
        match match_end(h, from, target) {
            Some(end) => Some((from, end)),
            None => first_match(h, from + 1, target),
        }
    }
}

pub proof fn lemma_first_match_bounds(h: Seq<char>, from: int, target: Seq<char>)
    ensures
        match first_match(h, from, target) {
            Some((s, e)) => from <= s < e <= h.len(),
            None => true,
        },
    decreases h.len() - from,
{
    if 0 <= from < h.len() && match_end(h, from, target) is None {
        lemma_first_match_bounds(h, from + 1, target);
    }
}

/// Every match from `from` on replaced, scanning left to right.
pub open spec fn replace_from(h: Seq<char>, from: int, target: Seq<char>, rep: Seq<char>) -> Seq<
    char,
>
    decreases h.len() - from,
{
    if from < 0 || from > h.len() {
        seq![]
    } else {
        match first_match(h, from, target) {
            Some((s, e)) => {
                proof {
                    lemma_first_match_bounds(h, from, target);
                }
                h.subrange(from, s) + rep + replace_from(h, e, target, rep)
            },
            None => h.subrange(from, h.len() as int),
        }
    }
}

/// `haystack` with every whole-path occurrence of `needle`, compared as
/// folded paths, replaced by `replacement`. A match ends at the end of the
/// text or before a separator; an empty needle changes nothing.
pub open spec fn replace_path(h: Seq<char>, needle: Seq<char>, rep: Seq<char>) -> Seq<char> {
    if needle.len() == 0 {
        h
    } else {
        replace_from(h, 0, fold_path(needle), rep)
    }
}

fn match_end_exec(h: &[char], start: usize, target: &[char]) -> (r: Option<usize>)
    requires
        start < h@.len(),
        target@.len() > 0,
    ensures
        match r {
            Some(e) => match_end(h@, start as int, target@) == Some(e as int),
            None => match_end(h@, start as int, target@) is None,
        },
{
    let mut folded: Vec<char> = Vec::new();
    let mut end = start;
    assert(h@.subrange(start as int, start as int) =~= Seq::<char>::empty());
    while end < h.len() && folded.len() < target.len()
        invariant
            start <= end <= h@.len(),
            folded@ == fold_path(h@.subrange(start as int, end as int)),
            folded@.len() >= end - start,
            compare_end(h@, start as int, start as int, target@) == compare_end(
                h@,
                start as int,
                end as int,
                target@,
            ),
        decreases h@.len() - end,
    {
        let c = h[end];
        if c == '\\' || c == '/' {
            folded.push('\\');
        } else {
            let lower = char_to_lowercase(c);
            let mut k: usize = 0;
            let ghost before = folded@;
            while k < lower.len()
                invariant
                    k <= lower@.len(),
                    folded@ == before + lower@.take(k as int),
                decreases lower@.len() - k,
            {
                folded.push(lower[k]);
                k += 1;
                assert(folded@ =~= before + lower@.take(k as int));
            }
            assert(lower@.take(lower@.len() as int) =~= lower@);
        }
        proof {
            lemma_fold_push(h@, start as int, end as int);
        }
        end += 1;
    }
    let equal = eq_chars(folded.as_slice(), target);
    if equal && start < end && (end == h.len() || h[end] == '\\' || h[end] == '/') {
        Some(end)
    } else {
        None
    }
}

fn extend_from(out: &mut Vec<char>, s: &[char], from: usize, to: usize)
    requires
        from <= to <= s@.len(),
    ensures
        final(out)@ == old(out)@ + s@.subrange(from as int, to as int),
{
    let mut i = from;
    while i < to
        invariant
            from <= i <= to,
            to <= s@.len(),
            out@ == old(out)@ + s@.subrange(from as int, i as int),
        decreases to - i,
    {
        out.push(s[i]);
        i += 1;
        assert(out@ =~= old(out)@ + s@.subrange(from as int, i as int));
    }
}

fn find_first_match(h: &[char], from: usize, target: &[char]) -> (r: Option<(usize, usize)>)
    requires
        from <= h@.len(),
        target@.len() > 0,
    ensures
        match r {
            Some((s, e)) => first_match(h@, from as int, target@) == Some((s as int, e as int)),
            None => first_match(h@, from as int, target@) is None,
        },
{
    let mut start = from;
    while start < h.len()
        invariant
            from <= start <= h@.len(),
            target@.len() > 0,
            first_match(h@, from as int, target@) == first_match(h@, start as int, target@),
        decreases h@.len() - start,
    {
        match match_end_exec(h, start, target) {
            Some(e) => {
                return Some((start, e));
            },
            None => {
                start += 1;
            },
        }
    }
    None
}

fn replace_chars(h: &[char], needle: &[char], rep: &[char]) -> (r: Vec<char>)
    ensures
        r@ == replace_path(h@, needle@, rep@),
{
    if needle.len() == 0 {
        let mut out: Vec<char> = Vec::new();
        extend_from(&mut out, h, 0, h.len());
        assert(h@.subrange(0, h@.len() as int) =~= h@);
        return out;
    }
    let target = fold_chars(needle);
    let mut out: Vec<char> = Vec::new();
    let mut pos: usize = 0;
    loop
        invariant
            pos <= h@.len(),
            target@ == fold_path(needle@),
            target@.len() > 0,
            out@ + replace_from(h@, pos as int, target@, rep@) == replace_from(
                h@,
                0,
                target@,
                rep@,
            ),
        decreases h@.len() - pos,
    {
        let found = find_first_match(h, pos, target.as_slice());
        proof {
            lemma_first_match_bounds(h@, pos as int, target@);
        }
        match found {
            Some((s, e)) => {
                assert(first_match(h@, pos as int, target@) == Some((s as int, e as int)));
                let ghost prev = out@;
                extend_from(&mut out, h, pos, s);
                extend_from(&mut out, rep, 0, rep.len());
                proof {
                    assert(rep@.subrange(0, rep@.len() as int) =~= rep@);
                    assert(out@ + replace_from(h@, e as int, target@, rep@) =~= prev
                        + replace_from(h@, pos as int, target@, rep@));
                }
                pos = e;
            },
            None => {
                assert(first_match(h@, pos as int, target@) is None);
                let ghost prev = out@;
                extend_from(&mut out, h, pos, h.len());
                assert(out@ =~= prev + replace_from(h@, pos as int, target@, rep@));
                assert(out@ =~= replace_from(h@, 0, target@, rep@));
                return out;
            },
        }
    }
}

/// Replaces every whole-path occurrence of `needle` in `haystack`, compared
/// as folded paths, by `replacement`.
pub fn replace_path_case_insensitive(haystack: &str, needle: &str, replacement: &str) -> (r:
    String)
    ensures
        r@ == replace_path(haystack@, needle@, replacement@),
{
    let h = chars_of(haystack);
    let n = chars_of(needle);
    let rep = chars_of(replacement);
    let out = replace_chars(h.as_slice(), n.as_slice(), rep.as_slice());
    string_from_chars(out.as_slice())
}

// ---------------------------------------------------------------------------
// Redacting registered roots
// ---------------------------------------------------------------------------

/// Every `from` in `s` written as `to`.
pub open spec fn swap_char(s: Seq<char>, from: char, to: char) -> Seq<char> {
    s.map_values(|c: char| if c == from {
        to
    } else {
        c
    })
}

/// The spellings of one registered root that a message may hold: as given,
/// with forward slashes, with backslashes, and in both extended-length forms.
pub open spec fn root_spellings(root: Seq<char>) -> Seq<Seq<char>> {
    let slash = swap_char(root, '\\', '/');
    let backslash = swap_char(root, '/', '\\');
    seq![
        root,
        slash,
        backslash,
        seq!['\\', '\\', '?', '\\'] + backslash,
        seq!['/', '/', '?', '/'] + slash,
    ]
}

pub open spec fn keep_nonempty(s: Seq<Seq<char>>) -> Seq<Seq<char>>
    decreases s.len(),
{
    if s.len() == 0 {
        seq![]
    } else if s.last().len() > 0 {
        keep_nonempty(s.drop_last()).push(s.last())
    } else {
        keep_nonempty(s.drop_last())
    }
}

/// The non-empty spellings of all roots, root by root.
pub open spec fn all_spellings(roots: Seq<Seq<char>>) -> Seq<Seq<char>>
    decreases roots.len(),
{
    if roots.len() == 0 {
        seq![]
    } else {
        all_spellings(roots.drop_last()) + keep_nonempty(root_spellings(roots.last()))
    }
}

/// Inserts `e` after every entry at least as long as it.
pub open spec fn insert_by_length(list: Seq<Seq<char>>, e: Seq<char>) -> Seq<Seq<char>>
    decreases list.len(),
{
    if list.len() == 0 {
        seq![e]
    } else if list[0].len() < e.len() {
        seq![e] + list
    } else {
        seq![list[0]] + insert_by_length(list.drop_first(), e)
    }
}

/// The entries stably sorted from longest to shortest.
pub open spec fn sort_longest_first(s: Seq<Seq<char>>) -> Seq<Seq<char>>
    decreases s.len(),
{
    if s.len() == 0 {
        seq![]
    } else {
        insert_by_length(sort_longest_first(s.drop_last()), s.last())
    }
}

/// Consecutive entries that fold to the same path kept once, the first.
pub open spec fn dedup_folded(s: Seq<Seq<char>>) -> Seq<Seq<char>>
    decreases s.len(),
{
    if s.len() <= 1 {
        s
    } else if fold_path(s.last()) == fold_path(s[s.len() - 2]) {
        dedup_folded(s.drop_last())
    } else {
        dedup_folded(s.drop_last()).push(s.last())
    }
}

/// The spellings a logger redacts, longest first, each folded path once.
pub open spec fn redaction_roots(roots: Seq<Seq<char>>) -> Seq<Seq<char>> {
    dedup_folded(sort_longest_first(all_spellings(roots)))
}

/// Line breaks written as spaces.
pub open spec fn flatten_lines(s: Seq<char>) -> Seq<char> {
    s.map_values(|c: char| if c == '\r' || c == '\n' {
        ' '
    } else {
        c
    })
}

/// The message with each root, in order, replaced by the placeholder.
pub open spec fn redact_with(s: Seq<char>, roots: Seq<Seq<char>>) -> Seq<char>
    decreases roots.len(),
{
    if roots.len() == 0 {
        s
    } else {
        replace_path(redact_with(s, roots.drop_last()), roots.last(), "[REGISTERED_ROOT]"@)
    }
}

pub open spec fn spec_redact(message: Seq<char>, roots: Seq<Seq<char>>) -> Seq<char> {
    redact_with(flatten_lines(message), roots)
}

pub open spec fn string_views(v: Seq<String>) -> Seq<Seq<char>> {
    v.map_values(|s: String| s@)
}

fn swap_chars(s: &[char], from: char, to: char) -> (r: Vec<char>)
    ensures
        r@ == swap_char(s@, from, to),
{
    let mut out: Vec<char> = Vec::new();
    let mut i: usize = 0;
    while i < s.len()
        invariant
            i <= s@.len(),
            out@ == swap_char(s@.take(i as int), from, to),
        decreases s@.len() - i,
    {
        let c = s[i];
        out.push(if c == from {
            to
        } else {
            c
        });
        i += 1;
        assert(out@ =~= swap_char(s@.take(i as int), from, to));
    }
    assert(s@.take(s@.len() as int) =~= s@);
    out
}

fn prefixed(prefix: [char; 4], s: &[char]) -> (r: Vec<char>)
    ensures
        r@ == prefix@ + s@,
{
    let mut out: Vec<char> = Vec::new();
    out.push(prefix[0]);
    out.push(prefix[1]);
    out.push(prefix[2]);
    out.push(prefix[3]);
    extend_from(&mut out, s, 0, s.len());
    assert(s@.subrange(0, s@.len() as int) =~= s@);
    assert(out@ =~= prefix@ + s@);
    out
}

fn push_nonempty(out: &mut Vec<Vec<char>>, v: Vec<char>)
    ensures
        final(out)@ == (if v@.len() > 0 {
            old(out)@.push(v)
        } else {
            old(out)@
        }),
{
    if v.len() > 0 {
        out.push(v);
    }
}

pub open spec fn char_views(v: Seq<Vec<char>>) -> Seq<Seq<char>> {
    v.map_values(|x: Vec<char>| x@)
}

proof fn lemma_keep_push(s: Seq<Seq<char>>, x: Seq<char>)
    ensures
        keep_nonempty(s.push(x)) == (if x.len() > 0 {
            keep_nonempty(s).push(x)
        } else {
            keep_nonempty(s)
        }),
{
    assert(s.push(x).drop_last() =~= s);
}

fn spellings_of(roots: &Vec<String>) -> (r: Vec<Vec<char>>)
    ensures
        char_views(r@) == all_spellings(string_views(roots@)),
{
    let mut out: Vec<Vec<char>> = Vec::new();
    let mut i: usize = 0;
    while i < roots.len()
        invariant
            i <= roots@.len(),
            char_views(out@) == all_spellings(string_views(roots@.take(i as int))),
        decreases roots@.len() - i,
    {
        let root = chars_of(roots[i].as_str());
        let slash = swap_chars(root.as_slice(), '\\', '/');
        let backslash = swap_chars(root.as_slice(), '/', '\\');
        let long_back = prefixed(['\\', '\\', '?', '\\'], backslash.as_slice());
        let long_slash = prefixed(['/', '/', '?', '/'], slash.as_slice());
        let ghost before = out@;
        let ghost sp = root_spellings(root@);
        proof {
            assert(['\\', '\\', '?', '\\']@ =~= seq!['\\', '\\', '?', '\\']);
            assert(['/', '/', '?', '/']@ =~= seq!['/', '/', '?', '/']);
            assert(sp =~= seq![root@, slash@, backslash@, long_back@, long_slash@]);
            assert(Seq::<Seq<char>>::empty().push(root@) =~= sp.take(1));
            assert(sp.take(1).push(slash@) =~= sp.take(2));
            assert(sp.take(2).push(backslash@) =~= sp.take(3));
            assert(sp.take(3).push(long_back@) =~= sp.take(4));
            assert(sp.take(4).push(long_slash@) =~= sp.take(5));
            assert(sp.take(5) =~= sp);
            lemma_keep_push(Seq::<Seq<char>>::empty(), root@);
            lemma_keep_push(sp.take(1), slash@);
            lemma_keep_push(sp.take(2), backslash@);
            lemma_keep_push(sp.take(3), long_back@);
            lemma_keep_push(sp.take(4), long_slash@);
            assert(keep_nonempty(Seq::<Seq<char>>::empty()) =~= Seq::<Seq<char>>::empty());
        }
        push_nonempty(&mut out, root);
        assert(char_views(out@) =~= char_views(before) + keep_nonempty(sp.take(1)));
        push_nonempty(&mut out, slash);
        assert(char_views(out@) =~= char_views(before) + keep_nonempty(sp.take(2)));
        push_nonempty(&mut out, backslash);
        assert(char_views(out@) =~= char_views(before) + keep_nonempty(sp.take(3)));
        push_nonempty(&mut out, long_back);
        assert(char_views(out@) =~= char_views(before) + keep_nonempty(sp.take(4)));
        push_nonempty(&mut out, long_slash);
        assert(char_views(out@) =~= char_views(before) + keep_nonempty(sp.take(5)));
        proof {
            assert(string_views(roots@.take(i + 1)).drop_last() =~= string_views(
                roots@.take(i as int),
            ));
            assert(string_views(roots@.take(i + 1)).last() == root@);
        }
        i += 1;
    }
    assert(roots@.take(roots@.len() as int) =~= roots@);
    out
}

proof fn lemma_insert_by_length_at(list: Seq<Seq<char>>, e: Seq<char>, pos: int)
    requires
        0 <= pos <= list.len(),
        forall|j: int| 0 <= j < pos ==> !(#[trigger] list[j].len() < e.len()),
        pos == list.len() || list[pos].len() < e.len(),
    ensures
        insert_by_length(list, e) == list.take(pos) + seq![e] + list.skip(pos),
    decreases list.len(),
{
    if list.len() == 0 {
        assert(list.take(pos) + seq![e] + list.skip(pos) =~= seq![e]);
    } else if pos == 0 {
        assert(list.take(0) + seq![e] + list.skip(0) =~= seq![e] + list);
    } else {
        assert(!(list[0].len() < e.len()));
        assert forall|j: int| 0 <= j < pos - 1 implies !(#[trigger] list.drop_first()[j].len()
            < e.len()) by {
            assert(list.drop_first()[j] == list[j + 1]);
        }
        lemma_insert_by_length_at(list.drop_first(), e, pos - 1);
        assert(seq![list[0]] + (list.drop_first().take(pos - 1) + seq![e]
            + list.drop_first().skip(pos - 1)) =~= list.take(pos) + seq![e] + list.skip(pos));
    }
}

fn sort_by_length(items: Vec<Vec<char>>) -> (r: Vec<Vec<char>>)
    ensures
        char_views(r@) == sort_longest_first(char_views(items@)),
{
    let ghost all = char_views(items@);
    let total = items.len();
    let mut entries = items;
    let mut sorted: Vec<Vec<char>> = Vec::new();
    let mut k: usize = 0;
    assert(all.take(0) =~= Seq::<Seq<char>>::empty());
    while entries.len() > 0
        invariant
            k + entries@.len() == all.len(),
            all.len() == total,
            char_views(entries@) == all.skip(k as int),
            char_views(sorted@) == sort_longest_first(all.take(k as int)),
        decreases entries@.len(),
    {
        let ghost before_entries = entries@;
        let e = entries.remove(0);
        let mut pos: usize = 0;
        while pos < sorted.len() && !(sorted[pos].len() < e.len())
            invariant
                pos <= sorted@.len(),
                forall|j: int| 0 <= j < pos ==> !(#[trigger] char_views(sorted@)[j].len() < e@.len()),
            decreases sorted@.len() - pos,
        {
            pos += 1;
        }
        proof {
            let sv = char_views(sorted@);
            assert(pos < sorted@.len() ==> sv[pos as int] == sorted@[pos as int]@);
            lemma_insert_by_length_at(sv, e@, pos as int);
            assert(char_views(before_entries)[0] == e@);
            assert(all.take(k + 1).drop_last() =~= all.take(k as int));
            assert(all.take(k + 1).last() == e@);
            assert forall|j: int| 0 <= j < entries@.len() implies #[trigger] char_views(entries@)[j]
                == all.skip(k + 1)[j] by {
                assert(entries@[j] == before_entries[j + 1]);
                assert(char_views(before_entries)[j + 1] == all.skip(k as int)[j + 1]);
            }
            assert(char_views(entries@) =~= all.skip(k + 1));
        }
        let ghost before_sorted = sorted@;
        sorted.insert(pos, e);
        proof {
            assert(char_views(sorted@) =~= char_views(before_sorted).take(pos as int) + seq![e@]
                + char_views(before_sorted).skip(pos as int));
        }
        k += 1;
    }
    assert(all.take(k as int) =~= all);
    sorted
}

fn dedup_by_fold(items: &Vec<Vec<char>>) -> (r: Vec<Vec<char>>)
    ensures
        char_views(r@) == dedup_folded(char_views(items@)),
{
    let ghost all = char_views(items@);
    let mut out: Vec<Vec<char>> = Vec::new();
    let mut previous: Vec<char> = Vec::new();
    let mut i: usize = 0;
    assert(all.take(0) =~= Seq::<Seq<char>>::empty());
    while i < items.len()
        invariant
            i <= items@.len(),
            all == char_views(items@),
            char_views(out@) == dedup_folded(all.take(i as int)),
            i > 0 ==> previous@ == fold_path(all[i - 1]),
        decreases items@.len() - i,
    {
        let folded = fold_chars(items[i].as_slice());
        let keep = i == 0 || !eq_chars(folded.as_slice(), previous.as_slice());
        let ghost before = out@;
        if keep {
            out.push(items[i].clone());
        }
        proof {
            let t = all.take(i + 1);
            assert(t.drop_last() =~= all.take(i as int));
            assert(t.last() == all[i as int]);
            assert(all[i as int] == items@[i as int]@);
            if i > 0 {
                assert(t[t.len() - 2] == all[i - 1]);
            } else {
                assert(t =~= seq![all[0]]);
            }
            if keep {
                assert(char_views(out@) =~= char_views(before).push(all[i as int]));
            }
        }
        previous = folded;
        i += 1;
    }
    assert(all.take(items@.len() as int) =~= all);
    out
}

fn strings_of(items: &Vec<Vec<char>>) -> (r: Vec<String>)
    ensures
        string_views(r@) == char_views(items@),
{
    let mut out: Vec<String> = Vec::new();
    let mut i: usize = 0;
    while i < items.len()
        invariant
            i <= items@.len(),
            string_views(out@) == char_views(items@.take(i as int)),
        decreases items@.len() - i,
    {
        let text = string_from_chars(items[i].as_slice());
        assert(text@ == items@[i as int]@);
        let ghost before = out@;
        out.push(text);
        assert(items@.take(i + 1) =~= items@.take(i as int).push(items@[i as int]));
        assert(string_views(out@) =~= string_views(before).push(text@));
        i += 1;
        assert(string_views(out@) =~= char_views(items@.take(i as int)));
    }
    assert(items@.take(items@.len() as int) =~= items@);
    out
}

/// The spellings of the registered roots that a logger redacts.
pub fn redaction_spellings(registered_roots: &Vec<String>) -> (r: Vec<String>)
    ensures
        string_views(r@) == redaction_roots(string_views(registered_roots@)),
{
    let all = spellings_of(registered_roots);
    let sorted = sort_by_length(all);
    let unique = dedup_by_fold(&sorted);
    strings_of(&unique)
}

// ---------------------------------------------------------------------------
// The logger
// ---------------------------------------------------------------------------

/// Writes redacted diagnostic events under the application-data directory.
/// The file system work is done by its caller; the logger holds where its
/// files are and which root spellings it redacts.
pub struct DiagnosticsLogger {
    app_data_dir: String,
    logs_dir: String,
    log_path: String,
    redacted_roots: Vec<String>,
}

/// The name of the log file for a day counted from the Unix epoch.
pub open spec fn spec_log_file_name(day: u64) -> Seq<char> {
    "diagnostics-"@ + decimal(day as nat) + ".jsonl"@
}

pub fn log_file_name(day: u64) -> (r: String)
    ensures
        r@ == spec_log_file_name(day),
{
    let mut out = chars_of("diagnostics-");
    let digits = decimal_exec(day);
    extend_from(&mut out, digits.as_slice(), 0, digits.len());
    let suffix = chars_of(".jsonl");
    extend_from(&mut out, suffix.as_slice(), 0, suffix.len());
    proof {
        assert(digits@.subrange(0, digits@.len() as int) =~= digits@);
        assert(suffix@.subrange(0, suffix@.len() as int) =~= suffix@);
    }
    string_from_chars(out.as_slice())
}

/// The day of a log file: the digits after `diagnostics-` up to the first `.`.
pub open spec fn spec_log_day(name: Seq<char>) -> Option<u64> {
    let prefix = "diagnostics-"@;
    if !prefix.is_prefix_of(name) {
        None
    } else {
        let rest = name.skip(prefix.len() as int);
        crate::query::spec_parse_u64(rest.take(first_dot(rest)))
    }
}

/// The index of the first `.`, or the length where there is none.
pub open spec fn first_dot(s: Seq<char>) -> int
    decreases s.len(),
{
    if s.len() == 0 {
        0
    } else if s[0] == '.' {
        0
    } else {
        1 + first_dot(s.drop_first())
    }
}

proof fn lemma_first_dot(s: Seq<char>, i: int)
    requires
        0 <= i <= s.len(),
        forall|j: int| 0 <= j < i ==> s[j] != '.',
        i == s.len() || s[i] == '.',
    ensures
        first_dot(s) == i,
    decreases s.len(),
{
    if s.len() > 0 && s[0] != '.' {
        assert forall|j: int| 0 <= j < i - 1 implies s.drop_first()[j] != '.' by {
            assert(s.drop_first()[j] == s[j + 1]);
        }
        lemma_first_dot(s.drop_first(), i - 1);
    }
}

/// Reads the day out of a log file's name.
pub fn log_day(file_name: &str) -> (r: Option<u64>)
    ensures
        r == spec_log_day(file_name@),
{
    let name = chars_of(file_name);
    let prefix = chars_of("diagnostics-");
    if !crate::text::starts_with_chars(name.as_slice(), prefix.as_slice()) {
        return None;
    }
    let rest = crate::text::sub_chars(name.as_slice(), prefix.len(), name.len());
    assert(rest@ =~= name@.skip(prefix@.len() as int));
    let mut i: usize = 0;
    while i < rest.len() && rest[i] != '.'
        invariant
            i <= rest@.len(),
            forall|j: int| 0 <= j < i ==> rest@[j] != '.',
        decreases rest@.len() - i,
    {
        i += 1;
    }
    proof {
        lemma_first_dot(rest@, i as int);
    }
    let head = crate::text::sub_chars(rest.as_slice(), 0, i);
    assert(head@ =~= rest@.take(i as int));
    parse_u64(head.as_slice())
}

pub const LOG_RETENTION_DAYS: u64 = 7;

/// A log file expires when its day lies more than a week before today.
pub fn log_is_expired(file_name: &str, today: u64) -> (r: bool)
    ensures
        r == (match spec_log_day(file_name@) {
            Some(day) => today > day && today - day > LOG_RETENTION_DAYS,
            None => false,
        }),
{
    match log_day(file_name) {
        Some(day) => today > day && today - day > LOG_RETENTION_DAYS,
        None => false,
    }
}

pub const MAX_LOG_FILE_BYTES: u64 = 1048576;

/// Whether a log of `current` bytes must be rotated before `incoming` more.
pub fn log_needs_rotation(current: u64, incoming: u64) -> (r: bool)
    ensures
        r == (current + incoming > MAX_LOG_FILE_BYTES),
{
    let total = current.saturating_add(incoming);
    total > MAX_LOG_FILE_BYTES
}

/// How many files one day's log may span: the current one and its rotated
/// predecessors.
pub const MAX_DAILY_LOG_SEGMENTS: u64 = 3;

/// One rotation step for `segment`: the file that moves and where it goes.
/// Segment 1 is the current log, moved to `<name>.1`; segment `n` moves
/// `<name>.<n-1>` to `<name>.<n>`.
pub open spec fn rotation_step(base_name: Seq<char>, segment: nat) -> (Seq<char>, Seq<char>) {
    (
        if segment == 1 {
            base_name
        } else {
            base_name + seq!['.'] + decimal((segment - 1) as nat)
        },
        base_name + seq!['.'] + decimal(segment),
    )
}

fn dotted(base_name: &str, n: u64) -> (r: String)
    ensures
        r@ == base_name@ + seq!['.'] + decimal(n as nat),
{
    let mut out = chars_of(base_name);
    out.push('.');
    let digits = decimal_exec(n);
    extend_from(&mut out, digits.as_slice(), 0, digits.len());
    assert(digits@.subrange(0, digits@.len() as int) =~= digits@);
    string_from_chars(out.as_slice())
}

/// The moves that rotate a full log, oldest first: each step replaces
/// whatever is at its destination.
pub fn rotation_steps(base_name: &str) -> (r: Vec<(String, String)>)
    ensures
        r@.len() == MAX_DAILY_LOG_SEGMENTS - 1,
        forall|i: int|
            0 <= i < r@.len() ==> (#[trigger] r@[i].0@, r@[i].1@) == rotation_step(
                base_name@,
                (MAX_DAILY_LOG_SEGMENTS - 1 - i) as nat,
            ),
{
    let mut steps: Vec<(String, String)> = Vec::new();
    let mut segment: u64 = MAX_DAILY_LOG_SEGMENTS - 1;
    while segment >= 1
        invariant
            segment < MAX_DAILY_LOG_SEGMENTS,
            steps@.len() == MAX_DAILY_LOG_SEGMENTS - 1 - segment,
            forall|i: int|
                0 <= i < steps@.len() ==> (#[trigger] steps@[i].0@, steps@[i].1@) == rotation_step(
                    base_name@,
                    (MAX_DAILY_LOG_SEGMENTS - 1 - i) as nat,
                ),
        decreases segment,
    {
        let source = if segment == 1 {
            String::from_str(base_name)
        } else {
            dotted(base_name, segment - 1)
        };
        let destination = dotted(base_name, segment);
        steps.push((source, destination));
        segment = segment - 1;
    }
    steps
}

impl DiagnosticsLogger {
    pub closed spec fn app_data_dir_view(&self) -> Seq<char> {
        self.app_data_dir@
    }

    pub closed spec fn logs_dir_view(&self) -> Seq<char> {
        self.logs_dir@
    }

    pub closed spec fn log_path_view(&self) -> Seq<char> {
        self.log_path@
    }

    /// The root spellings redacted from messages, in the order they apply.
    pub closed spec fn roots(&self) -> Seq<Seq<char>> {
        string_views(self.redacted_roots@)
    }

    /// Assembles a logger once its directories exist: the canonical logs
    /// directory must lie inside the application-data directory, and an
    /// existing log path must be a plain file (`log_path_unsafe` says it is
    /// not).
    pub fn assemble(
        app_data_dir: String,
        logs_dir: String,
        canonical_logs: &str,
        log_path: String,
        log_path_unsafe: bool,
        registered_roots: &Vec<String>,
    ) -> (r: Result<DiagnosticsLogger, DiagnosticError>)
        ensures
            match r {
                Ok(logger) => {
                    &&& crate::paths::path_starts_with(canonical_logs@, app_data_dir@)
                    &&& !log_path_unsafe
                    &&& logger.app_data_dir_view() == app_data_dir@
                    &&& logger.logs_dir_view() == logs_dir@
                    &&& logger.log_path_view() == log_path@
                    &&& logger.roots() == redaction_roots(string_views(registered_roots@))
                },
                Err(e) => e == DiagnosticError::UnsafeLogDirectory && (!crate::paths::path_starts_with(
                    canonical_logs@,
                    app_data_dir@,
                ) || log_path_unsafe),
            },
    {
        let logs = chars_of(canonical_logs);
        let root = chars_of(app_data_dir.as_str());
        if !path_starts_with_exec(logs.as_slice(), root.as_slice()) {
            return Err(DiagnosticError::UnsafeLogDirectory);
        }
        if log_path_unsafe {
            return Err(DiagnosticError::UnsafeLogDirectory);
        }
        let redacted_roots = redaction_spellings(registered_roots);
        Ok(DiagnosticsLogger { app_data_dir, logs_dir, log_path, redacted_roots })
    }

    pub fn current_log_path(&self) -> (r: &str)
        ensures
            r@ == self.log_path_view(),
    {
        self.log_path.as_str()
    }

    pub fn log_directory(&self) -> (r: String)
        ensures
            r@ == self.logs_dir_view(),
    {
        self.logs_dir.clone()
    }

    /// The message on one line, with every registered root replaced by
    /// `[REGISTERED_ROOT]`.
    pub fn redact(&self, message: &str) -> (r: String)
        ensures
            r@ == spec_redact(message@, self.roots()),
    {
        let m = chars_of(message);
        let mut text: Vec<char> = Vec::new();
        let mut i: usize = 0;
        while i < m.len()
            invariant
                i <= m@.len(),
                text@ == flatten_lines(m@.take(i as int)),
            decreases m@.len() - i,
        {
            let c = m[i];
            text.push(if c == '\r' || c == '\n' {
                ' '
            } else {
                c
            });
            i += 1;
            assert(text@ =~= flatten_lines(m@.take(i as int)));
        }
        assert(m@.take(m@.len() as int) =~= m@);
        let placeholder = chars_of("[REGISTERED_ROOT]");
        let mut k: usize = 0;
        while k < self.redacted_roots.len()
            invariant
                k <= self.roots().len(),
                self.roots().len() == self.redacted_roots@.len(),
                placeholder@ == "[REGISTERED_ROOT]"@,
                text@ == redact_with(flatten_lines(message@), self.roots().take(k as int)),
            decreases self.redacted_roots@.len() - k,
        {
            let root = chars_of(self.redacted_roots[k].as_str());
            text = replace_chars(text.as_slice(), root.as_slice(), placeholder.as_slice());
            proof {
                let t = self.roots().take(k + 1);
                assert(t.drop_last() =~= self.roots().take(k as int));
                assert(t.last() == root@);
            }
            k += 1;
        }
        assert(self.roots().take(self.roots().len() as int) =~= self.roots());
        string_from_chars(text.as_slice())
    }
}

// ---------------------------------------------------------------------------
// Resetting application data
// ---------------------------------------------------------------------------

pub open spec fn is_lower_hex(c: char) -> bool {
    is_ascii_digit(c) || ('a' <= c && c <= 'f')
}

/// A reset nonce is 32 lower-case hexadecimal digits.
pub open spec fn spec_valid_reset_nonce(nonce: Seq<char>) -> bool {
    nonce.len() == 32 && forall|i: int| 0 <= i < nonce.len() ==> is_lower_hex(#[trigger] nonce[i])
}

pub fn valid_reset_nonce(nonce: &str) -> (r: bool)
    ensures
        r == spec_valid_reset_nonce(nonce@),
{
    let n = chars_of(nonce);
    if n.len() != 32 {
        return false;
    }
    let mut i: usize = 0;
    while i < n.len()
        invariant
            i <= n@.len(),
            n@ == nonce@,
            forall|j: int| 0 <= j < i ==> is_lower_hex(#[trigger] n@[j]),
        decreases n@.len() - i,
    {
        let c = n[i];
        if !(('0' <= c && c <= '9') || ('a' <= c && c <= 'f')) {
            assert(!is_lower_hex(n@[i as int]));
            return false;
        }
        i += 1;
    }
    true
}

/// The records a reset keeps beside the application-data directory while it
/// runs, one file each.
#[derive(Debug, Clone, Copy, PartialEq, Eq)]
pub enum ResetStateStep {
    Request,
    ParentExited,
    Owner,
    Staged,
    Deleting,
    Deleted,
    Committed,
    Completed,
    Startup,
}

/// The tag a step carries in the names of its temporary files.
pub fn reset_state_step_tag(step: ResetStateStep) -> (r: &'static str)
    ensures
        r@ == (match step {
            ResetStateStep::Request => "request"@,
            ResetStateStep::ParentExited => "parent-exited"@,
            ResetStateStep::Owner => "owner"@,
            ResetStateStep::Staged => "staged"@,
            ResetStateStep::Deleting => "deleting"@,
            ResetStateStep::Deleted => "deleted"@,
            ResetStateStep::Committed => "committed"@,
            ResetStateStep::Completed => "completed"@,
            ResetStateStep::Startup => "startup"@,
        }),
{
    match step {
        ResetStateStep::Request => "request",
        ResetStateStep::ParentExited => "parent-exited",
        ResetStateStep::Owner => "owner",
        ResetStateStep::Staged => "staged",
        ResetStateStep::Deleting => "deleting",
        ResetStateStep::Deleted => "deleted",
        ResetStateStep::Committed => "committed",
        ResetStateStep::Completed => "completed",
        ResetStateStep::Startup => "startup",
    }
}

/// The record files of a reset, beside the application-data directory.
#[derive(Debug, Clone, Copy, PartialEq, Eq)]
pub enum ResetRecord {
    Request,
    Owner,
    Cleaned,
    Deleting,
    Staged,
    ParentExited,
    Committed,
    Completed,
    Startup,
}

pub open spec fn spec_record_tag(record: ResetRecord) -> Seq<char> {
    match record {
        ResetRecord::Request => "request"@,
        ResetRecord::Owner => "owner"@,
        ResetRecord::Cleaned => "cleaned"@,
        ResetRecord::Deleting => "deleting"@,
        ResetRecord::Staged => "staged"@,
        ResetRecord::ParentExited => "parent-exited"@,
        ResetRecord::Committed => "committed"@,
        ResetRecord::Completed => "completed"@,
        ResetRecord::Startup => "startup"@,
    }
}

fn record_tag(record: ResetRecord) -> (r: &'static str)
    ensures
        r@ == spec_record_tag(record),
{
    match record {
        ResetRecord::Request => "request",
        ResetRecord::Owner => "owner",
        ResetRecord::Cleaned => "cleaned",
        ResetRecord::Deleting => "deleting",
        ResetRecord::Staged => "staged",
        ResetRecord::ParentExited => "parent-exited",
        ResetRecord::Committed => "committed",
        ResetRecord::Completed => "completed",
        ResetRecord::Startup => "startup",
    }
}

/// The name of a record file for a reset with this nonce:
/// `.com.cybereun.everyfile-reset-{tag}-{nonce}.json`.
pub fn reset_record_file_name(record: ResetRecord, nonce: &str) -> (r: Result<String, DiagnosticError>)
    ensures
        match r {
            Ok(name) => spec_valid_reset_nonce(nonce@) && name@
                == ".com.cybereun.everyfile-reset-"@ + spec_record_tag(record) + seq!['-'] + nonce@
                + ".json"@,
            Err(e) => !spec_valid_reset_nonce(nonce@) && e == DiagnosticError::InvalidResetRequest,
        },
{
    if !valid_reset_nonce(nonce) {
        return Err(DiagnosticError::InvalidResetRequest);
    }
    let mut out = chars_of(".com.cybereun.everyfile-reset-");
    crate::text::extend_chars(&mut out, chars_of(record_tag(record)).as_slice());
    out.push('-');
    crate::text::extend_chars(&mut out, chars_of(nonce).as_slice());
    crate::text::extend_chars(&mut out, chars_of(".json").as_slice());
    Ok(string_from_chars(out.as_slice()))
}

/// The name the application-data directory is moved to before deletion.
pub fn reset_quarantine_name(nonce: &str) -> (r: Result<String, DiagnosticError>)
    ensures
        match r {
            Ok(name) => spec_valid_reset_nonce(nonce@) && name@
                == ".com.cybereun.everyfile-reset-quarantine-"@ + nonce@,
            Err(e) => !spec_valid_reset_nonce(nonce@) && e == DiagnosticError::InvalidResetRequest,
        },
{
    if !valid_reset_nonce(nonce) {
        return Err(DiagnosticError::InvalidResetRequest);
    }
    let mut out = chars_of(".com.cybereun.everyfile-reset-quarantine-");
    crate::text::extend_chars(&mut out, chars_of(nonce).as_slice());
    Ok(string_from_chars(out.as_slice()))
}

/// The prefix of the empty directories staged for a reset.
pub open spec fn staging_prefix(nonce: Seq<char>) -> Seq<char> {
    ".com.cybereun.everyfile-reset-empty-"@ + nonce + seq!['-']
}

/// A staging directory's name: the prefix, then 32 lower-case hex digits,
/// and no separator.
pub open spec fn spec_valid_staging_name(nonce: Seq<char>, name: Seq<char>) -> bool {
    let prefix = staging_prefix(nonce);
    &&& prefix.is_prefix_of(name)
    &&& spec_valid_reset_nonce(name.skip(prefix.len() as int))
    &&& forall|i: int| 0 <= i < name.len() ==> !is_separator(#[trigger] name[i])
}

pub fn valid_reset_staging_name(nonce: &str, name: &str) -> (r: bool)
    ensures
        r == spec_valid_staging_name(nonce@, name@),
{
    let mut prefix = chars_of(".com.cybereun.everyfile-reset-empty-");
    crate::text::extend_chars(&mut prefix, chars_of(nonce).as_slice());
    prefix.push('-');
    let n = chars_of(name);
    if !crate::text::starts_with_chars(n.as_slice(), prefix.as_slice()) {
        return false;
    }
    let suffix = crate::text::sub_chars(n.as_slice(), prefix.len(), n.len());
    assert(suffix@ =~= name@.skip(prefix@.len() as int));
    if !valid_reset_nonce(string_from_chars(suffix.as_slice()).as_str()) {
        return false;
    }
    let mut i: usize = 0;
    while i < n.len()
        invariant
            i <= n@.len(),
            n@ == name@,
            forall|j: int| 0 <= j < i ==> !is_separator(#[trigger] n@[j]),
        decreases n@.len() - i,
    {
        if n[i] == '\\' || n[i] == '/' {
            assert(is_separator(n@[i as int]));
            return false;
        }
        i += 1;
    }
    true
}

/// The request that starts a reset: its nonce and the process that asked.
#[derive(Debug, Clone)]
pub struct ResetRequest {
    pub nonce: String,
    pub parent_pid: u32,
    pub parent_created: u64,
}

/// A file's identity on its volume.
#[derive(Debug, Clone, Copy, PartialEq, Eq, Structural)]
pub struct FileIdentity {
    pub volume: u32,
    pub index: u64,
}

/// Written once the staging directory has replaced the data directory.
#[derive(Debug, Clone)]
pub struct ResetCommitRecord {
    pub request: ResetRequest,
    pub staging_name: String,
    pub target_identity: FileIdentity,
}

/// Written once the reset's work is done.
#[derive(Debug, Clone)]
pub struct ResetCompletionRecord {
    pub commit: ResetCommitRecord,
}

/// Written once the restarted application has been launched.
#[derive(Debug, Clone)]
pub struct ResetStartupRecord {
    pub completion: ResetCompletionRecord,
    pub child_pid: u32,
    pub child_created: u64,
}

pub open spec fn same_request(a: ResetRequest, b: ResetRequest) -> bool {
    a.nonce@ == b.nonce@ && a.parent_pid == b.parent_pid && a.parent_created == b.parent_created
}

pub open spec fn same_commit(a: ResetCommitRecord, b: ResetCommitRecord) -> bool {
    same_request(a.request, b.request) && a.staging_name@ == b.staging_name@ && a.target_identity
        == b.target_identity
}

/// A commit record belongs to this request and nonce and names a staging
/// directory of that nonce.
pub open spec fn spec_commit_valid(commit: ResetCommitRecord, request: ResetRequest, nonce: Seq<char>) -> bool {
    &&& same_request(commit.request, request)
    &&& commit.request.nonce@ == nonce
    &&& spec_valid_staging_name(nonce, commit.staging_name@)
}

/// A startup record repeats the completion, names a launched process and
/// belongs to the nonce, whose commit is valid.
pub open spec fn spec_startup_valid(
    startup: ResetStartupRecord,
    completion: ResetCompletionRecord,
    nonce: Seq<char>,
) -> bool {
    &&& same_commit(startup.completion.commit, completion.commit)
    &&& startup.child_pid != 0
    &&& startup.child_created != 0
    &&& startup.completion.commit.request.nonce@ == nonce
    &&& spec_commit_valid(completion.commit, completion.commit.request, nonce)
}

fn requests_match(a: &ResetRequest, b: &ResetRequest) -> (r: bool)
    ensures
        r == same_request(*a, *b),
{
    eq_chars(chars_of(a.nonce.as_str()).as_slice(), chars_of(b.nonce.as_str()).as_slice())
        && a.parent_pid == b.parent_pid && a.parent_created == b.parent_created
}

fn commits_match(a: &ResetCommitRecord, b: &ResetCommitRecord) -> (r: bool)
    ensures
        r == same_commit(*a, *b),
{
    requests_match(&a.request, &b.request) && eq_chars(
        chars_of(a.staging_name.as_str()).as_slice(),
        chars_of(b.staging_name.as_str()).as_slice(),
    ) && a.target_identity == b.target_identity
}

/// Checks that a commit record belongs to this request and nonce.
pub fn validate_commit(commit: &ResetCommitRecord, request: &ResetRequest, nonce: &str) -> (r: Result<(), DiagnosticError>)
    ensures
        match r {
            Ok(()) => spec_commit_valid(*commit, *request, nonce@),
            Err(e) => !spec_commit_valid(*commit, *request, nonce@) && e
                == DiagnosticError::InvalidResetRequest,
        },
{
    if !requests_match(&commit.request, request) || !eq_chars(
        chars_of(commit.request.nonce.as_str()).as_slice(),
        chars_of(nonce).as_slice(),
    ) || !valid_reset_staging_name(nonce, commit.staging_name.as_str()) {
        return Err(DiagnosticError::InvalidResetRequest);
    }
    Ok(())
}

/// Checks that a completion record's commit belongs to this request and nonce.
pub fn validate_completion(completion: &ResetCompletionRecord, request: &ResetRequest, nonce: &str) -> (r: Result<(), DiagnosticError>)
    ensures
        match r {
            Ok(()) => spec_commit_valid(completion.commit, *request, nonce@),
            Err(e) => !spec_commit_valid(completion.commit, *request, nonce@) && e
                == DiagnosticError::InvalidResetRequest,
        },
{
    validate_commit(&completion.commit, request, nonce)
}

/// Checks that a startup record repeats this completion, names a launched
/// process and belongs to the nonce.
pub fn validate_startup(startup: &ResetStartupRecord, completion: &ResetCompletionRecord, nonce: &str) -> (r: Result<(), DiagnosticError>)
    ensures
        match r {
            Ok(()) => spec_startup_valid(*startup, *completion, nonce@),
            Err(e) => !spec_startup_valid(*startup, *completion, nonce@) && e
                == DiagnosticError::InvalidResetRequest,
        },
{
    if !commits_match(&startup.completion.commit, &completion.commit) || startup.child_pid == 0
        || startup.child_created == 0 || !eq_chars(
        chars_of(startup.completion.commit.request.nonce.as_str()).as_slice(),
        chars_of(nonce).as_slice(),
    ) {
        return Err(DiagnosticError::InvalidResetRequest);
    }
    validate_completion(completion, &completion.commit.request, nonce)
}

/// How a reset worker ended.
#[derive(Debug, Clone, Copy, PartialEq, Eq)]
pub enum ResetWorkerOutcome {
    Success,
    TargetConflict,
    RetryExhausted,
    Failed,
}

/// What follows one attempt of a reset: an outcome, or another attempt after
/// the retry delay.
#[derive(Debug, Clone, Copy, PartialEq, Eq)]
pub enum ResetAttemptStep {
    Finish(ResetWorkerOutcome),
    RetryAfterDelay,
}

pub open spec fn spec_after_reset_attempt(
    result: Result<(), DiagnosticError>,
    attempt: usize,
    max_attempts: usize,
) -> ResetAttemptStep {
    match result {
        Ok(()) => ResetAttemptStep::Finish(ResetWorkerOutcome::Success),
        Err(DiagnosticError::ResetLocked(_)) => if attempt + 1 < max_attempts {
            ResetAttemptStep::RetryAfterDelay
        } else {
            ResetAttemptStep::Finish(ResetWorkerOutcome::RetryExhausted)
        },
        Err(DiagnosticError::ResetTargetConflict) => ResetAttemptStep::Finish(
            ResetWorkerOutcome::TargetConflict,
        ),
        Err(_) => ResetAttemptStep::Finish(ResetWorkerOutcome::Failed),
    }
}

/// Decides after attempt number `attempt` (from 0) of at most
/// `max_attempts`: a locked file is retried while attempts remain, a
/// replaced target or any other failure ends the reset.
pub fn after_reset_attempt(result: &Result<(), DiagnosticError>, attempt: usize, max_attempts: usize) -> (r:
    ResetAttemptStep)
    ensures
        r == spec_after_reset_attempt(*result, attempt, max_attempts),
{
    match result {
        Ok(()) => ResetAttemptStep::Finish(ResetWorkerOutcome::Success),
        Err(DiagnosticError::ResetLocked(_)) => {
            if attempt < max_attempts && attempt + 1 < max_attempts {
                ResetAttemptStep::RetryAfterDelay
            } else {
                ResetAttemptStep::Finish(ResetWorkerOutcome::RetryExhausted)
            }
        },
        Err(DiagnosticError::ResetTargetConflict) => ResetAttemptStep::Finish(
            ResetWorkerOutcome::TargetConflict,
        ),
        Err(_) => ResetAttemptStep::Finish(ResetWorkerOutcome::Failed),
    }
}

/// A reset is retried only while attempts remain: the attempt after the last
/// one never asks for another.
pub proof fn law_reset_retries_are_bounded(result: Result<(), DiagnosticError>, max_attempts: usize)
    requires
        max_attempts > 0,
    ensures
        spec_after_reset_attempt(result, (max_attempts - 1) as usize, max_attempts)
            != ResetAttemptStep::RetryAfterDelay,
{
}

/// A failure of the file system during a reset: a sharing or lock violation
/// (system codes 32 and 33) means a locked file, an existing name means the
/// target was replaced; anything else is an I/O failure.
pub fn classify_reset_io(os_code: Option<i32>, already_exists: bool, message: String) -> (r:
    DiagnosticError)
    ensures
        (os_code == Some(32i32) || os_code == Some(33i32)) ==> r == DiagnosticError::ResetLocked(
            message,
        ),
        !(os_code == Some(32i32) || os_code == Some(33i32)) && already_exists ==> r
            == DiagnosticError::ResetTargetConflict,
        !(os_code == Some(32i32) || os_code == Some(33i32)) && !already_exists ==> r
            == DiagnosticError::Io(message),
{
    match os_code {
        Some(32) | Some(33) => DiagnosticError::ResetLocked(message),
        _ => {
            if already_exists {
                DiagnosticError::ResetTargetConflict
            } else {
                DiagnosticError::Io(message)
            }
        },
    }
}

/// Where an interrupted reset resumes, by the records already written.
#[derive(Debug, Clone, Copy, PartialEq, Eq)]
pub enum ResetResumePoint {
    /// A completion or startup record exists: only the clean-up is left.
    FinishCompleted,
    /// The commit record exists: the completion record is written next.
    CompleteCommitted,
    /// Neither: ownership, quarantine and the staged directory are next.
    ContinueTransaction,
}

pub fn reset_resume_point(completion_exists: bool, startup_exists: bool, commit_exists: bool) -> (r:
    ResetResumePoint)
    ensures
        (completion_exists || startup_exists) ==> r == ResetResumePoint::FinishCompleted,
        !(completion_exists || startup_exists) && commit_exists ==> r
            == ResetResumePoint::CompleteCommitted,
        !(completion_exists || startup_exists || commit_exists) ==> r
            == ResetResumePoint::ContinueTransaction,
{
    if completion_exists || startup_exists {
        ResetResumePoint::FinishCompleted
    } else if commit_exists {
        ResetResumePoint::CompleteCommitted
    } else {
        ResetResumePoint::ContinueTransaction
    }
}

/// A reset must be confirmed explicitly.
pub fn require_reset_confirmation(confirmed: bool) -> (r: Result<(), DiagnosticError>)
    ensures
        confirmed ==> r is Ok,
        !confirmed ==> r == Err::<(), DiagnosticError>(DiagnosticError::ResetConfirmationRequired),
{
    if confirmed {
        Ok(())
    } else {
        Err(DiagnosticError::ResetConfirmationRequired)
    }
}

proof fn lemma_hex_digit_is_lower_hex(n: u8)
    requires
        n < 16,
    ensures
        is_lower_hex(crate::indexing::hex_digit(n)),
{
    if n < 10 {
        assert(('0' as u32 + n) <= 57);
    } else {
        assert(('a' as u32 + (n - 10)) <= 102);
    }
}

pub proof fn lemma_hex_lower_is_nonce(bytes: Seq<u8>)
    ensures
        crate::indexing::hex_lower(bytes).len() == 2 * bytes.len(),
        forall|i: int|
            0 <= i < crate::indexing::hex_lower(bytes).len() ==> is_lower_hex(
                #[trigger] crate::indexing::hex_lower(bytes)[i],
            ),
    decreases bytes.len(),
{
    if bytes.len() > 0 {
        lemma_hex_lower_is_nonce(bytes.drop_last());
        let b = bytes.last();
        lemma_hex_digit_is_lower_hex(b / 16);
        lemma_hex_digit_is_lower_hex(b % 16);
        let prev = crate::indexing::hex_lower(bytes.drop_last());
        let h = crate::indexing::hex_lower(bytes);
        assert(h == prev + seq![crate::indexing::hex_digit(b / 16), crate::indexing::hex_digit(b % 16)]);
        assert forall|i: int| 0 <= i < h.len() implies is_lower_hex(#[trigger] h[i]) by {
            if i < prev.len() {
                assert(h[i] == prev[i]);
            }
        }
    }
}

/// What a reset worker is started with: the canonical application-data
/// directory it will reset, the fresh nonce of the reset, and the name of
/// the request record the caller writes before it spawns the worker.
#[derive(Debug, Clone)]
pub struct ResetLaunch {
    pub target: String,
    pub nonce: String,
    pub request_file: String,
}

/// The checks made before the file system is looked at: the local
/// application-data base must be known and the target must have no `..`
/// component.
pub fn reset_target_precheck(local_appdata: Option<&str>, app_data_dir: &str) -> (r: Result<
    (),
    DiagnosticError,
>)
    ensures
        local_appdata is None ==> r == Err::<(), DiagnosticError>(DiagnosticError::LocalAppDataUnavailable),
        local_appdata is Some && has_parent_component(app_data_dir@) ==> r == Err::<(), DiagnosticError>(
            DiagnosticError::UnsafeResetTarget,
        ),
        local_appdata is Some && !has_parent_component(app_data_dir@) ==> r is Ok,
{
    if local_appdata.is_none() {
        return Err(DiagnosticError::LocalAppDataUnavailable);
    }
    if contains_parent_component(chars_of(app_data_dir).as_slice()) {
        return Err(DiagnosticError::UnsafeResetTarget);
    }
    Ok(())
}

/// Starts a reset of the application data. The local application-data
/// base comes from the environment (`None` where it is not set). The target
/// is first checked as text; only then is `probe` called to look at the
/// file system, and the target is validated against what it said. A fresh
/// nonce then names the request the caller records before it spawns the
/// worker.
pub fn start_reset_worker<F: FnOnce() -> ResetTargetProbe>(
    local_appdata: Option<&str>,
    app_data_dir: &str,
    probe: F,
) -> (r: Result<ResetLaunch, DiagnosticError>)
    requires
        probe.requires(()),
    ensures
        local_appdata is None ==> r == Err::<ResetLaunch, DiagnosticError>(
            DiagnosticError::LocalAppDataUnavailable,
        ),
        local_appdata is Some && has_parent_component(app_data_dir@) ==> r == Err::<
            ResetLaunch,
            DiagnosticError,
        >(DiagnosticError::UnsafeResetTarget),
        local_appdata is Some && !has_parent_component(app_data_dir@) ==> exists|
            seen: ResetTargetProbe,
        |
            #[trigger] probe.ensures((), seen) && match spec_validate_reset_target(
            app_data_dir@,
            app_data_directory_of(local_appdata->Some_0@),
            seen,
        ) {
            Err(e) => r == Err::<ResetLaunch, DiagnosticError>(e),
            Ok(target) => r matches Ok(launch) && launch.target@ == target && spec_valid_reset_nonce(
                launch.nonce@,
            ) && launch.request_file@ == ".com.cybereun.everyfile-reset-"@ + spec_record_tag(
                ResetRecord::Request,
            ) + seq!['-'] + launch.nonce@ + ".json"@,
        },
{
    reset_target_precheck(local_appdata, app_data_dir)?;
    let local = match local_appdata {
        None => {
            return Err(DiagnosticError::LocalAppDataUnavailable);
        },
        Some(local) => local,
    };
    let seen = probe();
    let ghost observed = seen;
    let target = match validate_reset_target(local, app_data_dir, seen) {
        Ok(t) => t,
        Err(e) => {
            assert(probe.ensures((), observed));
            return Err(e);
        },
    };
    let nonce = crate::indexing::random_id();
    proof {
        let bytes = choose|bytes: Seq<u8>| bytes.len() == 16 && nonce@ == crate::indexing::hex_lower(bytes);
        lemma_hex_lower_is_nonce(bytes);
    }
    let request_file = match reset_record_file_name(ResetRecord::Request, nonce.as_str()) {
        Ok(name) => name,
        Err(e) => {
            return Err(e);
        },
    };
    let launch = ResetLaunch { target, nonce, request_file };
    assert(probe.ensures((), observed));
    Ok(launch)
}

/// A relaunch that finishes a reset: the nonce of that reset.
#[derive(Debug, Clone)]
pub struct ResetCompletionStartup {
    pub nonce: String,
}

/// Whether the process was launched to finish a reset: none unless the
/// first argument is `--reset-completed`; then exactly one valid nonce must
/// follow.
pub fn prepare_reset_completion_from_args(args: &Vec<String>) -> (r: Result<
    Option<ResetCompletionStartup>,
    DiagnosticError,
>)
    ensures
        !(args@.len() > 1 && args@[1]@ == "--reset-completed"@) ==> r matches Ok(None),
        (args@.len() > 1 && args@[1]@ == "--reset-completed"@) ==> match r {
            Ok(Some(s)) => args@.len() == 3 && spec_valid_reset_nonce(args@[2]@) && s.nonce@
                == args@[2]@,
            Ok(None) => false,
            Err(e) => e == DiagnosticError::InvalidResetRequest && (args@.len() != 3
                || !spec_valid_reset_nonce(args@[2]@)),
        },
{
    match reset_completion_nonce(args) {
        Ok(Some(nonce)) => Ok(Some(ResetCompletionStartup { nonce })),
        Ok(None) => Ok(None),
        Err(e) => Err(e),
    }
}

pub open spec fn same_startup(a: ResetStartupRecord, b: ResetStartupRecord) -> bool {
    same_commit(a.completion.commit, b.completion.commit) && a.child_pid == b.child_pid
        && a.child_created == b.child_created
}

/// Whether a relaunch may finish its reset: the startup record read back is
/// the one written, it is valid for the completion record and the nonce.
pub open spec fn spec_startup_finishable(
    nonce: Seq<char>,
    written: ResetStartupRecord,
    stored: ResetStartupRecord,
    completion: ResetCompletionRecord,
) -> bool {
    same_startup(stored, written) && spec_startup_valid(stored, completion, nonce)
        && spec_valid_reset_nonce(nonce)
}

/// Finishes a reset at startup: given the startup record that was written,
/// the one read back and the completion record, it names the receipts the
/// caller removes, the completion receipt first, then the startup receipt.
pub fn finish_reset_completion_startup(
    startup: &ResetCompletionStartup,
    written: &ResetStartupRecord,
    stored: &ResetStartupRecord,
    completion: &ResetCompletionRecord,
) -> (r: Result<Vec<String>, DiagnosticError>)
    ensures
        spec_startup_finishable(startup.nonce@, *written, *stored, *completion) ==> (r matches Ok(
            names) && names@.len() == 2 && names@[0]@ == ".com.cybereun.everyfile-reset-"@
            + spec_record_tag(ResetRecord::Completed) + seq!['-'] + startup.nonce@ + ".json"@
            && names@[1]@ == ".com.cybereun.everyfile-reset-"@ + spec_record_tag(ResetRecord::Startup)
            + seq!['-'] + startup.nonce@ + ".json"@),
        !spec_startup_finishable(startup.nonce@, *written, *stored, *completion) ==> r
            == Err::<Vec<String>, DiagnosticError>(DiagnosticError::InvalidResetRequest),
{
    if !startups_match(stored, written) {
        return Err(DiagnosticError::InvalidResetRequest);
    }
    validate_startup(stored, completion, startup.nonce.as_str())?;
    let completed = reset_record_file_name(ResetRecord::Completed, startup.nonce.as_str())?;
    let started = reset_record_file_name(ResetRecord::Startup, startup.nonce.as_str())?;
    let mut names: Vec<String> = Vec::new();
    names.push(completed);
    names.push(started);
    Ok(names)
}

fn startups_match(a: &ResetStartupRecord, b: &ResetStartupRecord) -> (r: bool)
    ensures
        r == same_startup(*a, *b),
{
    commits_match(&a.completion.commit, &b.completion.commit) && a.child_pid == b.child_pid
        && a.child_created == b.child_created
}

/// The reset request named by a worker's arguments: the flag, then a valid
/// nonce, the parent's process id and its creation time, both decimal and
/// non-zero.
pub open spec fn spec_reset_worker_request(args: Seq<Seq<char>>) -> Option<(Seq<char>, u32, u64)> {
    if args.len() == 5 && args[1] == "--everyfile-reset-after-exit"@ && spec_valid_reset_nonce(args[2])
        && crate::query::spec_parse_u32(args[3]) is Some && crate::query::spec_parse_u32(args[3])->0
        != 0 && crate::query::spec_parse_u64(args[4]) is Some && crate::query::spec_parse_u64(
        args[4],
    )->0 != 0 {
        Some((args[2], crate::query::spec_parse_u32(args[3])->0, crate::query::spec_parse_u64(args[4])->0))
    } else {
        None
    }
}

pub open spec fn args_view(args: Seq<String>) -> Seq<Seq<char>> {
    args.map_values(|a: String| a@)
}

/// Reads the reset request from a worker's arguments; `None` where they do
/// not name one, and the worker then does nothing.
pub fn reset_worker_request(args: &Vec<String>) -> (r: Option<ResetRequest>)
    ensures
        match spec_reset_worker_request(args_view(args@)) {
            Some((nonce, pid, created)) => r matches Some(req) && req.nonce@ == nonce
                && req.parent_pid == pid && req.parent_created == created,
            None => r is None,
        },
{
    let ghost av = args_view(args@);
    if args.len() != 5 {
        return None;
    }
    assert(av[1] == args@[1]@ && av[2] == args@[2]@ && av[3] == args@[3]@ && av[4] == args@[4]@);
    if !eq_literal(chars_of(args[1].as_str()).as_slice(), "--everyfile-reset-after-exit") {
        return None;
    }
    if !valid_reset_nonce(args[2].as_str()) {
        return None;
    }
    let pid = match crate::query::parse_u32(chars_of(args[3].as_str()).as_slice()) {
        Some(p) => p,
        None => {
            return None;
        },
    };
    let created = match parse_u64(chars_of(args[4].as_str()).as_slice()) {
        Some(c) => c,
        None => {
            return None;
        },
    };
    if pid == 0 || created == 0 {
        return None;
    }
    Some(ResetRequest { nonce: String::from_str(args[2].as_str()), parent_pid: pid, parent_created: created })
}

/// How many times a worker relaunches the application after a reset.
pub const MAX_RESET_RELAUNCHES: usize = 16;

/// How waiting for the relaunched application ended.
#[derive(Debug, Clone, Copy, PartialEq, Eq, Structural)]
pub enum ResetStartupWait {
    Completed,
    FailedChild,
    TimedOut,
}

/// Whether the worker relaunches the application once more after round
/// `round` (counted from 0): only after a relaunched child failed, and
/// only while rounds remain.
pub fn relaunch_after_wait(wait: ResetStartupWait, round: usize) -> (r: bool)
    ensures
        r == (wait == ResetStartupWait::FailedChild && round + 1 < MAX_RESET_RELAUNCHES),
{
    wait == ResetStartupWait::FailedChild && round < MAX_RESET_RELAUNCHES - 1
}

/// What a relaunched application does with the startup record of a reset.
#[derive(Debug, Clone, PartialEq, Eq)]
pub enum StartupResume {
    /// The record already names this process: keep it.
    KeepExisting,
    /// Ask whether the process the record names is still alive.
    CheckRecordedChild,
    /// An earlier relaunch died: write the completion record if it is
    /// missing, check the markers, remove the old startup record, then
    /// write this process's startup record.
    Resume { write_completion: bool },
    /// No startup record yet: check the target is empty, then write this
    /// process's startup record.
    Fresh,
    Refuse(DiagnosticError),
}

/// Decides how a relaunch resumes a completed reset. `existing` is the
/// startup record found, if any, and `recorded_alive` whether the process
/// it names is alive, once asked.
pub open spec fn spec_startup_resume(
    nonce: Seq<char>,
    completion: ResetCompletionRecord,
    completion_exists: bool,
    existing: Option<ResetStartupRecord>,
    child_pid: u32,
    child_created: u64,
    recorded_alive: Option<bool>,
) -> StartupResume {
    if child_pid == 0 || child_created == 0 {
        StartupResume::Refuse(DiagnosticError::InvalidResetRequest)
    } else if !spec_commit_valid(completion.commit, completion.commit.request, nonce) {
        StartupResume::Refuse(DiagnosticError::InvalidResetRequest)
    } else {
        match existing {
            None => StartupResume::Fresh,
            Some(rec) => if !spec_startup_valid(rec, completion, nonce) {
                StartupResume::Refuse(DiagnosticError::InvalidResetRequest)
            } else if rec.child_pid == child_pid && rec.child_created == child_created {
                StartupResume::KeepExisting
            } else {
                match recorded_alive {
                    None => StartupResume::CheckRecordedChild,
                    Some(true) => StartupResume::Refuse(DiagnosticError::InvalidResetRequest),
                    Some(false) => StartupResume::Resume { write_completion: !completion_exists },
                }
            },
        }
    }
}

pub fn startup_resume(
    nonce: &str,
    completion: &ResetCompletionRecord,
    completion_exists: bool,
    existing: Option<&ResetStartupRecord>,
    child_pid: u32,
    child_created: u64,
    recorded_alive: Option<bool>,
) -> (r: StartupResume)
    ensures
        r == spec_startup_resume(
            nonce@,
            *completion,
            completion_exists,
            match existing {
                Some(e) => Some(*e),
                None => None,
            },
            child_pid,
            child_created,
            recorded_alive,
        ),
{
    if child_pid == 0 || child_created == 0 {
        return StartupResume::Refuse(DiagnosticError::InvalidResetRequest);
    }
    if validate_completion(completion, &completion.commit.request, nonce).is_err() {
        return StartupResume::Refuse(DiagnosticError::InvalidResetRequest);
    }
    match existing {
        None => StartupResume::Fresh,
        Some(rec) => {
            if validate_startup(rec, completion, nonce).is_err() {
                StartupResume::Refuse(DiagnosticError::InvalidResetRequest)
            } else if rec.child_pid == child_pid && rec.child_created == child_created {
                StartupResume::KeepExisting
            } else {
                match recorded_alive {
                    None => StartupResume::CheckRecordedChild,
                    Some(true) => StartupResume::Refuse(DiagnosticError::InvalidResetRequest),
                    Some(false) => StartupResume::Resume { write_completion: !completion_exists },
                }
            }
        },
    }
}

/// Whether the arguments ask this process to run as the reset worker.
pub fn is_reset_worker_invocation(args: &Vec<String>) -> (r: bool)
    ensures
        r == (args@.len() > 1 && args@[1]@ == "--everyfile-reset-after-exit"@),
{
    if args.len() < 2 {
        return false;
    }
    let a = chars_of(args[1].as_str());
    eq_literal(a.as_slice(), "--everyfile-reset-after-exit")
}

/// The nonce of a completed reset named by the arguments: none unless the
/// first argument is `--reset-completed`; then exactly one valid nonce must
/// follow.
pub fn reset_completion_nonce(args: &Vec<String>) -> (r: Result<Option<String>, DiagnosticError>)
    ensures
        !(args@.len() > 1 && args@[1]@ == "--reset-completed"@) ==> r matches Ok(None),
        (args@.len() > 1 && args@[1]@ == "--reset-completed"@) ==> match r {
            Ok(Some(n)) => args@.len() == 3 && spec_valid_reset_nonce(args@[2]@) && n@ == args@[2]@,
            Ok(None) => false,
            Err(e) => e == DiagnosticError::InvalidResetRequest && (args@.len() != 3
                || !spec_valid_reset_nonce(args@[2]@)),
        },
{
    if args.len() < 2 {
        return Ok(None);
    }
    let a = chars_of(args[1].as_str());
    if !eq_literal(a.as_slice(), "--reset-completed") {
        return Ok(None);
    }
    if args.len() != 3 {
        return Err(DiagnosticError::InvalidResetRequest);
    }
    if !valid_reset_nonce(args[2].as_str()) {
        return Err(DiagnosticError::InvalidResetRequest);
    }
    Ok(Some(args[2].clone()))
}

/// A `..` component at `i`, separators being `\` and `/`.
pub open spec fn parent_component_at(p: Seq<char>, i: int) -> bool {
    &&& 0 <= i
    &&& i + 2 <= p.len()
    &&& p[i] == '.'
    &&& p[i + 1] == '.'
    &&& (i == 0 || is_separator(p[i - 1]))
    &&& (i + 2 == p.len() || is_separator(p[i + 2]))
}

pub open spec fn has_parent_component(p: Seq<char>) -> bool {
    exists|i: int| #[trigger] parent_component_at(p, i)
}

pub fn contains_parent_component(p: &[char]) -> (r: bool)
    ensures
        r == has_parent_component(p@),
{
    if p.len() < 2 {
        assert forall|j: int| !#[trigger] parent_component_at(p@, j) by {}
        return false;
    }
    let mut i: usize = 0;
    while i <= p.len() - 2
        invariant
            p@.len() >= 2,
            forall|j: int| 0 <= j < i ==> !#[trigger] parent_component_at(p@, j),
        decreases p@.len() - i,
    {
        if p[i] == '.' && p[i + 1] == '.' && (i == 0 || p[i - 1] == '\\' || p[i - 1] == '/') && (
        i + 2 == p.len() || p[i + 2] == '\\' || p[i + 2] == '/') {
            assert(parent_component_at(p@, i as int));
            return true;
        }
        i += 1;
    }
    assert forall|j: int| !#[trigger] parent_component_at(p@, j) by {
        if j >= i {
            assert(!(j + 2 <= p@.len()));
        }
    }
    false
}

/// Two paths name the same place when they are equal up to ASCII case.
pub open spec fn paths_equal(a: Seq<char>, b: Seq<char>) -> bool {
    crate::text::ascii_lower_seq(a) == crate::text::ascii_lower_seq(b)
}

pub fn paths_equal_exec(a: &[char], b: &[char]) -> (r: bool)
    ensures
        r == paths_equal(a@, b@),
{
    let la = crate::text::ascii_lower_chars(a);
    let lb = crate::text::ascii_lower_chars(b);
    eq_chars(la.as_slice(), lb.as_slice())
}

/// What the file system said about the paths of a reset, gathered by the
/// caller: the canonical application-data base, whether the base and the
/// expected target are plain directories, and the canonical expected and
/// requested targets. A failure to resolve carries the system's message.
pub struct ResetTargetProbe {
    pub local: Result<String, String>,
    pub directories: Result<(), DiagnosticError>,
    pub expected: Result<String, String>,
    pub resolved: Result<String, String>,
}

/// The outcome of validating a reset target: the first check that fails,
/// in the order the checks are made, or the canonical target.
pub open spec fn spec_validate_reset_target(
    target: Seq<char>,
    expected_lexical: Seq<char>,
    probe: ResetTargetProbe,
) -> Result<Seq<char>, DiagnosticError> {
    if has_parent_component(target) {
        Err(DiagnosticError::UnsafeResetTarget)
    } else {
        match probe.local {
            Err(m) => Err(DiagnosticError::Io(m)),
            Ok(local) => if !paths_equal(target, expected_lexical) {
                Err(DiagnosticError::UnsafeResetTarget)
            } else {
                match probe.directories {
                    Err(e) => Err(e),
                    Ok(_) => match probe.expected {
                        Err(m) => Err(DiagnosticError::Io(m)),
                        Ok(expected) => match probe.resolved {
                            Err(m) => Err(DiagnosticError::Io(m)),
                            Ok(resolved) => if !crate::paths::path_starts_with(resolved@, local@)
                                || !paths_equal(resolved@, expected@) {
                                Err(DiagnosticError::UnsafeResetTarget)
                            } else {
                                Ok(resolved@)
                            },
                        },
                    },
                }
            },
        }
    }
}

/// The name of the application's data directory.
pub const APP_DATA_DIRECTORY: &'static str = "com.cybereun.everyfile";

/// The application-data directory under a base directory, as `Path::join`
/// puts it there: a `\` goes between them unless the base is empty or
/// already ends with a separator.
pub open spec fn app_data_directory_of(local: Seq<char>) -> Seq<char> {
    if local.len() == 0 || is_separator(local.last()) {
        local + "com.cybereun.everyfile"@
    } else {
        local + seq!['\\'] + "com.cybereun.everyfile"@
    }
}

pub fn app_data_directory(local_appdata: &str) -> (r: String)
    ensures
        r@ == app_data_directory_of(local_appdata@),
{
    let mut out = chars_of(local_appdata);
    if out.len() > 0 && !crate::paths::char_is_separator(out[out.len() - 1]) {
        out.push('\\');
    }
    crate::text::extend_chars(&mut out, chars_of(APP_DATA_DIRECTORY).as_slice());
    string_from_chars(out.as_slice())
}

/// Validates the target of a reset: it has no `..` component, it is the
/// application-data directory under the local base, both are plain
/// directories, and its canonical form lies inside the base and equals the
/// canonical expected directory.
pub fn validate_reset_target(local_appdata: &str, target: &str, probe: ResetTargetProbe) -> (r:
    Result<String, DiagnosticError>)
    ensures
        match (r, spec_validate_reset_target(target@, app_data_directory_of(local_appdata@), probe)) {
            (Ok(p), Ok(q)) => p@ == q,
            (Err(e), Err(f)) => e == f,
            _ => false,
        },
{
    let t = chars_of(target);
    if contains_parent_component(t.as_slice()) {
        return Err(DiagnosticError::UnsafeResetTarget);
    }
    let local = match probe.local {
        Err(m) => {
            return Err(DiagnosticError::Io(m));
        },
        Ok(local) => local,
    };
    let expected_lexical = app_data_directory(local_appdata);
    let e = chars_of(expected_lexical.as_str());
    if !paths_equal_exec(t.as_slice(), e.as_slice()) {
        return Err(DiagnosticError::UnsafeResetTarget);
    }
    match probe.directories {
        Err(err) => {
            return Err(err);
        },
        Ok(_) => {},
    }
    let expected = match probe.expected {
        Err(m) => {
            return Err(DiagnosticError::Io(m));
        },
        Ok(expected) => expected,
    };
    let resolved = match probe.resolved {
        Err(m) => {
            return Err(DiagnosticError::Io(m));
        },
        Ok(resolved) => resolved,
    };
    let rc = chars_of(resolved.as_str());
    let lc = chars_of(local.as_str());
    let ec = chars_of(expected.as_str());
    if !path_starts_with_exec(rc.as_slice(), lc.as_slice()) || !paths_equal_exec(
        rc.as_slice(),
        ec.as_slice(),
    ) {
        return Err(DiagnosticError::UnsafeResetTarget);
    }
    Ok(resolved)
}

// ---------------------------------------------------------------------------
// Laws
// ---------------------------------------------------------------------------

pub open spec fn single_line(s: Seq<char>) -> bool {
    forall|i: int| 0 <= i < s.len() ==> #[trigger] s[i] != '\r' && s[i] != '\n'
}

proof fn lemma_replace_from_single_line(h: Seq<char>, from: int, target: Seq<char>, rep: Seq<char>)
    requires
        single_line(h),
        single_line(rep),
    ensures
        single_line(replace_from(h, from, target, rep)),
    decreases h.len() - from,
{
    if 0 <= from <= h.len() {
        lemma_first_match_bounds(h, from, target);
        match first_match(h, from, target) {
            Some((s, e)) => {
                lemma_replace_from_single_line(h, e, target, rep);
                let r = replace_from(h, e, target, rep);
                let out = h.subrange(from, s) + rep + r;
                assert forall|i: int| 0 <= i < out.len() implies #[trigger] out[i] != '\r'
                    && out[i] != '\n' by {
                    if i < s - from {
                        assert(out[i] == h[from + i]);
                    } else if i < s - from + rep.len() {
                        assert(out[i] == rep[i - (s - from)]);
                    } else {
                        assert(out[i] == r[i - (s - from) - rep.len()]);
                    }
                }
            },
            None => {
                let out = h.subrange(from, h.len() as int);
                assert forall|i: int| 0 <= i < out.len() implies #[trigger] out[i] != '\r'
                    && out[i] != '\n' by {
                    assert(out[i] == h[from + i]);
                }
            },
        }
    }
}

proof fn lemma_redact_with_single_line(s: Seq<char>, roots: Seq<Seq<char>>)
    requires
        single_line(s),
    ensures
        single_line(redact_with(s, roots)),
    decreases roots.len(),
{
    reveal_strlit("[REGISTERED_ROOT]");
    if roots.len() > 0 {
        lemma_redact_with_single_line(s, roots.drop_last());
        let inner = redact_with(s, roots.drop_last());
        if roots.last().len() > 0 {
            lemma_replace_from_single_line(
                inner,
                0,
                fold_path(roots.last()),
                "[REGISTERED_ROOT]"@,
            );
        }
    }
}

/// A redacted message never spans more than one line, whatever the message
/// and whatever the roots.
pub proof fn law_redacted_messages_are_single_line(message: Seq<char>, roots: Seq<Seq<char>>)
    ensures
        single_line(spec_redact(message, roots)),
{
    let flat = flatten_lines(message);
    assert forall|i: int| 0 <= i < flat.len() implies #[trigger] flat[i] != '\r' && flat[i]
        != '\n' by {}
    lemma_redact_with_single_line(flat, roots);
}

/// With no registered roots, redaction only puts the message on one line.
pub proof fn law_redaction_without_roots(message: Seq<char>)
    ensures
        spec_redact(message, seq![]) == flatten_lines(message),
{
}


/// Whether the text holds a whole-path occurrence of the root.
pub open spec fn mentions_root(h: Seq<char>, root: Seq<char>) -> bool {
    root.len() > 0 && first_match(h, 0, fold_path(root)) is Some
}

proof fn lemma_redact_without_mentions(s: Seq<char>, roots: Seq<Seq<char>>)
    requires
        forall|i: int| 0 <= i < roots.len() ==> !mentions_root(s, #[trigger] roots[i]),
    ensures
        redact_with(s, roots) == s,
    decreases roots.len(),
{
    if roots.len() > 0 {
        let init = roots.drop_last();
        assert forall|i: int| 0 <= i < init.len() implies !mentions_root(s, #[trigger] init[i]) by {
            assert(init[i] == roots[i]);
        }
        lemma_redact_without_mentions(s, init);
        let last = roots.last();
        assert(!mentions_root(s, roots[roots.len() - 1]));
        if last.len() > 0 {
            assert(s.subrange(0, s.len() as int) =~= s);
        }
    }
}

/// A message that mentions no registered root as a whole path comes out
/// as it went in, only put on one line.
pub proof fn law_messages_without_roots_are_kept(message: Seq<char>, roots: Seq<Seq<char>>)
    requires
        forall|i: int| 0 <= i < roots.len() ==> !mentions_root(flatten_lines(message), #[trigger] roots[i]),
    ensures
        spec_redact(message, roots) == flatten_lines(message),
{
    lemma_redact_without_mentions(flatten_lines(message), roots);
}
} // verus!





