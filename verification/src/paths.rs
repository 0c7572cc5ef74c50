//! Path text handling shared by the indexing and library modules.
//!
//! Paths are handled as their text. Both `\` and `/` separate components, as
//! they do on Windows, the platform EveryFile ships for.
use vstd::prelude::*;

use crate::text::{eq_chars, starts_with_chars, sub_chars};

verus! {

pub open spec fn is_separator(c: char) -> bool {
    c == '/' || c == '\\'
}

pub fn char_is_separator(c: char) -> (r: bool)
    ensures
        r == is_separator(c),
{
    c == '/' || c == '\\'
}

/// The index of the last separator in `s`, if any.
pub open spec fn last_separator(s: Seq<char>) -> Option<int>
    decreases s.len(),
{
    if s.len() == 0 {
        None
    } else if is_separator(s.last()) {
        Some(s.len() - 1)
    } else {
        last_separator(s.drop_last())
    }
}

/// The text after the last separator (all of `s` when it has none).
pub open spec fn last_component(s: Seq<char>) -> Seq<char> {
    match last_separator(s) {
        Some(k) => s.skip(k + 1),
        None => s,
    }
}

pub open spec fn is_dot_or_dot_dot(name: Seq<char>) -> bool {
    name == seq!['.'] || name == seq!['.', '.']
}

/// The final component of a path, as `Path::file_name` names it: none when
/// the path ends in a separator, `.` or `..`, or is empty.
pub open spec fn spec_file_name(path: Seq<char>) -> Option<Seq<char>> {
    let name = last_component(path);
    if name.len() == 0 || is_dot_or_dot_dot(name) {
        None
    } else {
        Some(name)
    }
}

/// The index of the last `.` in `s`, if any.
pub open spec fn last_dot(s: Seq<char>) -> Option<int>
    decreases s.len(),
{
    if s.len() == 0 {
        None
    } else if s.last() == '.' {
        Some(s.len() - 1)
    } else {
        last_dot(s.drop_last())
    }
}

/// The extension of a path, as `Path::extension` names it: the text after the
/// last `.` of the file name, unless that `.` starts the name.
pub open spec fn spec_extension(path: Seq<char>) -> Option<Seq<char>> {
    match spec_file_name(path) {
        Some(name) => match last_dot(name) {
            Some(d) => if d == 0 {
                None
            } else {
                Some(name.skip(d + 1))
            },
            None => None,
        },
        None => None,
    }
}

/// The file name without its extension, as `Path::file_stem` names it.
pub open spec fn spec_file_stem(path: Seq<char>) -> Option<Seq<char>> {
    match spec_file_name(path) {
        Some(name) => match last_dot(name) {
            Some(d) => if d == 0 {
                Some(name)
            } else {
                Some(name.take(d))
            },
            None => Some(name),
        },
        None => None,
    }
}

/// Whether `path` lies under `root` component by component: `root` is a
/// prefix of `path` that ends at a component boundary.
pub open spec fn path_starts_with(path: Seq<char>, root: Seq<char>) -> bool {
    &&& root.is_prefix_of(path)
    &&& (root.len() == path.len() || (root.len() > 0 && is_separator(root.last()))
        || is_separator(path[root.len() as int]))
}

proof fn lemma_last_separator_at(s: Seq<char>, k: int)
    requires
        0 <= k < s.len(),
        is_separator(s[k]),
        forall|j: int| k < j < s.len() ==> !is_separator(#[trigger] s[j]),
    ensures
        last_separator(s) == Some(k),
    decreases s.len(),
{
    if k < s.len() - 1 {
        assert(!is_separator(s[s.len() - 1]));
        assert forall|j: int| k < j < s.len() - 1 implies !is_separator(#[trigger] s.drop_last()[j]) by {
            assert(s.drop_last()[j] == s[j]);
        }
        lemma_last_separator_at(s.drop_last(), k);
    }
}

proof fn lemma_last_separator_none(s: Seq<char>)
    requires
        forall|j: int| 0 <= j < s.len() ==> !is_separator(#[trigger] s[j]),
    ensures
        last_separator(s) is None,
    decreases s.len(),
{
    if s.len() > 0 {
        assert(!is_separator(s[s.len() - 1]));
        assert forall|j: int| 0 <= j < s.len() - 1 implies !is_separator(#[trigger] s.drop_last()[j]) by {
            assert(s.drop_last()[j] == s[j]);
        }
        lemma_last_separator_none(s.drop_last());
    }
}

proof fn lemma_last_dot_at(s: Seq<char>, k: int)
    requires
        0 <= k < s.len(),
        s[k] == '.',
        forall|j: int| k < j < s.len() ==> #[trigger] s[j] != '.',
    ensures
        last_dot(s) == Some(k),
    decreases s.len(),
{
    if k < s.len() - 1 {
        assert(s[s.len() - 1] != '.');
        assert forall|j: int| k < j < s.len() - 1 implies #[trigger] s.drop_last()[j] != '.' by {
            assert(s.drop_last()[j] == s[j]);
        }
        lemma_last_dot_at(s.drop_last(), k);
    }
}

proof fn lemma_last_dot_none(s: Seq<char>)
    requires
        forall|j: int| 0 <= j < s.len() ==> #[trigger] s[j] != '.',
    ensures
        last_dot(s) is None,
    decreases s.len(),
{
    if s.len() > 0 {
        assert(s[s.len() - 1] != '.');
        assert forall|j: int| 0 <= j < s.len() - 1 implies #[trigger] s.drop_last()[j] != '.' by {
            assert(s.drop_last()[j] == s[j]);
        }
        lemma_last_dot_none(s.drop_last());
    }
}

/// The index of the last separator.
pub fn find_last_separator(s: &[char]) -> (r: Option<usize>)
    ensures
        r matches Some(k) ==> last_separator(s@) == Some(k as int) && k < s@.len(),
        r is None ==> last_separator(s@) is None,
{
    let mut i = s.len();
    while i > 0
        invariant
            i <= s@.len(),
            forall|j: int| i <= j < s@.len() ==> !is_separator(#[trigger] s@[j]),
        decreases i,
    {
        if char_is_separator(s[i - 1]) {
            proof {
                lemma_last_separator_at(s@, i - 1);
            }
            return Some(i - 1);
        }
        i -= 1;
    }
    proof {
        lemma_last_separator_none(s@);
    }
    None
}

/// The index of the last `.`.
pub fn find_last_dot(s: &[char]) -> (r: Option<usize>)
    ensures
        r matches Some(k) ==> last_dot(s@) == Some(k as int) && k < s@.len(),
        r is None ==> last_dot(s@) is None,
{
    let mut i = s.len();
    while i > 0
        invariant
            i <= s@.len(),
            forall|j: int| i <= j < s@.len() ==> #[trigger] s@[j] != '.',
        decreases i,
    {
        if s[i - 1] == '.' {
            proof {
                lemma_last_dot_at(s@, i - 1);
            }
            return Some(i - 1);
        }
        i -= 1;
    }
    proof {
        lemma_last_dot_none(s@);
    }
    None
}

/// The final component of a path.
pub fn file_name_of(path: &[char]) -> (r: Option<Vec<char>>)
    ensures
        r matches Some(v) ==> spec_file_name(path@) == Some(v@),
        r is None ==> spec_file_name(path@) is None,
{
    let name = match find_last_separator(path) {
        Some(k) => sub_chars(path, k + 1, path.len()),
        None => sub_chars(path, 0, path.len()),
    };
    proof {
        assert(path@.subrange(0, path@.len() as int) =~= path@);
        assert(name@ == last_component(path@));
    }
    if name.len() == 0 || eq_chars(name.as_slice(), &['.']) || eq_chars(
        name.as_slice(),
        &['.', '.'],
    ) {
        proof {
            assert(['.']@ =~= seq!['.']);
            assert(['.', '.']@ =~= seq!['.', '.']);
        }
        None
    } else {
        proof {
            assert(['.']@ =~= seq!['.']);
            assert(['.', '.']@ =~= seq!['.', '.']);
        }
        Some(name)
    }
}

/// The extension of a path.
pub fn extension_of(path: &[char]) -> (r: Option<Vec<char>>)
    ensures
        r matches Some(v) ==> spec_extension(path@) == Some(v@),
        r is None ==> spec_extension(path@) is None,
{
    match file_name_of(path) {
        Some(name) => match find_last_dot(name.as_slice()) {
            Some(d) => {
                assert(d < name.len());
                if d == 0 {
                    None
                } else {
                    Some(sub_chars(name.as_slice(), d + 1, name.len()))
                }
            },
            None => None,
        },
        None => None,
    }
}

/// The file name without its extension.
pub fn file_stem_of(path: &[char]) -> (r: Option<Vec<char>>)
    ensures
        r matches Some(v) ==> spec_file_stem(path@) == Some(v@),
        r is None ==> spec_file_stem(path@) is None,
{
    match file_name_of(path) {
        Some(name) => match find_last_dot(name.as_slice()) {
            Some(d) => {
                if d == 0 {
                    Some(name)
                } else {
                    Some(sub_chars(name.as_slice(), 0, d))
                }
            },
            None => Some(name),
        },
        None => None,
    }
}

/// Whether `path` lies under `root`, component by component.
pub fn path_starts_with_exec(path: &[char], root: &[char]) -> (r: bool)
    ensures
        r == path_starts_with(path@, root@),
{
    if !starts_with_chars(path, root) {
        return false;
    }
    root.len() == path.len() || (root.len() > 0 && char_is_separator(root[root.len() - 1]))
        || char_is_separator(path[root.len()])
}

} // verus!
