//! The fixture folder an end-to-end run may register at startup.
use vstd::prelude::*;

use crate::paths::{path_starts_with, path_starts_with_exec};
use crate::text::{chars_of, extend_chars, string_from_chars};

verus! {

broadcast use vstd::string::group_string_axioms;

pub open spec fn spec_fixture_folder(
    canonical: Result<Seq<char>, Seq<char>>,
    is_dir: bool,
    fixture_root: Result<Seq<char>, Seq<char>>,
) -> Result<Seq<char>, Seq<char>> {
    match canonical {
        Err(m) => Err("invalid E2E fixture folder: "@ + m),
        Ok(c) => match fixture_root {
            Err(m) => Err("E2E fixture root is unavailable: "@ + m),
            Ok(root) => if !is_dir || !path_starts_with(c, root) {
                Err("E2E folder must be a directory under tests/fixtures"@)
            } else {
                Ok(c)
            },
        },
    }
}

pub open spec fn result_view(r: Result<String, String>) -> Result<Seq<char>, Seq<char>> {
    match r {
        Ok(s) => Ok(s@),
        Err(s) => Err(s@),
    }
}

fn prefixed_message(prefix: &str, message: &str) -> (r: String)
    ensures
        r@ == prefix@ + message@,
{
    let mut out = chars_of(prefix);
    extend_chars(&mut out, chars_of(message).as_slice());
    string_from_chars(out.as_slice())
}

/// Accepts a fixture folder only when it is a directory under the fixture
/// root. `canonical` and `fixture_root` are what resolving the folder and
/// the root gave; `is_dir` whether the folder is a directory.
pub fn validate_fixture_folder(
    canonical: Result<String, String>,
    is_dir: bool,
    fixture_root: Result<String, String>,
) -> (r: Result<String, String>)
    ensures
        result_view(r) == spec_fixture_folder(
            result_view(canonical),
            is_dir,
            result_view(fixture_root),
        ),
{
    let canonical = match canonical {
        Err(m) => {
            return Err(prefixed_message("invalid E2E fixture folder: ", m.as_str()));
        },
        Ok(c) => c,
    };
    let root = match fixture_root {
        Err(m) => {
            return Err(prefixed_message("E2E fixture root is unavailable: ", m.as_str()));
        },
        Ok(r) => r,
    };
    if !is_dir || !path_starts_with_exec(
        chars_of(canonical.as_str()).as_slice(),
        chars_of(root.as_str()).as_slice(),
    ) {
        return Err(String::from_str("E2E folder must be a directory under tests/fixtures"));
    }
    Ok(canonical)
}

} // verus!
