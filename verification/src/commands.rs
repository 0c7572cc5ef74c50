//! What the front-end commands decide for themselves: the error they return,
//! which providers take an API secret, and the suggested Markdown file name.
use vstd::prelude::*;

use crate::ocr::eq_literal;
use crate::paths::{file_stem_of, spec_file_stem};
use crate::text::{char_is_control, chars_of, is_control, string_from_chars, trim_chars, trim_ws};

verus! {

broadcast use vstd::string::group_string_axioms;

/// The error a command returns to the front end: a stable code and a message.
#[derive(Debug, Clone, PartialEq, Eq)]
pub struct CommandError {
    code: String,
    message: String,
}

impl CommandError {
    pub closed spec fn code_view(&self) -> Seq<char> {
        self.code@
    }

    pub closed spec fn message_view(&self) -> Seq<char> {
        self.message@
    }

    pub fn new(code: &str, message: &str) -> (r: CommandError)
        ensures
            r.code_view() == code@,
            r.message_view() == message@,
    {
        CommandError { code: code.to_string(), message: message.to_string() }
    }

    pub fn code(&self) -> (r: &str)
        ensures
            r@ == self.code_view(),
    {
        self.code.as_str()
    }

    pub fn message(&self) -> (r: &str)
        ensures
            r@ == self.message_view(),
    {
        self.message.as_str()
    }
}

/// API secrets are kept only for the remote providers.
pub fn validate_secret_provider(provider: &str) -> (r: Result<(), CommandError>)
    ensures
        (provider@ == "gemini"@ || provider@ == "openai"@) ==> r is Ok,
        !(provider@ == "gemini"@ || provider@ == "openai"@) ==> (r matches Err(e) && e.code_view()
            == "AI_PROVIDER_INVALID"@ && e.message_view()
            == "API secrets are supported only for Gemini and OpenAI"@),
{
    let p = chars_of(provider);
    if eq_literal(p.as_slice(), "gemini") || eq_literal(p.as_slice(), "openai") {
        Ok(())
    } else {
        Err(
            CommandError::new(
                "AI_PROVIDER_INVALID",
                "API secrets are supported only for Gemini and OpenAI",
            ),
        )
    }
}

/// Characters a Windows file name cannot hold: `< > : " / \ | ? *` and
/// control characters.
pub open spec fn forbidden_in_file_name(c: char) -> bool {
    c == '<' || c == '>' || c == ':' || c == '"' || c == '/' || c == '\\' || c == '|' || c == '?'
        || c == '*' || is_control(c)
}

pub open spec fn without_forbidden(s: Seq<char>) -> Seq<char>
    decreases s.len(),
{
    if s.len() == 0 {
        seq![]
    } else if forbidden_in_file_name(s.last()) {
        without_forbidden(s.drop_last())
    } else {
        without_forbidden(s.drop_last()).push(s.last())
    }
}

pub open spec fn at_most(s: Seq<char>, n: int) -> Seq<char> {
    if s.len() > n {
        s.take(n)
    } else {
        s
    }
}

/// The suggested name of a Markdown export: the file's stem without
/// forbidden characters, at most 120 characters, and `document` where
/// nothing usable is left, with `.md` appended.
pub open spec fn spec_markdown_file_name(file_name: Seq<char>) -> Seq<char> {
    let stem = match spec_file_stem(file_name) {
        Some(s) => s,
        None => "document"@,
    };
    let safe = at_most(without_forbidden(stem), 120);
    (if trim_ws(safe).len() == 0 {
        "document"@
    } else {
        safe
    }) + ".md"@
}

pub fn markdown_file_name(file_name: &str) -> (r: String)
    ensures
        r@ == spec_markdown_file_name(file_name@),
{
    let name = chars_of(file_name);
    let stem = match file_stem_of(name.as_slice()) {
        Some(s) => s,
        None => chars_of("document"),
    };
    let mut safe: Vec<char> = Vec::new();
    let mut i: usize = 0;
    while i < stem.len() && safe.len() < 120
        invariant
            i <= stem@.len(),
            safe@ == at_most(without_forbidden(stem@.take(i as int)), 120),
            safe@.len() <= 120,
        decreases stem@.len() - i,
    {
        let c = stem[i];
        let forbidden = c == '<' || c == '>' || c == ':' || c == '"' || c == '/' || c == '\\' || c
            == '|' || c == '?' || c == '*' || char_is_control(c);
        proof {
            assert(stem@.take(i + 1).drop_last() =~= stem@.take(i as int));
            lemma_without_forbidden_len(stem@.take(i as int));
        }
        if !forbidden {
            safe.push(c);
        }
        i += 1;
    }
    proof {
        if i < stem@.len() {
            lemma_at_most_saturates(stem@, i as int);
        } else {
            assert(stem@.take(i as int) =~= stem@);
        }
    }
    let trimmed = trim_chars(safe.as_slice());
    let mut out = if trimmed.len() == 0 {
        chars_of("document")
    } else {
        safe
    };
    let ghost before = out@;
    out.push('.');
    out.push('m');
    out.push('d');
    proof {
        reveal_strlit(".md");
        assert(out@ =~= before + ".md"@);
    }
    string_from_chars(out.as_slice())
}

proof fn lemma_without_forbidden_len(s: Seq<char>)
    ensures
        without_forbidden(s).len() <= s.len(),
    decreases s.len(),
{
    if s.len() > 0 {
        lemma_without_forbidden_len(s.drop_last());
    }
}

proof fn lemma_without_forbidden_prefix(s: Seq<char>, i: int, j: int)
    requires
        0 <= i <= j <= s.len(),
    ensures
        without_forbidden(s.take(i)).is_prefix_of(without_forbidden(s.take(j))),
    decreases j - i,
{
    if i < j {
        lemma_without_forbidden_prefix(s, i, j - 1);
        assert(s.take(j).drop_last() =~= s.take(j - 1));
    }
}

/// Once 120 characters are kept, the rest of the stem no longer matters.
proof fn lemma_at_most_saturates(s: Seq<char>, i: int)
    requires
        0 <= i <= s.len(),
        at_most(without_forbidden(s.take(i)), 120).len() >= 120,
    ensures
        at_most(without_forbidden(s), 120) == at_most(without_forbidden(s.take(i)), 120),
{
    lemma_without_forbidden_prefix(s, i, s.len() as int);
    assert(s.take(s.len() as int) =~= s);
    let a = without_forbidden(s.take(i));
    let b = without_forbidden(s);
    assert(a.len() >= 120);
    assert(b.take(120) =~= a.take(120));
}

} // verus!
