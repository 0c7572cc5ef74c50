//! The search query language: terms, quoted phrases, `OR`, `-exclusions`,
//! `ext:`, `path:`, `after:`, `before:` and `~N` proximity.
use vstd::prelude::*;

use crate::search::SearchError;
use crate::text::{
    all_ascii_alnum, all_ascii_alnum_exec, ascii_lower_chars, ascii_lower_seq, char_is_ascii_digit,
    char_is_whitespace, chars_of, eq_chars, extend_chars, is_ascii_digit, is_unicode_whitespace,
    join, join_chars, starts_with_chars, string_from_chars, sub_chars, trim_chars,
    trim_start_char, trim_start_matching, trim_ws,
};

verus! {

broadcast use vstd::string::group_string_axioms;

// ---------------------------------------------------------------------------
// Faults
// ---------------------------------------------------------------------------

/// The reasons a query is rejected.
#[derive(Debug, Clone, Copy, PartialEq, Eq, Structural)]
pub enum QueryFault {
    UnclosedQuote,
    MisplacedOr,
    InvalidExtension,
    EmptyPath,
    InvalidDateFormat,
    DateOutOfRange,
    NearNotNumber,
    NearOutOfRange,
    DuplicateNear,
    AfterFollowsBefore,
    NearNeedsTwoTerms,
    OrNeedsTwoTerms,
}

pub open spec fn fault_message(f: QueryFault) -> Seq<char> {
    match f {
        QueryFault::UnclosedQuote => "quoted phrase is not closed"@,
        QueryFault::MisplacedOr => "OR must appear between positive search terms"@,
        QueryFault::InvalidExtension => "extensions must contain only ASCII letters and numbers"@,
        QueryFault::EmptyPath => "path filter cannot be empty"@,
        QueryFault::InvalidDateFormat => "dates must use the YYYY-MM-DD format"@,
        QueryFault::DateOutOfRange => "date is outside the valid range"@,
        QueryFault::NearNotNumber => "near distance must be a number"@,
        QueryFault::NearOutOfRange => "near distance must be between 1 and 100"@,
        QueryFault::DuplicateNear => "only one near operator is allowed"@,
        QueryFault::AfterFollowsBefore => "after date cannot follow before date"@,
        QueryFault::NearNeedsTwoTerms => "near search requires at least two positive terms or phrases"@,
        QueryFault::OrNeedsTwoTerms => "OR requires at least two positive search terms"@,
    }
}

/// Whether `e` is the invalid-query error that reports `f`.
pub open spec fn reports(e: SearchError, f: QueryFault) -> bool {
    e matches SearchError::InvalidQuery(m) && m@ == fault_message(f)
}

pub fn fault_error(f: QueryFault) -> (e: SearchError)
    ensures
        reports(e, f),
{
    let message = match f {
        QueryFault::UnclosedQuote => "quoted phrase is not closed",
        QueryFault::MisplacedOr => "OR must appear between positive search terms",
        QueryFault::InvalidExtension => "extensions must contain only ASCII letters and numbers",
        QueryFault::EmptyPath => "path filter cannot be empty",
        QueryFault::InvalidDateFormat => "dates must use the YYYY-MM-DD format",
        QueryFault::DateOutOfRange => "date is outside the valid range",
        QueryFault::NearNotNumber => "near distance must be a number",
        QueryFault::NearOutOfRange => "near distance must be between 1 and 100",
        QueryFault::DuplicateNear => "only one near operator is allowed",
        QueryFault::AfterFollowsBefore => "after date cannot follow before date",
        QueryFault::NearNeedsTwoTerms => "near search requires at least two positive terms or phrases",
        QueryFault::OrNeedsTwoTerms => "OR requires at least two positive search terms",
    };
    SearchError::invalid_query(message)
}

// ---------------------------------------------------------------------------
// Numbers and dates
// ---------------------------------------------------------------------------

pub open spec fn all_digits(s: Seq<char>) -> bool {
    forall|i: int| 0 <= i < s.len() ==> is_ascii_digit(#[trigger] s[i])
}

/// The value of a run of decimal digits.
pub open spec fn digits_value(s: Seq<char>) -> nat
    decreases s.len(),
{
    if s.len() == 0 {
        0
    } else {
        digits_value(s.drop_last()) * 10 + ((s.last() as int) - ('0' as int)) as nat
    }
}

/// The digits of an unsigned integer literal as `from_str` reads it: the
/// text without one leading `+`.
pub open spec fn u32_digits(s: Seq<char>) -> Seq<char> {
    if s.len() > 0 && s[0] == '+' {
        s.drop_first()
    } else {
        s
    }
}

pub open spec fn spec_parse_u32(s: Seq<char>) -> Option<u32> {
    let digits = u32_digits(s);
    if digits.len() == 0 || !all_digits(digits) || digits_value(digits) > u32::MAX {
        None
    } else {
        Some(digits_value(digits) as u32)
    }
}

proof fn lemma_digits_value_prefix(s: Seq<char>, i: int)
    requires
        0 <= i <= s.len(),
        all_digits(s),
    ensures
        digits_value(s.take(i)) <= digits_value(s),
    decreases s.len() - i,
{
    if i < s.len() {
        lemma_digits_value_prefix(s, i + 1);
        assert(s.take(i + 1).drop_last() =~= s.take(i));
        assert(is_ascii_digit(s[i]));
    } else {
        assert(s.take(i) =~= s);
    }
}

/// Parses decimal digits into a `u32`, as `str::parse::<u32>` does.
pub fn parse_u32(s: &[char]) -> (r: Option<u32>)
    ensures
        r == spec_parse_u32(s@),
{
    let start: usize = if s.len() > 0 && s[0] == '+' {
        1
    } else {
        0
    };
    let digits = sub_chars(s, start, s.len());
    proof {
        if start == 1 {
            assert(digits@ =~= s@.drop_first());
        } else {
            assert(digits@ =~= s@);
        }
    }
    if digits.len() == 0 {
        return None;
    }
    let mut i: usize = 0;
    while i < digits.len()
        invariant
            i <= digits@.len(),
            digits@ == u32_digits(s@),
            forall|j: int| 0 <= j < i ==> is_ascii_digit(#[trigger] digits@[j]),
        decreases digits@.len() - i,
    {
        if !char_is_ascii_digit(digits[i]) {
            assert(!is_ascii_digit(digits@[i as int]));
            return None;
        }
        i += 1;
    }
    let mut value: u64 = 0;
    let mut i: usize = 0;
    while i < digits.len()
        invariant
            i <= digits@.len(),
            digits@ == u32_digits(s@),
            all_digits(digits@),
            value == digits_value(digits@.take(i as int)),
            value <= u32::MAX,
        decreases digits@.len() - i,
    {
        let d = (digits[i] as u32 - '0' as u32) as u64;
        assert(digits@.take(i + 1).drop_last() =~= digits@.take(i as int));
        let next = value * 10 + d;
        assert(digits_value(digits@.take(i + 1)) == next);
        if next > u32::MAX as u64 {
            proof {
                lemma_digits_value_prefix(digits@, i + 1);
            }
            return None;
        }
        value = next;
        i += 1;
    }
    assert(digits@.take(digits@.len() as int) =~= digits@);
    Some(value as u32)
}

pub open spec fn spec_parse_u64(s: Seq<char>) -> Option<u64> {
    let digits = u32_digits(s);
    if digits.len() == 0 || !all_digits(digits) || digits_value(digits) > u64::MAX {
        None
    } else {
        Some(digits_value(digits) as u64)
    }
}

/// Parses decimal digits into a `u64`, as `str::parse::<u64>` does.
pub fn parse_u64(s: &[char]) -> (r: Option<u64>)
    ensures
        r == spec_parse_u64(s@),
{
    let start: usize = if s.len() > 0 && s[0] == '+' {
        1
    } else {
        0
    };
    let digits = sub_chars(s, start, s.len());
    proof {
        if start == 1 {
            assert(digits@ =~= s@.drop_first());
        } else {
            assert(digits@ =~= s@);
        }
    }
    if digits.len() == 0 {
        return None;
    }
    let mut i: usize = 0;
    while i < digits.len()
        invariant
            i <= digits@.len(),
            digits@ == u32_digits(s@),
            forall|j: int| 0 <= j < i ==> is_ascii_digit(#[trigger] digits@[j]),
        decreases digits@.len() - i,
    {
        if !char_is_ascii_digit(digits[i]) {
            assert(!is_ascii_digit(digits@[i as int]));
            return None;
        }
        i += 1;
    }
    let mut value: u128 = 0;
    let mut i: usize = 0;
    while i < digits.len()
        invariant
            i <= digits@.len(),
            digits@ == u32_digits(s@),
            all_digits(digits@),
            value == digits_value(digits@.take(i as int)),
            value <= u64::MAX,
        decreases digits@.len() - i,
    {
        let d = (digits[i] as u32 - '0' as u32) as u128;
        assert(digits@.take(i + 1).drop_last() =~= digits@.take(i as int));
        let next = value * 10 + d;
        assert(digits_value(digits@.take(i + 1)) == next);
        if next > u64::MAX as u128 {
            proof {
                lemma_digits_value_prefix(digits@, i + 1);
            }
            return None;
        }
        value = next;
        i += 1;
    }
    assert(digits@.take(digits@.len() as int) =~= digits@);
    Some(value as u64)
}

/// Whether `v` has the shape `YYYY-MM-DD`.
pub open spec fn date_format_ok(v: Seq<char>) -> bool {
    &&& v.len() == 10
    &&& v[4] == '-'
    &&& v[7] == '-'
    &&& forall|i: int| 0 <= i < 10 && i != 4 && i != 7 ==> is_ascii_digit(#[trigger] v[i])
}

pub open spec fn is_leap_year(year: nat) -> bool {
    year % 4 == 0 && (year % 100 != 0 || year % 400 == 0)
}

pub open spec fn days_in_month(year: nat, month: nat) -> nat {
    if month == 2 && is_leap_year(year) {
        29
    } else if month == 2 {
        28
    } else if month == 4 || month == 6 || month == 9 || month == 11 {
        30
    } else {
        31
    }
}

/// Whether `v` is a calendar date written `YYYY-MM-DD`, with a nonzero year.
pub open spec fn spec_validate_date(v: Seq<char>) -> Result<(), QueryFault> {
    if !date_format_ok(v) {
        Err(QueryFault::InvalidDateFormat)
    } else {
        let year = digits_value(v.subrange(0, 4));
        let month = digits_value(v.subrange(5, 7));
        let day = digits_value(v.subrange(8, 10));
        if year == 0 || month < 1 || month > 12 {
            Err(QueryFault::DateOutOfRange)
        } else if day == 0 || day > days_in_month(year, month) {
            Err(QueryFault::DateOutOfRange)
        } else {
            Ok(())
        }
    }
}

fn small_digits_value(v: &[char], from: usize, to: usize) -> (r: u32)
    requires
        from <= to <= v@.len(),
        to - from <= 4,
        all_digits(v@.subrange(from as int, to as int)),
    ensures
        r == digits_value(v@.subrange(from as int, to as int)),
{
    let mut value: u32 = 0;
    let mut i = from;
    while i < to
        invariant
            from <= i <= to <= v@.len(),
            to - from <= 4,
            all_digits(v@.subrange(from as int, to as int)),
            value == digits_value(v@.subrange(from as int, i as int)),
            value < 10000,
            value <= if i == from {
                0int
            } else if i == from + 1 {
                9int
            } else if i == from + 2 {
                99int
            } else if i == from + 3 {
                999int
            } else {
                9999int
            },
        decreases to - i,
    {
        assert(v@.subrange(from as int, to as int)[i - from] == v@[i as int]);
        let d = v[i] as u32 - '0' as u32;
        assert(v@.subrange(from as int, i + 1).drop_last() =~= v@.subrange(from as int, i as int));
        value = value * 10 + d;
        i += 1;
    }
    value
}

fn validate_date_chars(v: &[char]) -> (r: Result<(), QueryFault>)
    ensures
        r == spec_validate_date(v@),
{
    if v.len() != 10 || v[4] != '-' || v[7] != '-' {
        return Err(QueryFault::InvalidDateFormat);
    }
    let mut i: usize = 0;
    while i < 10
        invariant
            v@.len() == 10,
            i <= 10,
            forall|j: int| 0 <= j < i && j != 4 && j != 7 ==> is_ascii_digit(#[trigger] v@[j]),
        decreases 10 - i,
    {
        if i != 4 && i != 7 && !char_is_ascii_digit(v[i]) {
            return Err(QueryFault::InvalidDateFormat);
        }
        i += 1;
    }
    proof {
        assert forall|j: int| 0 <= j < 4 implies is_ascii_digit(#[trigger] v@.subrange(0, 4)[j]) by {
            assert(v@.subrange(0, 4)[j] == v@[j]);
        }
        assert forall|j: int| 0 <= j < 2 implies is_ascii_digit(#[trigger] v@.subrange(5, 7)[j]) by {
            assert(v@.subrange(5, 7)[j] == v@[5 + j]);
        }
        assert forall|j: int| 0 <= j < 2 implies is_ascii_digit(#[trigger] v@.subrange(8, 10)[j]) by {
            assert(v@.subrange(8, 10)[j] == v@[8 + j]);
        }
    }
    let year = small_digits_value(v, 0, 4);
    let month = small_digits_value(v, 5, 7);
    let day = small_digits_value(v, 8, 10);
    if year == 0 || month < 1 || month > 12 {
        return Err(QueryFault::DateOutOfRange);
    }
    let leap = year % 4 == 0 && (year % 100 != 0 || year % 400 == 0);
    let max_day: u32 = if month == 2 && leap {
        29
    } else if month == 2 {
        28
    } else if month == 4 || month == 6 || month == 9 || month == 11 {
        30
    } else {
        31
    };
    if day == 0 || day > max_day {
        return Err(QueryFault::DateOutOfRange);
    }
    Ok(())
}

/// Accepts a calendar date written `YYYY-MM-DD`.
pub fn validate_date(value: &str) -> (r: Result<(), SearchError>)
    ensures
        match spec_validate_date(value@) {
            Ok(_) => r is Ok,
            Err(f) => r matches Err(e) && reports(e, f),
        },
{
    let v = chars_of(value);
    match validate_date_chars(v.as_slice()) {
        Ok(()) => Ok(()),
        Err(f) => Err(fault_error(f)),
    }
}

/// An extension filter as stored: trimmed, leading dots removed,
/// ASCII lower-cased; none unless it is 1 to 16 ASCII letters and digits.
pub open spec fn spec_validate_extension(v: Seq<char>) -> Option<Seq<char>> {
    let n = ascii_lower_seq(trim_start_char(trim_ws(v), '.'));
    if n.len() == 0 || n.len() > 16 || !all_ascii_alnum(n) {
        None
    } else {
        Some(n)
    }
}

fn validate_extension_chars(v: &[char]) -> (r: Option<Vec<char>>)
    ensures
        r matches Some(n) ==> spec_validate_extension(v@) == Some(n@),
        r is None ==> spec_validate_extension(v@) is None,
{
    let t = trim_chars(v);
    let t = trim_start_matching(t.as_slice(), '.');
    let n = ascii_lower_chars(t.as_slice());
    if n.len() == 0 || n.len() > 16 || !all_ascii_alnum_exec(n.as_slice()) {
        None
    } else {
        Some(n)
    }
}

/// Normalizes an extension filter, rejecting anything but 1 to 16 ASCII letters and digits.
pub fn validate_extension(value: &str) -> (r: Result<String, SearchError>)
    ensures
        match spec_validate_extension(value@) {
            Some(n) => r matches Ok(s) && s@ == n,
            None => r matches Err(e) && reports(e, QueryFault::InvalidExtension),
        },
{
    let v = chars_of(value);
    match validate_extension_chars(v.as_slice()) {
        Some(n) => Ok(string_from_chars(n.as_slice())),
        None => Err(fault_error(QueryFault::InvalidExtension)),
    }
}

// ---------------------------------------------------------------------------
// Tokens
// ---------------------------------------------------------------------------

pub struct Token {
    pub text: Vec<char>,
    pub quoted: bool,
}

pub open spec fn token_view(t: Token) -> (Seq<char>, bool) {
    (t.text@, t.quoted)
}

pub open spec fn tokens_view(v: Seq<Token>) -> Seq<(Seq<char>, bool)> {
    v.map_values(|t: Token| token_view(t))
}

/// The state of the tokenizer between characters.
pub struct TokState {
    pub tokens: Seq<(Seq<char>, bool)>,
    pub text: Seq<char>,
    pub in_quotes: bool,
    pub whole_token_quoted: bool,
    pub quoted_path: bool,
    pub quoted_characters: nat,
}

pub open spec fn tok_initial() -> TokState {
    TokState {
        tokens: seq![],
        text: seq![],
        in_quotes: false,
        whole_token_quoted: false,
        quoted_path: false,
        quoted_characters: 0,
    }
}

/// One tokenizer step at index `i`: the next index and state. Inside quotes
/// `\"` is a quote, `\\` a backslash (except as the first character of a
/// quoted `path:` value), and any other `\` stands for itself. A quote
/// opens or closes a quoted span; white space outside quotes ends a token.
pub open spec fn tok_step(input: Seq<char>, i: int, st: TokState) -> (int, TokState) {
    let c = input[i];
    if c == '\\' && st.in_quotes {
        let escaped_quote = i + 1 < input.len() && input[i + 1] == '"';
        let escaped_backslash = i + 1 < input.len() && input[i + 1] == '\\' && !(st.quoted_path
            && st.quoted_characters == 0);
        if escaped_quote {
            (
                i + 2,
                TokState {
                    text: st.text.push('"'),
                    quoted_characters: st.quoted_characters + 1,
                    ..st
                },
            )
        } else if escaped_backslash {
            (
                i + 2,
                TokState {
                    text: st.text.push('\\'),
                    quoted_characters: st.quoted_characters + 1,
                    ..st
                },
            )
        } else {
            (
                i + 1,
                TokState {
                    text: st.text.push('\\'),
                    quoted_characters: st.quoted_characters + 1,
                    ..st
                },
            )
        }
    } else if c == '"' {
        if !st.in_quotes {
            (
                i + 1,
                TokState {
                    in_quotes: true,
                    whole_token_quoted: st.text.len() == 0,
                    quoted_path: st.text == "path:"@,
                    quoted_characters: 0,
                    ..st
                },
            )
        } else {
            (i + 1, TokState { in_quotes: false, ..st })
        }
    } else if is_unicode_whitespace(c) && !st.in_quotes {
        if st.text.len() > 0 {
            (
                i + 1,
                TokState {
                    tokens: st.tokens.push((st.text, st.whole_token_quoted)),
                    text: seq![],
                    whole_token_quoted: false,
                    ..st
                },
            )
        } else {
            (i + 1, st)
        }
    } else {
        (
            i + 1,
            TokState {
                text: st.text.push(c),
                quoted_characters: if st.in_quotes {
                    st.quoted_characters + 1
                } else {
                    st.quoted_characters
                },
                ..st
            },
        )
    }
}

/// The tokenizer run from index `i` to the end of the input.
pub open spec fn tok_run(input: Seq<char>, i: int, st: TokState) -> TokState
    decreases input.len() - i,
{
    if i < 0 || i >= input.len() {
        st
    } else {
        let (j, next) = tok_step(input, i, st);
        if j <= i {
            st
        } else {
            tok_run(input, j, next)
        }
    }
}

/// The tokens of a query, or the fault that an unclosed quote reports.
pub open spec fn spec_tokenize(input: Seq<char>) -> Result<Seq<(Seq<char>, bool)>, QueryFault> {
    let end = tok_run(input, 0, tok_initial());
    if end.in_quotes {
        Err(QueryFault::UnclosedQuote)
    } else if end.text.len() > 0 {
        Ok(end.tokens.push((end.text, end.whole_token_quoted)))
    } else {
        Ok(end.tokens)
    }
}

fn tokenize(input: &[char]) -> (r: Result<Vec<Token>, QueryFault>)
    ensures
        match spec_tokenize(input@) {
            Ok(toks) => r matches Ok(v) && tokens_view(v@) == toks,
            Err(f) => r == Err::<Vec<Token>, QueryFault>(f),
        },
{
    let mut tokens: Vec<Token> = Vec::new();
    let mut text: Vec<char> = Vec::new();
    let mut in_quotes = false;
    let mut whole_token_quoted = false;
    let mut quoted_path = false;
    let mut quoted_characters: usize = 0;
    let mut i: usize = 0;
    let ghost goal = tok_run(input@, 0, tok_initial());
    proof {
        assert(tokens_view(tokens@) =~= seq![]);
    }
    while i < input.len()
        invariant
            i <= input@.len(),
            quoted_characters <= i,
            goal == tok_run(input@, 0, tok_initial()),
            tok_run(
                input@,
                i as int,
                TokState {
                    tokens: tokens_view(tokens@),
                    text: text@,
                    in_quotes,
                    whole_token_quoted,
                    quoted_path,
                    quoted_characters: quoted_characters as nat,
                },
            ) == goal,
        decreases input@.len() - i,
    {
        let ghost st = TokState {
            tokens: tokens_view(tokens@),
            text: text@,
            in_quotes,
            whole_token_quoted,
            quoted_path,
            quoted_characters: quoted_characters as nat,
        };
        let ghost step = tok_step(input@, i as int, st);
        let character = input[i];
        if character == '\\' && in_quotes {
            let next: Option<char> = if i + 1 < input.len() {
                Some(input[i + 1])
            } else {
                None
            };
            if next == Some('"') {
                text.push('"');
                i += 2;
            } else if next == Some('\\') && !(quoted_path && quoted_characters == 0) {
                text.push('\\');
                i += 2;
            } else {
                text.push('\\');
                i += 1;
            }
            quoted_characters += 1;
        } else if character == '"' {
            if !in_quotes {
                whole_token_quoted = text.len() == 0;
                quoted_path = eq_chars(text.as_slice(), &['p', 'a', 't', 'h', ':']);
                proof {
                    reveal_strlit("path:");
                    assert(['p', 'a', 't', 'h', ':']@ =~= "path:"@);
                }
                quoted_characters = 0;
            }
            in_quotes = !in_quotes;
            i += 1;
        } else if char_is_whitespace(character) && !in_quotes {
            if text.len() > 0 {
                let mut done: Vec<char> = Vec::new();
                std::mem::swap(&mut text, &mut done);
                tokens.push(Token { text: done, quoted: whole_token_quoted });
                whole_token_quoted = false;
                proof {
                    assert(tokens_view(tokens@) =~= st.tokens.push((st.text, st.whole_token_quoted)));
                }
            }
            i += 1;
        } else {
            text.push(character);
            if in_quotes {
                quoted_characters += 1;
            }
            i += 1;
        }
        proof {
            assert(step.0 == i);
            assert(step.1 == TokState {
                tokens: tokens_view(tokens@),
                text: text@,
                in_quotes,
                whole_token_quoted,
                quoted_path,
                quoted_characters: quoted_characters as nat,
            });
        }
    }
    if in_quotes {
        return Err(QueryFault::UnclosedQuote);
    }
    if text.len() > 0 {
        let ghost before = tokens_view(tokens@);
        tokens.push(Token { text, quoted: whole_token_quoted });
        proof {
            assert(tokens_view(tokens@) =~= before.push((goal.text, goal.whole_token_quoted)));
        }
    }
    Ok(tokens)
}

// ---------------------------------------------------------------------------
// The parsed query
// ---------------------------------------------------------------------------

#[derive(Debug, Clone, Default, PartialEq, Eq)]
pub struct ParsedQuery {
    pub terms: Vec<String>,
    pub phrases: Vec<String>,
    pub excluded_terms: Vec<String>,
    pub extensions: Vec<String>,
    pub path_terms: Vec<String>,
    pub after: Option<String>,
    pub before: Option<String>,
    pub near: Option<u32>,
    pub match_any: bool,
}

/// A parsed query in terms of character sequences.
pub struct QueryModel {
    pub terms: Seq<Seq<char>>,
    pub phrases: Seq<Seq<char>>,
    pub excluded_terms: Seq<Seq<char>>,
    pub extensions: Seq<Seq<char>>,
    pub path_terms: Seq<Seq<char>>,
    pub after: Option<Seq<char>>,
    pub before: Option<Seq<char>>,
    pub near: Option<u32>,
    pub match_any: bool,
}

pub open spec fn strings_view(v: Seq<String>) -> Seq<Seq<char>> {
    v.map_values(|s: String| s@)
}

pub open spec fn option_view(o: Option<String>) -> Option<Seq<char>> {
    match o {
        Some(s) => Some(s@),
        None => None,
    }
}

impl View for ParsedQuery {
    type V = QueryModel;

    open spec fn view(&self) -> QueryModel {
        QueryModel {
            terms: strings_view(self.terms@),
            phrases: strings_view(self.phrases@),
            excluded_terms: strings_view(self.excluded_terms@),
            extensions: strings_view(self.extensions@),
            path_terms: strings_view(self.path_terms@),
            after: option_view(self.after),
            before: option_view(self.before),
            near: self.near,
            match_any: self.match_any,
        }
    }
}

pub open spec fn empty_model() -> QueryModel {
    QueryModel {
        terms: seq![],
        phrases: seq![],
        excluded_terms: seq![],
        extensions: seq![],
        path_terms: seq![],
        after: None,
        before: None,
        near: None,
        match_any: false,
    }
}

/// `str::split` on one character: the pieces between occurrences, empty ones included.
pub open spec fn split_char(s: Seq<char>, c: char) -> Seq<Seq<char>>
    decreases s.len(),
{
    if s.len() == 0 {
        seq![seq![]]
    } else {
        let rest = split_char(s.drop_last(), c);
        if s.last() == c {
            rest.push(seq![])
        } else {
            rest.update(rest.len() - 1, rest.last().push(s.last()))
        }
    }
}

pub proof fn lemma_split_char_nonempty(s: Seq<char>, c: char)
    ensures
        split_char(s, c).len() >= 1,
    decreases s.len(),
{
    if s.len() > 0 {
        lemma_split_char_nonempty(s.drop_last(), c);
    }
}

/// The extension filters added by one `ext:` token, or none when one is invalid.
pub open spec fn add_extensions(pieces: Seq<Seq<char>>, acc: Seq<Seq<char>>) -> Option<
    Seq<Seq<char>>,
>
    decreases pieces.len(),
{
    if pieces.len() == 0 {
        Some(acc)
    } else {
        match spec_validate_extension(pieces[0]) {
            Some(n) => add_extensions(pieces.drop_first(), acc.push(n)),
            None => None,
        }
    }
}

pub open spec fn is_or_operator(t: (Seq<char>, bool)) -> bool {
    !t.1 && t.0 == "OR"@
}

/// The effect of the token at index `i` on the query parsed so far.
pub open spec fn apply_token(toks: Seq<(Seq<char>, bool)>, i: int, acc: QueryModel) -> Result<
    QueryModel,
    QueryFault,
> {
    let text = toks[i].0;
    let quoted = toks[i].1;
    if text.len() == 0 {
        Ok(acc)
    } else if quoted {
        Ok(QueryModel { phrases: acc.phrases.push(text), ..acc })
    } else if text == "OR"@ {
        if i > 0 && i + 1 < toks.len() && !is_or_operator(toks[i - 1]) && !is_or_operator(
            toks[i + 1],
        ) {
            Ok(QueryModel { match_any: true, ..acc })
        } else {
            Err(QueryFault::MisplacedOr)
        }
    } else if "ext:"@.is_prefix_of(text) {
        match add_extensions(split_char(text.skip(4), ','), acc.extensions) {
            Some(e) => Ok(QueryModel { extensions: e, ..acc }),
            None => Err(QueryFault::InvalidExtension),
        }
    } else if "path:"@.is_prefix_of(text) {
        if text.len() == 5 {
            Err(QueryFault::EmptyPath)
        } else {
            Ok(QueryModel { path_terms: acc.path_terms.push(text.skip(5)), ..acc })
        }
    } else if "after:"@.is_prefix_of(text) {
        match spec_validate_date(text.skip(6)) {
            Ok(_) => Ok(QueryModel { after: Some(text.skip(6)), ..acc }),
            Err(f) => Err(f),
        }
    } else if "before:"@.is_prefix_of(text) {
        match spec_validate_date(text.skip(7)) {
            Ok(_) => Ok(QueryModel { before: Some(text.skip(7)), ..acc }),
            Err(f) => Err(f),
        }
    } else if text[0] == '~' {
        match spec_parse_u32(text.skip(1)) {
            None => Err(QueryFault::NearNotNumber),
            Some(d) => if d < 1 || d > 100 {
                Err(QueryFault::NearOutOfRange)
            } else if acc.near is Some {
                Err(QueryFault::DuplicateNear)
            } else {
                Ok(QueryModel { near: Some(d), ..acc })
            },
        }
    } else if text[0] == '-' {
        if text.len() == 1 {
            Ok(QueryModel { terms: acc.terms.push(text), ..acc })
        } else {
            Ok(QueryModel { excluded_terms: acc.excluded_terms.push(text.skip(1)), ..acc })
        }
    } else {
        Ok(QueryModel { terms: acc.terms.push(text), ..acc })
    }
}

/// The query parsed from the tokens at index `i` onwards.
pub open spec fn parse_tokens(toks: Seq<(Seq<char>, bool)>, i: int, acc: QueryModel) -> Result<
    QueryModel,
    QueryFault,
>
    decreases toks.len() - i,
{
    if i < 0 || i >= toks.len() {
        Ok(acc)
    } else {
        match apply_token(toks, i, acc) {
            Ok(next) => parse_tokens(toks, i + 1, next),
            Err(f) => Err(f),
        }
    }
}

/// Lexicographic order on characters, as `str` compares.
pub open spec fn lex_less(a: Seq<char>, b: Seq<char>) -> bool
    decreases a.len(),
{
    if a.len() == 0 {
        b.len() > 0
    } else if b.len() == 0 {
        false
    } else if a[0] != b[0] {
        a[0] < b[0]
    } else {
        lex_less(a.drop_first(), b.drop_first())
    }
}

/// The checks made once all tokens are read.
pub open spec fn final_checks(m: QueryModel) -> Result<QueryModel, QueryFault> {
    if m.after is Some && m.before is Some && lex_less(m.before->0, m.after->0) {
        Err(QueryFault::AfterFollowsBefore)
    } else if m.near is Some && m.terms.len() + m.phrases.len() < 2 {
        Err(QueryFault::NearNeedsTwoTerms)
    } else if m.match_any && m.terms.len() + m.phrases.len() < 2 {
        Err(QueryFault::OrNeedsTwoTerms)
    } else {
        Ok(m)
    }
}

/// What a query string parses to.
pub open spec fn spec_parse_query(input: Seq<char>) -> Result<QueryModel, QueryFault> {
    match spec_tokenize(input) {
        Err(f) => Err(f),
        Ok(toks) => match parse_tokens(toks, 0, empty_model()) {
            Err(f) => Err(f),
            Ok(m) => final_checks(m),
        },
    }
}

pub fn lex_less_exec(a: &[char], b: &[char]) -> (r: bool)
    ensures
        r == lex_less(a@, b@),
{
    let mut i: usize = 0;
    assert(a@.skip(0) =~= a@);
    assert(b@.skip(0) =~= b@);
    while i < a.len() && i < b.len() && a[i] == b[i]
        invariant
            i <= a@.len(),
            i <= b@.len(),
            lex_less(a@, b@) == lex_less(a@.skip(i as int), b@.skip(i as int)),
        decreases a@.len() - i,
    {
        assert(a@.skip(i as int).drop_first() =~= a@.skip(i + 1));
        assert(b@.skip(i as int).drop_first() =~= b@.skip(i + 1));
        i += 1;
    }
    if i == a.len() {
        i < b.len()
    } else if i == b.len() {
        false
    } else {
        a[i] < b[i]
    }
}

fn push_string(v: &mut Vec<String>, s: &[char])
    ensures
        strings_view(final(v)@) == strings_view(old(v)@).push(s@),
{
    v.push(string_from_chars(s));
    assert(strings_view(v@) =~= strings_view(old(v)@).push(s@));
}

/// The pieces of `s` between occurrences of `c`.
pub(crate) fn split_on(s: &[char], c: char) -> (r: Vec<Vec<char>>)
    ensures
        r@.map_values(|p: Vec<char>| p@) == split_char(s@, c),
{
    let mut pieces: Vec<Vec<char>> = Vec::new();
    pieces.push(Vec::new());
    let mut i: usize = 0;
    proof {
        assert(s@.take(0) =~= seq![]);
        assert(pieces@.map_values(|p: Vec<char>| p@) =~= seq![seq![]]);
    }
    while i < s.len()
        invariant
            i <= s@.len(),
            pieces@.len() >= 1,
            pieces@.map_values(|p: Vec<char>| p@) == split_char(s@.take(i as int), c),
        decreases s@.len() - i,
    {
        let ghost before = pieces@.map_values(|p: Vec<char>| p@);
        let ch = s[i];
        if ch == c {
            pieces.push(Vec::new());
        } else {
            let mut piece = pieces.pop().unwrap();
            piece.push(ch);
            pieces.push(piece);
        }
        i += 1;
        proof {
            assert(s@.take(i as int).drop_last() =~= s@.take(i - 1));
            assert(s@.take(i as int).last() == ch);
            assert(pieces@.map_values(|p: Vec<char>| p@) =~= split_char(s@.take(i as int), c));
        }
    }
    assert(s@.take(s@.len() as int) =~= s@);
    pieces
}

fn add_extension_pieces(value: &[char], extensions: &mut Vec<String>) -> (ok: bool)
    ensures
        match add_extensions(split_char(value@, ','), strings_view(old(extensions)@)) {
            Some(e) => ok && strings_view(final(extensions)@) == e,
            None => !ok,
        },
{
    let pieces = split_on(value, ',');
    let ghost views = pieces@.map_values(|p: Vec<char>| p@);
    let mut k: usize = 0;
    assert(views.skip(0) =~= views);
    while k < pieces.len()
        invariant
            k <= pieces@.len(),
            views == pieces@.map_values(|p: Vec<char>| p@),
            views == split_char(value@, ','),
            add_extensions(views, strings_view(old(extensions)@)) == add_extensions(
                views.skip(k as int),
                strings_view(extensions@),
            ),
        decreases pieces@.len() - k,
    {
        proof {
            assert(views[k as int] == pieces@[k as int]@);
            assert(views.skip(k as int)[0] == views[k as int]);
            assert(views.skip(k as int).drop_first() =~= views.skip(k + 1));
        }
        match validate_extension_chars(pieces[k].as_slice()) {
            Some(n) => {
                push_string(extensions, n.as_slice());
            },
            None => {
                assert(spec_validate_extension(views.skip(k as int)[0]) is None);
                assert(add_extensions(views.skip(k as int), strings_view(extensions@)) is None);
                return false;
            },
        }
        k += 1;
    }
    proof {
        assert(views.skip(k as int) =~= seq![]);
    }
    true
}

fn fewer_than_two(a: usize, b: usize) -> (r: bool)
    ensures
        r == (a + b < 2),
{
    a < 2 && b < 2 - a
}

fn is_or_token(t: &Token) -> (r: bool)
    ensures
        r == is_or_operator(token_view(*t)),
{
    proof {
        reveal_strlit("OR");
        assert(['O', 'R']@ =~= "OR"@);
    }
    !t.quoted && eq_chars(t.text.as_slice(), &['O', 'R'])
}

fn literal_prefix(text: &[char], prefix: &str) -> (r: bool)
    ensures
        r == prefix@.is_prefix_of(text@),
{
    let p = chars_of(prefix);
    starts_with_chars(text, p.as_slice())
}

impl ParsedQuery {
    /// Parses a search query. Quoted text becomes a phrase; `OR` between
    /// two positive terms makes the search match any of them; `ext:a,b`,
    /// `path:x`, `after:YYYY-MM-DD` and `before:YYYY-MM-DD` add filters;
    /// `~N` asks for terms within N words; `-word` excludes a word.
    pub fn parse(input: &str) -> (r: Result<ParsedQuery, SearchError>)
        ensures
            match spec_parse_query(input@) {
                Ok(m) => r matches Ok(q) && q@ == m,
                Err(f) => r matches Err(e) && reports(e, f),
            },
    {
        let chars = chars_of(input);
        let tokens = match tokenize(chars.as_slice()) {
            Ok(tokens) => tokens,
            Err(f) => return Err(fault_error(f)),
        };
        let ghost toks = tokens_view(tokens@);
        let mut parsed = ParsedQuery {
            terms: Vec::new(),
            phrases: Vec::new(),
            excluded_terms: Vec::new(),
            extensions: Vec::new(),
            path_terms: Vec::new(),
            after: None,
            before: None,
            near: None,
            match_any: false,
        };
        proof {
            assert(parsed@.terms =~= seq![]);
            assert(parsed@.phrases =~= seq![]);
            assert(parsed@.excluded_terms =~= seq![]);
            assert(parsed@.extensions =~= seq![]);
            assert(parsed@.path_terms =~= seq![]);
        }
        let mut index: usize = 0;
        while index < tokens.len()
            invariant
                index <= tokens@.len(),
                toks == tokens_view(tokens@),
                spec_tokenize(input@) == Ok::<Seq<(Seq<char>, bool)>, QueryFault>(toks),
                parse_tokens(toks, 0, empty_model()) == parse_tokens(toks, index as int, parsed@),
            decreases tokens@.len() - index,
        {
            let ghost before = parsed@;
            let ghost expected = apply_token(toks, index as int, before);
            let token = &tokens[index];
            let text = token.text.as_slice();
            assert(toks[index as int] == token_view(*token));
            proof {
                reveal_strlit("OR");
                reveal_strlit("ext:");
                reveal_strlit("path:");
                reveal_strlit("after:");
                reveal_strlit("before:");
                assert(['O', 'R']@ =~= "OR"@);
            }
            if text.len() == 0 {
            } else if token.quoted {
                push_string(&mut parsed.phrases, text);
            } else if eq_chars(text, &['O', 'R']) {
                proof {
                    reveal_strlit("OR");
                    assert(['O', 'R']@ =~= "OR"@);
                }
                let valid_neighbors = index > 0 && index + 1 < tokens.len() && !is_or_token(
                    &tokens[index - 1],
                ) && !is_or_token(&tokens[index + 1]);
                if !valid_neighbors {
                    return Err(fault_error(QueryFault::MisplacedOr));
                }
                parsed.match_any = true;
            } else if literal_prefix(text, "ext:") {
                proof {
                    reveal_strlit("OR");
                    reveal_strlit("ext:");
                    assert(['O', 'R']@ =~= "OR"@);
                }
                let value = sub_chars(text, 4, text.len());
                assert(value@ =~= text@.skip(4));
                if !add_extension_pieces(value.as_slice(), &mut parsed.extensions) {
                    return Err(fault_error(QueryFault::InvalidExtension));
                }
            } else if literal_prefix(text, "path:") {
                proof {
                    reveal_strlit("OR");
                    reveal_strlit("path:");
                    assert(['O', 'R']@ =~= "OR"@);
                }
                if text.len() == 5 {
                    return Err(fault_error(QueryFault::EmptyPath));
                }
                let value = sub_chars(text, 5, text.len());
                assert(value@ =~= text@.skip(5));
                push_string(&mut parsed.path_terms, value.as_slice());
            } else if literal_prefix(text, "after:") {
                proof {
                    reveal_strlit("OR");
                    reveal_strlit("after:");
                    assert(['O', 'R']@ =~= "OR"@);
                }
                let value = sub_chars(text, 6, text.len());
                assert(value@ =~= text@.skip(6));
                if let Err(f) = validate_date_chars(value.as_slice()) {
                    return Err(fault_error(f));
                }
                parsed.after = Some(string_from_chars(value.as_slice()));
            } else if literal_prefix(text, "before:") {
                proof {
                    reveal_strlit("OR");
                    reveal_strlit("before:");
                    assert(['O', 'R']@ =~= "OR"@);
                }
                let value = sub_chars(text, 7, text.len());
                assert(value@ =~= text@.skip(7));
                if let Err(f) = validate_date_chars(value.as_slice()) {
                    return Err(fault_error(f));
                }
                parsed.before = Some(string_from_chars(value.as_slice()));
            } else if text[0] == '~' {
                let value = sub_chars(text, 1, text.len());
                assert(value@ =~= text@.skip(1));
                let distance = match parse_u32(value.as_slice()) {
                    Some(d) => d,
                    None => return Err(fault_error(QueryFault::NearNotNumber)),
                };
                if distance < 1 || distance > 100 {
                    return Err(fault_error(QueryFault::NearOutOfRange));
                }
                if parsed.near.is_some() {
                    return Err(fault_error(QueryFault::DuplicateNear));
                }
                parsed.near = Some(distance);
            } else if text[0] == '-' {
                if text.len() == 1 {
                    push_string(&mut parsed.terms, text);
                } else {
                    let value = sub_chars(text, 1, text.len());
                    assert(value@ =~= text@.skip(1));
                    push_string(&mut parsed.excluded_terms, value.as_slice());
                }
            } else {
                push_string(&mut parsed.terms, text);
            }
            proof {
                assert(expected == Ok::<QueryModel, QueryFault>(parsed@));
            }
            index += 1;
        }
        if let (Some(after), Some(before)) = (&parsed.after, &parsed.before) {
            let a = chars_of(after.as_str());
            let b = chars_of(before.as_str());
            if lex_less_exec(b.as_slice(), a.as_slice()) {
                return Err(fault_error(QueryFault::AfterFollowsBefore));
            }
        }
        if parsed.near.is_some() && fewer_than_two(parsed.terms.len(), parsed.phrases.len()) {
            return Err(fault_error(QueryFault::NearNeedsTwoTerms));
        }
        if parsed.match_any && fewer_than_two(parsed.terms.len(), parsed.phrases.len()) {
            return Err(fault_error(QueryFault::OrNeedsTwoTerms));
        }
        Ok(parsed)
    }

    /// Whether the query has no terms, phrases, exclusions or filters.
    pub fn is_empty(&self) -> (r: bool)
        ensures
            r == (self@.terms.len() == 0 && self@.phrases.len() == 0
                && self@.excluded_terms.len() == 0 && self@.extensions.len() == 0
                && self@.path_terms.len() == 0 && self@.after is None && self@.before is None),
    {
        self.terms.len() == 0 && self.phrases.len() == 0 && self.excluded_terms.len() == 0
            && self.extensions.len() == 0 && self.path_terms.len() == 0 && self.after.is_none()
            && self.before.is_none()
    }
}

// ---------------------------------------------------------------------------
// Full-text expressions
// ---------------------------------------------------------------------------

/// A value as an FTS string literal: in double quotes, inner quotes doubled.
pub open spec fn spec_fts_literal(v: Seq<char>) -> Seq<char> {
    seq!['"'] + crate::export::double_quotes(v) + seq!['"']
}

pub open spec fn fts_literals(vs: Seq<Seq<char>>) -> Seq<Seq<char>> {
    vs.map_values(|v: Seq<char>| spec_fts_literal(v))
}

/// An excluded term's expression: the literal, limited to title and body
/// where file names are not searched.
pub open spec fn spec_exclusion(v: Seq<char>, include_filename: bool) -> Seq<char> {
    if include_filename {
        spec_fts_literal(v)
    } else {
        "{title body} : "@ + spec_fts_literal(v)
    }
}

pub open spec fn spec_exclusions(vs: Seq<Seq<char>>, include_filename: bool) -> Seq<Seq<char>> {
    vs.map_values(|v: Seq<char>| spec_exclusion(v, include_filename))
}

/// The FTS match expression of a query: phrases then terms as literals,
/// joined by `NEAR`, `OR` or `AND`, limited to title and body where file
/// names are not searched, then `NOT` each exclusion. No positive literal
/// means no expression.
pub open spec fn spec_fts_match(q: QueryModel, include_filename: bool) -> Option<Seq<char>> {
    let positive = fts_literals(q.phrases + q.terms);
    if positive.len() == 0 {
        None
    } else {
        let joined = if q.near is Some && positive.len() > 1 {
            "NEAR("@ + join(positive, seq![' ']) + ", "@ + crate::retrieval::decimal(
                q.near.unwrap() as nat,
            ) + seq![')']
        } else if q.match_any {
            seq!['('] + join(positive, " OR "@) + seq![')']
        } else {
            join(positive, " AND "@)
        };
        let scoped = if include_filename {
            joined
        } else {
            "{title body} : ("@ + joined + seq![')']
        };
        let exclusions = spec_exclusions(q.excluded_terms, include_filename);
        if exclusions.len() == 0 {
            Some(scoped)
        } else {
            Some(scoped + " NOT "@ + join(exclusions, " NOT "@))
        }
    }
}

pub fn fts_literal(value: &str) -> (r: Vec<char>)
    ensures
        r@ == spec_fts_literal(value@),
{
    let quoted = crate::export::double_quoted(chars_of(value).as_slice());
    quoted
}

fn literals_of(a: &Vec<String>, b: &Vec<String>) -> (r: Vec<Vec<char>>)
    ensures
        r@.map_values(|p: Vec<char>| p@) == fts_literals(strings_view(a@) + strings_view(b@)),
{
    let ghost all = strings_view(a@) + strings_view(b@);
    let mut out: Vec<Vec<char>> = Vec::new();
    let mut i: usize = 0;
    while i < a.len()
        invariant
            i <= a@.len(),
            all == strings_view(a@) + strings_view(b@),
            out@.map_values(|p: Vec<char>| p@) == fts_literals(all.take(i as int)),
        decreases a@.len() - i,
    {
        let lit = fts_literal(a[i].as_str());
        let ghost before = out@;
        out.push(lit);
        proof {
            assert(all.take(i + 1) =~= all.take(i as int).push(a@[i as int]@));
            assert(out@.map_values(|p: Vec<char>| p@) =~= before.map_values(|p: Vec<char>| p@).push(
                lit@,
            ));
            assert(fts_literals(all.take(i + 1)) =~= fts_literals(all.take(i as int)).push(
                spec_fts_literal(a@[i as int]@),
            ));
            assert(out@.map_values(|p: Vec<char>| p@) =~= fts_literals(all.take(i + 1)));
        }
        i += 1;
    }
    let mut j: usize = 0;
    while j < b.len()
        invariant
            j <= b@.len(),
            all == strings_view(a@) + strings_view(b@),
            out@.map_values(|p: Vec<char>| p@) == fts_literals(all.take(a@.len() + j)),
        decreases b@.len() - j,
    {
        let lit = fts_literal(b[j].as_str());
        let ghost before = out@;
        out.push(lit);
        proof {
            assert(all.take(a@.len() + j + 1) =~= all.take(a@.len() + j).push(b@[j as int]@));
            assert(out@.map_values(|p: Vec<char>| p@) =~= before.map_values(|p: Vec<char>| p@).push(
                lit@,
            ));
            assert(fts_literals(all.take(a@.len() + j + 1)) =~= fts_literals(
                all.take(a@.len() + j),
            ).push(spec_fts_literal(b@[j as int]@)));
            assert(out@.map_values(|p: Vec<char>| p@) =~= fts_literals(all.take(a@.len() + j + 1)));
        }
        j += 1;
    }
    assert(all.take(a@.len() + b@.len() as int) =~= all);
    out
}

fn exclusions_of(v: &Vec<String>, include_filename: bool) -> (r: Vec<Vec<char>>)
    ensures
        r@.map_values(|p: Vec<char>| p@) == spec_exclusions(strings_view(v@), include_filename),
{
    let ghost all = strings_view(v@);
    let mut out: Vec<Vec<char>> = Vec::new();
    let mut i: usize = 0;
    while i < v.len()
        invariant
            i <= v@.len(),
            all == strings_view(v@),
            out@.map_values(|p: Vec<char>| p@) == spec_exclusions(all.take(i as int), include_filename),
        decreases v@.len() - i,
    {
        let lit = fts_literal(v[i].as_str());
        let e = if include_filename {
            lit
        } else {
            let mut x = chars_of("{title body} : ");
            extend_chars(&mut x, lit.as_slice());
            x
        };
        let ghost before = out@;
        out.push(e);
        proof {
            assert(all.take(i + 1) =~= all.take(i as int).push(v@[i as int]@));
            assert(out@.map_values(|p: Vec<char>| p@) =~= before.map_values(|p: Vec<char>| p@).push(
                e@,
            ));
            assert(spec_exclusions(all.take(i + 1), include_filename) =~= spec_exclusions(
                all.take(i as int),
                include_filename,
            ).push(spec_exclusion(v@[i as int]@, include_filename)));
            assert(out@.map_values(|p: Vec<char>| p@) =~= spec_exclusions(all.take(i + 1), include_filename));
        }
        i += 1;
    }
    assert(all.take(v@.len() as int) =~= all);
    out
}

impl ParsedQuery {
    /// The FTS expressions of the excluded terms.
    pub fn excluded_fts_expressions(&self, include_filename: bool) -> (r: Vec<String>)
        ensures
            strings_view(r@) == spec_exclusions(self@.excluded_terms, include_filename),
    {
        let ex = exclusions_of(&self.excluded_terms, include_filename);
        let mut out: Vec<String> = Vec::new();
        let mut i: usize = 0;
        while i < ex.len()
            invariant
                i <= ex@.len(),
                strings_view(out@) == ex@.take(i as int).map_values(|p: Vec<char>| p@),
            decreases ex@.len() - i,
        {
            let s = string_from_chars(ex[i].as_slice());
            let ghost before = out@;
            out.push(s);
            proof {
                assert(ex@.take(i + 1) =~= ex@.take(i as int).push(ex@[i as int]));
                assert(strings_view(out@) =~= strings_view(before).push(s@));
                assert(ex@.take(i + 1).map_values(|p: Vec<char>| p@) =~= ex@.take(i as int).map_values(
                    |p: Vec<char>| p@,
                ).push(ex@[i as int]@));
            }
            i += 1;
        }
        assert(ex@.take(ex@.len() as int) =~= ex@);
        out
    }

    /// The FTS match expression, or `None` when nothing positive is searched.
    pub fn fts_match_expression(&self, include_filename: bool) -> (r: Option<String>)
        ensures
            match spec_fts_match(self@, include_filename) {
                None => r is None,
                Some(e) => r matches Some(s) && s@ == e,
            },
    {
        let positive = literals_of(&self.phrases, &self.terms);
        if positive.len() == 0 {
            return None;
        }
        let mut joined: Vec<char> = match self.near {
            Some(distance) => {
                if positive.len() > 1 {
                    let mut v = chars_of("NEAR(");
                    extend_chars(&mut v, join_chars(&positive, &[' ']).as_slice());
                    extend_chars(&mut v, chars_of(", ").as_slice());
                    extend_chars(&mut v, crate::retrieval::decimal_exec(distance as u64).as_slice());
                    v.push(')');
                    proof {
                        assert([' ']@ =~= seq![' ']);
                    }
                    v
                } else if self.match_any {
                    let mut v: Vec<char> = Vec::new();
                    v.push('(');
                    extend_chars(&mut v, join_chars(&positive, chars_of(" OR ").as_slice()).as_slice());
                    v.push(')');
                    v
                } else {
                    join_chars(&positive, chars_of(" AND ").as_slice())
                }
            },
            None => {
                if self.match_any {
                    let mut v: Vec<char> = Vec::new();
                    v.push('(');
                    extend_chars(&mut v, join_chars(&positive, chars_of(" OR ").as_slice()).as_slice());
                    v.push(')');
                    v
                } else {
                    join_chars(&positive, chars_of(" AND ").as_slice())
                }
            },
        };
        let scoped = if include_filename {
            joined
        } else {
            let mut v = chars_of("{title body} : (");
            extend_chars(&mut v, joined.as_slice());
            v.push(')');
            v
        };
        let exclusions = exclusions_of(&self.excluded_terms, include_filename);
        if exclusions.len() == 0 {
            return Some(string_from_chars(scoped.as_slice()));
        }
        let mut out = scoped;
        extend_chars(&mut out, chars_of(" NOT ").as_slice());
        extend_chars(&mut out, join_chars(&exclusions, chars_of(" NOT ").as_slice()).as_slice());
        Some(string_from_chars(out.as_slice()))
    }
}


// ---------------------------------------------------------------------------
// Laws
// ---------------------------------------------------------------------------

/// An extension filter as stored: 1 to 16 lower-case ASCII letters and digits.
pub open spec fn extension_shape(e: Seq<char>) -> bool {
    &&& 0 < e.len() <= 16
    &&& forall|i: int| 0 <= i < e.len() ==> is_ascii_digit(#[trigger] e[i]) || ('a' <= e[i] && e[i] <= 'z')
}

/// What every query read so far satisfies: a proximity in range, filters of
/// the stored shapes, valid dates, and words that are neither empty nor the
/// `OR` operator.
pub open spec fn query_sound(m: QueryModel) -> bool {
    &&& m.near matches Some(d) ==> 1 <= d <= 100
    &&& forall|i: int| 0 <= i < m.extensions.len() ==> extension_shape(#[trigger] m.extensions[i])
    &&& forall|i: int| 0 <= i < m.path_terms.len() ==> (#[trigger] m.path_terms[i]).len() > 0
    &&& forall|i: int| 0 <= i < m.excluded_terms.len() ==> (#[trigger] m.excluded_terms[i]).len() > 0
    &&& forall|i: int| 0 <= i < m.terms.len() ==> (#[trigger] m.terms[i]).len() > 0 && m.terms[i] != "OR"@
    &&& m.after matches Some(a) ==> spec_validate_date(a) is Ok
    &&& m.before matches Some(b) ==> spec_validate_date(b) is Ok
}

proof fn lemma_validated_extension_shape(v: Seq<char>)
    requires
        spec_validate_extension(v) is Some,
    ensures
        extension_shape(spec_validate_extension(v)->Some_0),
{
    let n = spec_validate_extension(v)->Some_0;
    let t = trim_start_char(trim_ws(v), '.');
    assert(n == ascii_lower_seq(t));
    assert forall|i: int| 0 <= i < n.len() implies is_ascii_digit(#[trigger] n[i]) || ('a' <= n[i]
        && n[i] <= 'z') by {
        assert(all_ascii_alnum(n));
        assert(crate::text::is_ascii_alnum(n[i]));
        let c = t[i];
        assert(n[i] == crate::text::ascii_lower(c));
        if crate::text::is_ascii_upper(c) {
            assert((c as u32) + 32 <= 122);
        }
    }
}

proof fn lemma_add_extensions_shape(pieces: Seq<Seq<char>>, acc: Seq<Seq<char>>)
    requires
        forall|i: int| 0 <= i < acc.len() ==> extension_shape(#[trigger] acc[i]),
        add_extensions(pieces, acc) is Some,
    ensures
        forall|i: int|
            0 <= i < add_extensions(pieces, acc)->Some_0.len() ==> extension_shape(
                #[trigger] add_extensions(pieces, acc)->Some_0[i],
            ),
    decreases pieces.len(),
{
    if pieces.len() > 0 {
        let n = spec_validate_extension(pieces[0])->Some_0;
        lemma_validated_extension_shape(pieces[0]);
        let next = acc.push(n);
        assert forall|i: int| 0 <= i < next.len() implies extension_shape(#[trigger] next[i]) by {
            if i < acc.len() {
                assert(next[i] == acc[i]);
            }
        }
        lemma_add_extensions_shape(pieces.drop_first(), next);
    }
}

proof fn lemma_apply_token_sound(toks: Seq<(Seq<char>, bool)>, i: int, acc: QueryModel)
    requires
        0 <= i < toks.len(),
        query_sound(acc),
        apply_token(toks, i, acc) is Ok,
    ensures
        query_sound(apply_token(toks, i, acc)->Ok_0),
{
    reveal_strlit("OR");
    reveal_strlit("ext:");
    reveal_strlit("path:");
    reveal_strlit("after:");
    reveal_strlit("before:");
    let text = toks[i].0;
    let next = apply_token(toks, i, acc)->Ok_0;
    if text.len() == 0 || toks[i].1 || text == "OR"@ {
    } else if "ext:"@.is_prefix_of(text) {
        lemma_add_extensions_shape(split_char(text.skip(4), ','), acc.extensions);
    } else if "path:"@.is_prefix_of(text) {
        assert(next.path_terms == acc.path_terms.push(text.skip(5)));
        assert forall|k: int| 0 <= k < next.path_terms.len() implies (#[trigger] next.path_terms[k]).len() > 0 by {
            if k < acc.path_terms.len() {
                assert(next.path_terms[k] == acc.path_terms[k]);
            }
        }
    } else if "after:"@.is_prefix_of(text) || "before:"@.is_prefix_of(text) {
    } else if text[0] == '~' {
    } else if text[0] == '-' {
        if text.len() == 1 {
            assert(text != "OR"@) by {
                assert("OR"@.len() == 2);
            }
            assert forall|k: int| 0 <= k < next.terms.len() implies (#[trigger] next.terms[k]).len() > 0
                && next.terms[k] != "OR"@ by {
                if k < acc.terms.len() {
                    assert(next.terms[k] == acc.terms[k]);
                }
            }
        } else {
            assert forall|k: int| 0 <= k < next.excluded_terms.len() implies (
            #[trigger] next.excluded_terms[k]).len() > 0 by {
                if k < acc.excluded_terms.len() {
                    assert(next.excluded_terms[k] == acc.excluded_terms[k]);
                }
            }
        }
    } else {
        assert forall|k: int| 0 <= k < next.terms.len() implies (#[trigger] next.terms[k]).len() > 0
            && next.terms[k] != "OR"@ by {
            if k < acc.terms.len() {
                assert(next.terms[k] == acc.terms[k]);
            }
        }
    }
}

proof fn lemma_parse_tokens_sound(toks: Seq<(Seq<char>, bool)>, i: int, acc: QueryModel)
    requires
        0 <= i,
        query_sound(acc),
        parse_tokens(toks, i, acc) is Ok,
    ensures
        query_sound(parse_tokens(toks, i, acc)->Ok_0),
    decreases toks.len() - i,
{
    if i < toks.len() {
        lemma_apply_token_sound(toks, i, acc);
        lemma_parse_tokens_sound(toks, i + 1, apply_token(toks, i, acc)->Ok_0);
    }
}

/// What a successful parse guarantees: a proximity between 1 and 100,
/// proximity and `OR` only with at least two terms or phrases, extension
/// filters of 1 to 16 lower-case ASCII letters and digits, non-empty path
/// filters and exclusions, valid dates with `after` not later than
/// `before`, and no term that is empty or the `OR` operator.
pub proof fn law_parsed_queries_are_sound(input: Seq<char>)
    requires
        spec_parse_query(input) is Ok,
    ensures
        ({
            let q = spec_parse_query(input)->Ok_0;
            &&& query_sound(q)
            &&& (q.near is Some || q.match_any) ==> q.terms.len() + q.phrases.len() >= 2
            &&& (q.after is Some && q.before is Some) ==> !lex_less(q.before->0, q.after->0)
        }),
{
    let toks = spec_tokenize(input)->Ok_0;
    assert(query_sound(empty_model()));
    lemma_parse_tokens_sound(toks, 0, empty_model());
}
} // verus!

