//! The SQL of a search: the conditions a request and its parsed query put on
//! the documents, their parameters, the filters they report as applied, the
//! statement that counts the hits and the one that reads a page of them.
use vstd::prelude::*;

use crate::models::{SearchMatchKind, SearchMode, SearchRequest, TermMode};
use crate::ocr::eq_literal;
use crate::query::{
    fault_error, option_view, reports, spec_exclusions, spec_fts_match, spec_validate_date,
    spec_validate_extension, strings_view, validate_date, validate_extension, ParsedQuery,
    QueryFault, QueryModel,
};
use crate::retrieval::{decimal, decimal_u128};
use crate::search::{escape_like, is_invalid_request, sort_clause, spec_escape_like, spec_sort_clause, SearchError};
use crate::text::{chars_of, eq_chars, extend_chars, join, join_chars, string_from_chars};

verus! {

broadcast use vstd::string::group_string_axioms;

pub const MATCH_CONDITION: &'static str = "document_fts MATCH ?";

pub const NOT_IN_FTS_CONDITION: &'static str = "NOT EXISTS (\n                               SELECT 1 FROM document_fts\n                               WHERE document_fts.document_id = d.id\n                                 AND document_fts MATCH ?\n                             )";

pub const INDEXED_CONDITION: &'static str = "EXISTS (\n                               SELECT 1 FROM document_fts indexed_fts\n                               WHERE indexed_fts.document_id = d.id\n                             )";

pub const NAME_NOT_LIKE_CONDITION: &'static str = "LOWER(d.file_name) NOT LIKE LOWER(?) ESCAPE '\\'";

pub const PATH_LIKE_CONDITION: &'static str = "d.canonical_path LIKE ? ESCAPE '\\'";

pub const EXTENSIONLESS_CONDITION: &'static str = "TRIM(d.extension) = ''";

pub const FTS_FROM: &'static str = "FROM document_fts JOIN documents d ON d.id = document_fts.document_id";

pub const PLAIN_FROM: &'static str = "FROM documents d";

pub const FTS_SNIPPET: &'static str = "snippet(document_fts, -1, '<mark>', '</mark>', '…', 24)";

pub const FTS_MATCH_KIND: &'static str = "CASE\n               WHEN highlight(document_fts, 1, '<mark>', '</mark>') != document_fts.file_name\n                AND (highlight(document_fts, 2, '<mark>', '</mark>') != document_fts.title\n                  OR highlight(document_fts, 3, '<mark>', '</mark>') != document_fts.body)\n                 THEN 'both'\n               WHEN highlight(document_fts, 1, '<mark>', '</mark>') != document_fts.file_name\n                 THEN 'filename'\n               ELSE 'content'\n             END";

pub const HITS_HEAD: &'static str = "SELECT d.id, d.file_name, d.canonical_path, d.extension, d.size_bytes,\n                    d.modified_at, ";

pub const LINE_BREAK: &'static str = "\n             ";

/// A search's SQL as it is put together: the conditions, their parameters
/// in order, and the filters reported as applied.
pub struct SqlDraft {
    pub conditions: Seq<Seq<char>>,
    pub values: Seq<Seq<char>>,
    pub applied: Seq<Seq<char>>,
}

pub open spec fn seqs_view(v: Seq<Vec<char>>) -> Seq<Seq<char>> {
    v.map_values(|x: Vec<char>| x@)
}

/// The numbered parameter `?n`.
pub open spec fn placeholder(n: nat) -> Seq<char> {
    seq!['?'] + decimal(n)
}

/// A value searched for anywhere in a name or path.
pub open spec fn like_pattern(v: Seq<char>) -> Seq<char> {
    seq!['%'] + spec_escape_like(v) + seq!['%']
}

pub open spec fn like_patterns(vs: Seq<Seq<char>>) -> Seq<Seq<char>> {
    vs.map_values(|v: Seq<char>| like_pattern(v))
}

/// A label added to the applied filters unless already there.
pub open spec fn with_label(applied: Seq<Seq<char>>, label: Seq<char>) -> Seq<Seq<char>> {
    if applied.contains(label) {
        applied
    } else {
        applied.push(label)
    }
}

/// The parameters `?start`, `?start+1`, ... for `count` values.
pub open spec fn placeholders(start: nat, count: nat) -> Seq<Seq<char>> {
    Seq::new(count, |i: int| placeholder((start + i) as nat))
}

/// A column that must be one of the items.
pub open spec fn list_filter(d: SqlDraft, column: Seq<char>, items: Seq<Seq<char>>, label: Seq<char>) -> SqlDraft {
    if items.len() == 0 {
        d
    } else {
        SqlDraft {
            conditions: d.conditions.push(
                column + " IN ("@ + join(placeholders(d.values.len() + 1, items.len()), ", "@)
                    + seq![')'],
            ),
            values: d.values + items,
            applied: with_label(d.applied, label),
        }
    }
}

/// A bound on the modification date, checked first.
pub open spec fn date_filter(
    d: SqlDraft,
    value: Option<Seq<char>>,
    operator: Seq<char>,
    label: Seq<char>,
) -> Result<SqlDraft, QueryFault> {
    match value {
        None => Ok(d),
        Some(v) => match spec_validate_date(v) {
            Err(f) => Err(f),
            Ok(_) => Ok(
                SqlDraft {
                    conditions: d.conditions.push(
                        "substr(d.modified_at, 1, 10) "@ + operator + seq![' '] + placeholder(
                            d.values.len() + 1,
                        ),
                    ),
                    values: d.values.push(v),
                    applied: with_label(d.applied, label),
                },
            ),
        },
    }
}

/// Each path term must occur in the canonical path.
pub open spec fn path_filter(d: SqlDraft, terms: Seq<Seq<char>>) -> SqlDraft {
    SqlDraft {
        conditions: d.conditions + Seq::new(terms.len(), |i: int| PATH_LIKE_CONDITION@),
        values: d.values + like_patterns(terms),
        applied: if terms.len() > 0 {
            d.applied.push("path"@)
        } else {
            d.applied
        },
    }
}

struct Draft {
    conditions: Vec<Vec<char>>,
    values: Vec<Vec<char>>,
    applied: Vec<Vec<char>>,
}

spec fn draft_view(d: Draft) -> SqlDraft {
    SqlDraft {
        conditions: seqs_view(d.conditions@),
        values: seqs_view(d.values@),
        applied: seqs_view(d.applied@),
    }
}

fn push_chars(v: &mut Vec<Vec<char>>, item: Vec<char>)
    ensures
        seqs_view(final(v)@) == seqs_view(old(v)@).push(item@),
{
    v.push(item);
    assert(seqs_view(v@) =~= seqs_view(old(v)@).push(item@));
}

fn add_label(applied: &mut Vec<Vec<char>>, label: &str)
    ensures
        seqs_view(final(applied)@) == with_label(seqs_view(old(applied)@), label@),
{
    let l = chars_of(label);
    let ghost view = seqs_view(applied@);
    let mut i: usize = 0;
    while i < applied.len()
        invariant
            i <= applied@.len(),
            view == seqs_view(applied@),
            applied@ == old(applied)@,
            l@ == label@,
            forall|j: int| 0 <= j < i ==> view[j] != label@,
        decreases applied@.len() - i,
    {
        if eq_chars(applied[i].as_slice(), l.as_slice()) {
            assert(view[i as int] == label@);
            assert(view.contains(label@));
            return;
        }
        i += 1;
    }
    assert(!view.contains(label@)) by {
        if view.contains(label@) {
            let k = choose|k: int| 0 <= k < view.len() && view[k] == label@;
            assert(view[k] != label@);
        }
    }
    push_chars(applied, l);
}

fn placeholder_exec(n: u128) -> (r: Vec<char>)
    ensures
        r@ == placeholder(n as nat),
{
    let mut out: Vec<char> = Vec::new();
    out.push('?');
    extend_chars(&mut out, decimal_u128(n).as_slice());
    assert(out@ =~= placeholder(n as nat));
    out
}

fn like_pattern_exec(v: &str) -> (r: Vec<char>)
    ensures
        r@ == like_pattern(v@),
{
    let mut out: Vec<char> = Vec::new();
    out.push('%');
    extend_chars(&mut out, chars_of(escape_like(v).as_str()).as_slice());
    out.push('%');
    assert(out@ =~= like_pattern(v@));
    out
}

fn add_list_filter(d: &mut Draft, column: &str, items: &Vec<String>, label: &str)
    ensures
        draft_view(*final(d)) == list_filter(draft_view(*old(d)), column@, strings_view(items@), label@),
{
    if items.len() == 0 {
        return;
    }
    let ghost d0 = draft_view(*d);
    let start: u128 = d.values.len() as u128 + 1;
    let mut marks: Vec<Vec<char>> = Vec::new();
    let mut i: usize = 0;
    assert(d.values@.len() <= u64::MAX);
    while i < items.len()
        invariant
            i <= items@.len(),
            items@.len() <= u64::MAX,
            start == d0.values.len() + 1,
            start <= u64::MAX + 1,
            d0 == draft_view(*old(d)),
            seqs_view(d.values@) == d0.values + strings_view(items@).take(i as int),
            seqs_view(marks@) == placeholders(start as nat, i as nat),
            seqs_view(d.conditions@) == d0.conditions,
            seqs_view(d.applied@) == d0.applied,
        decreases items@.len() - i,
    {
        push_chars(&mut d.values, chars_of(items[i].as_str()));
        push_chars(&mut marks, placeholder_exec(start + i as u128));
        i += 1;
        proof {
            assert(strings_view(items@).take(i as int) =~= strings_view(items@).take(i - 1).push(
                items@[i - 1]@,
            ));
            assert(seqs_view(d.values@) =~= d0.values + strings_view(items@).take(i as int));
            assert(placeholders(start as nat, i as nat) =~= placeholders(
                start as nat,
                (i - 1) as nat,
            ).push(placeholder((start + i - 1) as nat)));
        }
    }
    assert(strings_view(items@).take(items@.len() as int) =~= strings_view(items@));
    let mut condition = chars_of(column);
    extend_chars(&mut condition, chars_of(" IN (").as_slice());
    let joined = join_chars(&marks, chars_of(", ").as_slice());
    assert(seqs_view(marks@) =~= marks@.map_values(|p: Vec<char>| p@));
    extend_chars(&mut condition, joined.as_slice());
    condition.push(')');
    assert(condition@ =~= column@ + " IN ("@ + join(
        placeholders(d0.values.len() + 1, items@.len()),
        ", "@,
    ) + seq![')']);
    push_chars(&mut d.conditions, condition);
    add_label(&mut d.applied, label);
}

fn add_date_filter(d: &mut Draft, value: &Option<String>, operator: &str, label: &str) -> (r: Result<(), SearchError>)
    ensures
        match date_filter(draft_view(*old(d)), option_view(*value), operator@, label@) {
            Ok(next) => r is Ok && draft_view(*final(d)) == next,
            Err(f) => r matches Err(e) && reports(e, f),
        },
{
    match value {
        None => Ok(()),
        Some(v) => {
            match validate_date(v.as_str()) {
                Ok(()) => {},
                Err(e) => return Err(e),
            }
            let n: u128 = d.values.len() as u128 + 1;
            push_chars(&mut d.values, chars_of(v.as_str()));
            let mut condition = chars_of("substr(d.modified_at, 1, 10) ");
            extend_chars(&mut condition, chars_of(operator).as_slice());
            condition.push(' ');
            extend_chars(&mut condition, placeholder_exec(n).as_slice());
            assert(condition@ =~= "substr(d.modified_at, 1, 10) "@ + operator@ + seq![' ']
                + placeholder(n as nat));
            push_chars(&mut d.conditions, condition);
            add_label(&mut d.applied, label);
            Ok(())
        },
    }
}

fn add_path_filter(d: &mut Draft, terms: &Vec<String>)
    ensures
        draft_view(*final(d)) == path_filter(draft_view(*old(d)), strings_view(terms@)),
{
    let ghost d0 = draft_view(*d);
    let ghost t = strings_view(terms@);
    let mut i: usize = 0;
    while i < terms.len()
        invariant
            i <= terms@.len(),
            t == strings_view(terms@),
            d0 == draft_view(*old(d)),
            seqs_view(d.conditions@) == d0.conditions + Seq::new(i as nat, |k: int| PATH_LIKE_CONDITION@),
            seqs_view(d.values@) == d0.values + like_patterns(t.take(i as int)),
            seqs_view(d.applied@) == d0.applied,
        decreases terms@.len() - i,
    {
        push_chars(&mut d.conditions, chars_of(PATH_LIKE_CONDITION));
        push_chars(&mut d.values, like_pattern_exec(terms[i].as_str()));
        i += 1;
        proof {
            assert(seqs_view(d.conditions@) =~= d0.conditions + Seq::new(
                i as nat,
                |k: int| PATH_LIKE_CONDITION@,
            ));
            assert(t.take(i as int) =~= t.take(i - 1).push(t[i - 1]));
            assert(seqs_view(d.values@) =~= d0.values + like_patterns(t.take(i as int)));
        }
    }
    assert(t.take(terms@.len() as int) =~= t);
    if terms.len() > 0 {
        push_chars(&mut d.applied, chars_of("path"));
    }
}


// ---------------------------------------------------------------------------
// Keyword and filename searches
// ---------------------------------------------------------------------------

/// A keyword search: the full-text expression when there is one; otherwise
/// each exclusion as a `NOT EXISTS` and, for an exclusion-only query, only
/// documents that have indexed text. Says whether the full-text index is
/// joined.
pub open spec fn keyword_draft(req: SearchRequest, q: QueryModel) -> (SqlDraft, bool) {
    let (d, fts) = match spec_fts_match(q, req.include_filename) {
        Some(e) => (
            SqlDraft { conditions: seq![MATCH_CONDITION@], values: seq![e], applied: seq!["query"@] },
            true,
        ),
        None => {
            let ex = spec_exclusions(q.excluded_terms, req.include_filename);
            let base = SqlDraft {
                conditions: Seq::new(ex.len(), |i: int| NOT_IN_FTS_CONDITION@),
                values: ex,
                applied: seq![],
            };
            if q.excluded_terms.len() > 0 || (req.term_mode == TermMode::Exclude && (q.terms.len()
                > 0 || q.phrases.len() > 0)) {
                (
                    SqlDraft {
                        conditions: base.conditions.push(INDEXED_CONDITION@),
                        values: base.values,
                        applied: seq!["query"@],
                    },
                    false,
                )
            } else {
                (base, false)
            }
        },
    };
    if !req.include_filename {
        (SqlDraft { conditions: d.conditions, values: d.values, applied: d.applied.push("contentOnly"@) }, fts)
    } else {
        (d, fts)
    }
}

/// A file name compared, ignoring case, with the pattern in parameter `n`.
pub open spec fn name_like(operator: Seq<char>, n: nat) -> Seq<char> {
    "LOWER(d.file_name) "@ + operator + " LOWER("@ + placeholder(n) + ") ESCAPE '\\'"@
}

pub open spec fn name_likes(operator: Seq<char>, count: nat) -> Seq<Seq<char>> {
    Seq::new(count, |i: int| name_like(operator, (i + 1) as nat))
}

pub open spec fn parenthesized_likes(count: nat) -> Seq<Seq<char>> {
    Seq::new(count, |i: int| seq!['('] + name_like("LIKE"@, (i + 1) as nat) + seq![')'])
}

/// A file-name search: with `OR` in the query any positive value may occur
/// in the name; otherwise the values (joined into one for an exact search)
/// must all occur, may any occur, or must all be absent, by the term mode.
/// Excluded terms never occur.
pub open spec fn filename_draft(req: SearchRequest, q: QueryModel) -> SqlDraft {
    let positive = q.phrases + q.terms;
    let first = if q.match_any {
        SqlDraft {
            conditions: seq![seq!['('] + join(parenthesized_likes(positive.len()), " OR "@) + seq![')']],
            values: like_patterns(positive),
            applied: seq![],
        }
    } else {
        let selected = if req.term_mode == TermMode::Exact && positive.len() > 0 {
            seq![join(positive, seq![' '])]
        } else {
            positive
        };
        let operator = if req.term_mode == TermMode::Exclude {
            "NOT LIKE"@
        } else {
            "LIKE"@
        };
        let likes = name_likes(operator, selected.len());
        SqlDraft {
            conditions: if req.term_mode == TermMode::Any && likes.len() > 0 {
                seq![seq!['('] + join(likes, " OR "@) + seq![')']]
            } else {
                likes
            },
            values: like_patterns(selected),
            applied: seq![],
        }
    };
    let ex = q.excluded_terms;
    SqlDraft {
        conditions: first.conditions + Seq::new(ex.len(), |i: int| NAME_NOT_LIKE_CONDITION@),
        values: first.values + like_patterns(ex),
        applied: if q.terms.len() > 0 || q.phrases.len() > 0 || ex.len() > 0 {
            seq!["query"@]
        } else {
            seq![]
        },
    }
}

fn keyword_draft_exec(req: &SearchRequest, q: &ParsedQuery) -> (r: (Draft, bool))
    ensures
        draft_view(r.0) == keyword_draft(*req, q@).0,
        r.1 == keyword_draft(*req, q@).1,
{
    let mut d = Draft { conditions: Vec::new(), values: Vec::new(), applied: Vec::new() };
    let fts: bool;
    match q.fts_match_expression(req.include_filename) {
        Some(e) => {
            push_chars(&mut d.conditions, chars_of(MATCH_CONDITION));
            push_chars(&mut d.values, chars_of(e.as_str()));
            push_chars(&mut d.applied, chars_of("query"));
            fts = true;
        },
        None => {
            let ex = q.excluded_fts_expressions(req.include_filename);
            let ghost exv = strings_view(ex@);
            let mut i: usize = 0;
            while i < ex.len()
                invariant
                    i <= ex@.len(),
                    exv == strings_view(ex@),
                    seqs_view(d.conditions@) == Seq::new(i as nat, |k: int| NOT_IN_FTS_CONDITION@),
                    seqs_view(d.values@) == exv.take(i as int),
                    d.applied@.len() == 0,
                decreases ex@.len() - i,
            {
                push_chars(&mut d.conditions, chars_of(NOT_IN_FTS_CONDITION));
                push_chars(&mut d.values, chars_of(ex[i].as_str()));
                i += 1;
                proof {
                    assert(seqs_view(d.conditions@) =~= Seq::new(
                        i as nat,
                        |k: int| NOT_IN_FTS_CONDITION@,
                    ));
                    assert(exv.take(i as int) =~= exv.take(i - 1).push(exv[i - 1]));
                }
            }
            assert(exv.take(ex@.len() as int) =~= exv);
            if q.excluded_terms.len() > 0 || (matches!(req.term_mode, TermMode::Exclude) && (
            q.terms.len() > 0 || q.phrases.len() > 0)) {
                push_chars(&mut d.conditions, chars_of(INDEXED_CONDITION));
                push_chars(&mut d.applied, chars_of("query"));
            }
            fts = false;
        },
    }
    if !req.include_filename {
        push_chars(&mut d.applied, chars_of("contentOnly"));
    }
    proof {
        let want = keyword_draft(*req, q@).0;
        assert(seqs_view(d.applied@) =~= want.applied);
        assert(seqs_view(d.conditions@) =~= want.conditions);
        assert(seqs_view(d.values@) =~= want.values);
    }
    (d, fts)
}

fn name_like_exec(operator: &str, n: u128) -> (r: Vec<char>)
    ensures
        r@ == name_like(operator@, n as nat),
{
    let mut out = chars_of("LOWER(d.file_name) ");
    extend_chars(&mut out, chars_of(operator).as_slice());
    extend_chars(&mut out, chars_of(" LOWER(").as_slice());
    extend_chars(&mut out, placeholder_exec(n).as_slice());
    extend_chars(&mut out, chars_of(") ESCAPE '\\'").as_slice());
    assert(out@ =~= name_like(operator@, n as nat));
    out
}

fn parenthesize(inner: Vec<char>) -> (r: Vec<char>)
    ensures
        r@ == seq!['('] + inner@ + seq![')'],
{
    let mut out: Vec<char> = Vec::new();
    out.push('(');
    extend_chars(&mut out, inner.as_slice());
    out.push(')');
    assert(out@ =~= seq!['('] + inner@ + seq![')']);
    out
}

fn positive_values(q: &ParsedQuery) -> (r: Vec<String>)
    ensures
        strings_view(r@) == q@.phrases + q@.terms,
{
    let ghost ph = strings_view(q.phrases@);
    let ghost te = strings_view(q.terms@);
    let mut positive: Vec<String> = Vec::new();
    let mut i: usize = 0;
    while i < q.phrases.len()
        invariant
            i <= q.phrases@.len(),
            ph == strings_view(q.phrases@),
            strings_view(positive@) == ph.take(i as int),
        decreases q.phrases@.len() - i,
    {
        let s = String::from_str(q.phrases[i].as_str());
        let ghost before = positive@;
        positive.push(s);
        proof {
            assert(positive@ == before.push(s));
            assert(s@ == ph[i as int]);
            assert(strings_view(positive@) =~= strings_view(before).push(s@));
            assert(ph.take(i + 1) =~= ph.take(i as int).push(ph[i as int]));
        }
        i += 1;
    }
    assert(ph.take(q.phrases@.len() as int) =~= ph);
    let mut j: usize = 0;
    while j < q.terms.len()
        invariant
            j <= q.terms@.len(),
            ph == strings_view(q.phrases@),
            te == strings_view(q.terms@),
            strings_view(positive@) == ph + te.take(j as int),
        decreases q.terms@.len() - j,
    {
        let s = String::from_str(q.terms[j].as_str());
        let ghost before = positive@;
        positive.push(s);
        proof {
            assert(s@ == te[j as int]);
            assert(strings_view(positive@) =~= strings_view(before).push(s@));
            assert(ph + te.take(j + 1) =~= (ph + te.take(j as int)).push(te[j as int]));
        }
        j += 1;
    }
    assert(te.take(q.terms@.len() as int) =~= te);
    positive
}

fn any_name_draft(positive: &Vec<String>) -> (r: Draft)
    ensures
        draft_view(r).conditions == seq![
            seq!['('] + join(parenthesized_likes(positive@.len()), " OR "@) + seq![')'],
        ],
        draft_view(r).values == like_patterns(strings_view(positive@)),
        r.applied@.len() == 0,
{
    let ghost pv = strings_view(positive@);
    let mut d = Draft { conditions: Vec::new(), values: Vec::new(), applied: Vec::new() };
    let mut alternatives: Vec<Vec<char>> = Vec::new();
    let mut k: usize = 0;
    while k < positive.len()
        invariant
            k <= positive@.len(),
            pv == strings_view(positive@),
            seqs_view(alternatives@) == parenthesized_likes(k as nat),
            seqs_view(d.values@) == like_patterns(pv.take(k as int)),
            d.applied@.len() == 0,
            d.conditions@.len() == 0,
        decreases positive@.len() - k,
    {
        push_chars(&mut d.values, like_pattern_exec(positive[k].as_str()));
        push_chars(&mut alternatives, parenthesize(name_like_exec("LIKE", k as u128 + 1)));
        k += 1;
        proof {
            assert(seqs_view(alternatives@) =~= parenthesized_likes(k as nat));
            assert(pv.take(k as int) =~= pv.take(k - 1).push(pv[k - 1]));
            assert(like_patterns(pv.take(k as int)) =~= like_patterns(pv.take(k - 1)).push(
                like_pattern(pv[k - 1]),
            ));
        }
    }
    assert(pv.take(positive@.len() as int) =~= pv);
    assert(seqs_view(alternatives@) =~= alternatives@.map_values(|p: Vec<char>| p@));
    let joined = join_chars(&alternatives, chars_of(" OR ").as_slice());
    push_chars(&mut d.conditions, parenthesize(joined));
    proof {
        assert(seqs_view(d.conditions@) =~= seq![
            seq!['('] + join(parenthesized_likes(positive@.len()), " OR "@) + seq![')'],
        ]);
    }
    d
}

fn joined_positive(positive: &Vec<String>) -> (r: String)
    ensures
        r@ == join(strings_view(positive@), seq![' ']),
{
    let ghost pv = strings_view(positive@);
    let mut parts: Vec<Vec<char>> = Vec::new();
    let mut k: usize = 0;
    while k < positive.len()
        invariant
            k <= positive@.len(),
            pv == strings_view(positive@),
            seqs_view(parts@) == pv.take(k as int),
        decreases positive@.len() - k,
    {
        push_chars(&mut parts, chars_of(positive[k].as_str()));
        k += 1;
        assert(pv.take(k as int) =~= pv.take(k - 1).push(pv[k - 1]));
    }
    assert(pv.take(positive@.len() as int) =~= pv);
    assert(seqs_view(parts@) =~= parts@.map_values(|p: Vec<char>| p@));
    assert([' ']@ =~= seq![' ']);
    string_from_chars(join_chars(&parts, &[' ']).as_slice())
}

fn selected_name_draft(term_mode: TermMode, selected: &Vec<String>) -> (r: Draft)
    ensures
        ({
            let operator = if term_mode == TermMode::Exclude {
                "NOT LIKE"@
            } else {
                "LIKE"@
            };
            let likes = name_likes(operator, selected@.len());
            &&& draft_view(r).conditions == if term_mode == TermMode::Any && likes.len() > 0 {
                seq![seq!['('] + join(likes, " OR "@) + seq![')']]
            } else {
                likes
            }
            &&& draft_view(r).values == like_patterns(strings_view(selected@))
            &&& r.applied@.len() == 0
        }),
{
    let ghost sv = strings_view(selected@);
    let mut d = Draft { conditions: Vec::new(), values: Vec::new(), applied: Vec::new() };
    let operator: &str = if matches!(term_mode, TermMode::Exclude) {
        "NOT LIKE"
    } else {
        "LIKE"
    };
    let mut likes: Vec<Vec<char>> = Vec::new();
    let mut k: usize = 0;
    while k < selected.len()
        invariant
            k <= selected@.len(),
            sv == strings_view(selected@),
            seqs_view(likes@) == name_likes(operator@, k as nat),
            seqs_view(d.values@) == like_patterns(sv.take(k as int)),
            d.conditions@.len() == 0,
            d.applied@.len() == 0,
        decreases selected@.len() - k,
    {
        push_chars(&mut d.values, like_pattern_exec(selected[k].as_str()));
        push_chars(&mut likes, name_like_exec(operator, k as u128 + 1));
        k += 1;
        proof {
            assert(seqs_view(likes@) =~= name_likes(operator@, k as nat));
            assert(sv.take(k as int) =~= sv.take(k - 1).push(sv[k - 1]));
            assert(like_patterns(sv.take(k as int)) =~= like_patterns(sv.take(k - 1)).push(
                like_pattern(sv[k - 1]),
            ));
        }
    }
    assert(sv.take(selected@.len() as int) =~= sv);
    if matches!(term_mode, TermMode::Any) && likes.len() > 0 {
        assert(seqs_view(likes@) =~= likes@.map_values(|p: Vec<char>| p@));
        let joined = join_chars(&likes, chars_of(" OR ").as_slice());
        push_chars(&mut d.conditions, parenthesize(joined));
        assert(seqs_view(d.conditions@) =~= seq![
            seq!['('] + join(name_likes(operator@, selected@.len()), " OR "@) + seq![')'],
        ]);
    } else {
        d.conditions = likes;
    }
    d
}

fn add_excluded_names(d: &mut Draft, excluded: &Vec<String>)
    ensures
        draft_view(*final(d)).conditions == draft_view(*old(d)).conditions + Seq::new(
            excluded@.len(),
            |i: int| NAME_NOT_LIKE_CONDITION@,
        ),
        draft_view(*final(d)).values == draft_view(*old(d)).values + like_patterns(
            strings_view(excluded@),
        ),
        final(d).applied@ == old(d).applied@,
{
    let ghost first = draft_view(*d);
    let ghost exv = strings_view(excluded@);
    let mut k: usize = 0;
    while k < excluded.len()
        invariant
            k <= excluded@.len(),
            exv == strings_view(excluded@),
            first == draft_view(*old(d)),
            seqs_view(d.conditions@) == first.conditions + Seq::new(
                k as nat,
                |i: int| NAME_NOT_LIKE_CONDITION@,
            ),
            seqs_view(d.values@) == first.values + like_patterns(exv.take(k as int)),
            d.applied@ == old(d).applied@,
        decreases excluded@.len() - k,
    {
        push_chars(&mut d.conditions, chars_of(NAME_NOT_LIKE_CONDITION));
        push_chars(&mut d.values, like_pattern_exec(excluded[k].as_str()));
        k += 1;
        proof {
            assert(seqs_view(d.conditions@) =~= first.conditions + Seq::new(
                k as nat,
                |i: int| NAME_NOT_LIKE_CONDITION@,
            ));
            assert(exv.take(k as int) =~= exv.take(k - 1).push(exv[k - 1]));
            assert(like_patterns(exv.take(k as int)) =~= like_patterns(exv.take(k - 1)).push(
                like_pattern(exv[k - 1]),
            ));
        }
    }
    assert(exv.take(excluded@.len() as int) =~= exv);
}

fn filename_draft_exec(req: &SearchRequest, q: &ParsedQuery) -> (r: Draft)
    ensures
        draft_view(r) == filename_draft(*req, q@),
{
    let positive = positive_values(q);
    let mut d = if q.match_any {
        any_name_draft(&positive)
    } else if matches!(req.term_mode, TermMode::Exact) && positive.len() > 0 {
        let mut one: Vec<String> = Vec::new();
        one.push(joined_positive(&positive));
        assert(strings_view(one@) =~= seq![join(q@.phrases + q@.terms, seq![' '])]);
        selected_name_draft(req.term_mode, &one)
    } else {
        selected_name_draft(req.term_mode, &positive)
    };
    add_excluded_names(&mut d, &q.excluded_terms);
    if q.terms.len() > 0 || q.phrases.len() > 0 || q.excluded_terms.len() > 0 {
        push_chars(&mut d.applied, chars_of("query"));
    }
    proof {
        let want = filename_draft(*req, q@);
        assert(seqs_view(d.applied@) =~= want.applied);
        assert(seqs_view(d.conditions@) =~= want.conditions);
        assert(seqs_view(d.values@) =~= want.values);
    }
    d
}


// ---------------------------------------------------------------------------
// The whole statement
// ---------------------------------------------------------------------------

/// The extension filters of a request, normalized; none when any of them is
/// invalid.
pub open spec fn validated_extensions(exts: Seq<Seq<char>>) -> Option<Seq<Seq<char>>>
    decreases exts.len(),
{
    if exts.len() == 0 {
        Some(seq![])
    } else {
        match validated_extensions(exts.drop_last()) {
            None => None,
            Some(done) => match spec_validate_extension(exts.last()) {
                None => None,
                Some(n) => Some(done.push(n)),
            },
        }
    }
}

/// The date bounds of the request, then those of the query.
pub open spec fn dated(d: SqlDraft, req: SearchRequest, q: QueryModel) -> Result<SqlDraft, QueryFault> {
    match date_filter(d, option_view(req.modified_after), ">="@, "after"@) {
        Err(f) => Err(f),
        Ok(d1) => match date_filter(d1, q.after, ">="@, "after"@) {
            Err(f) => Err(f),
            Ok(d2) => match date_filter(d2, option_view(req.modified_before), "<="@, "before"@) {
                Err(f) => Err(f),
                Ok(d3) => date_filter(d3, q.before, "<="@, "before"@),
            },
        },
    }
}

/// Everything but the search terms: folders, extensions, paths and dates.
pub open spec fn filtered(d: SqlDraft, req: SearchRequest, q: QueryModel) -> Result<SqlDraft, QueryFault> {
    match validated_extensions(strings_view(req.extensions@)) {
        None => Err(QueryFault::InvalidExtension),
        Some(exts) => {
            let d1 = list_filter(d, "d.folder_id"@, strings_view(req.folder_ids@), "folder"@);
            let d2 = list_filter(d1, "LOWER(d.extension)"@, exts, "extension"@);
            let d3 = if req.extensionless {
                SqlDraft {
                    conditions: d2.conditions.push(EXTENSIONLESS_CONDITION@),
                    values: d2.values,
                    applied: d2.applied.push("extensionless"@),
                }
            } else {
                d2
            };
            let d4 = list_filter(d3, "LOWER(d.extension)"@, q.extensions, "extension"@);
            dated(path_filter(d4, q.path_terms), req, q)
        },
    }
}

pub open spec fn from_clause(fts: bool) -> Seq<char> {
    if fts {
        FTS_FROM@
    } else {
        PLAIN_FROM@
    }
}

pub open spec fn where_clause(conditions: Seq<Seq<char>>) -> Seq<char> {
    if conditions.len() == 0 {
        seq![]
    } else {
        " WHERE "@ + join(conditions, " AND "@)
    }
}

pub open spec fn match_kind_sql(mode: SearchMode, fts: bool) -> Seq<char> {
    if fts {
        FTS_MATCH_KIND@
    } else if mode == SearchMode::Filename {
        "'filename'"@
    } else {
        "'metadata'"@
    }
}

/// The statement that reads one page of hits; its last two parameters are
/// the page size and the offset.
pub open spec fn hits_sql(mode: SearchMode, fts: bool, d: SqlDraft, order: Seq<char>) -> Seq<char> {
    HITS_HEAD@ + (if fts {
        FTS_SNIPPET@
    } else {
        "NULL"@
    }) + ", "@ + (if fts {
        "bm25(document_fts)"@
    } else {
        "0.0"@
    }) + " AS score, "@ + match_kind_sql(mode, fts) + LINE_BREAK@ + from_clause(fts) + where_clause(
        d.conditions,
    ) + LINE_BREAK@ + "ORDER BY "@ + order + LINE_BREAK@ + "LIMIT "@ + placeholder(
        d.values.len() + 1,
    ) + " OFFSET "@ + placeholder(d.values.len() + 2)
}

/// A search's statements as planned.
pub struct SqlPlan {
    pub count_sql: Seq<char>,
    pub hits_sql: Seq<char>,
    pub values: Seq<Seq<char>>,
    pub applied: Seq<Seq<char>>,
}

/// Why a search's statements cannot be built.
pub enum SqlFault {
    Query(QueryFault),
    Sort,
}

/// The draft a search's statements are built from, and whether it ranks by
/// full-text score.
#[verifier::opaque]
pub open spec fn search_draft(req: SearchRequest, q: QueryModel) -> (Result<SqlDraft, QueryFault>, bool) {
    let (d0, fts) = if req.mode == SearchMode::Keyword {
        keyword_draft(req, q)
    } else {
        (filename_draft(req, q), false)
    };
    (filtered(d0, req, q), fts)
}

/// The statements of a search: its terms by its mode, then its filters,
/// then the order its sort names.
pub open spec fn spec_search_sql(req: SearchRequest, q: QueryModel) -> Result<SqlPlan, SqlFault> {
    let (r, fts) = search_draft(req, q);
    match r {
        Err(f) => Err(SqlFault::Query(f)),
        Ok(d) => match spec_sort_clause(req.sort@, fts) {
            None => Err(SqlFault::Sort),
            Some(order) => Ok(
                SqlPlan {
                    count_sql: "SELECT COUNT(*) "@ + from_clause(fts) + where_clause(d.conditions),
                    hits_sql: hits_sql(req.mode, fts, d, order),
                    values: d.values,
                    applied: d.applied,
                },
            ),
        },
    }
}

proof fn lemma_invalid_prefix_spoils(s: Seq<Seq<char>>, i: int)
    requires
        0 <= i <= s.len(),
        validated_extensions(s.take(i)) is None,
    ensures
        validated_extensions(s) is None,
    decreases s.len() - i,
{
    if i < s.len() {
        assert(s.take(i + 1).drop_last() =~= s.take(i));
        lemma_invalid_prefix_spoils(s, i + 1);
    } else {
        assert(s.take(i) =~= s);
    }
}

fn validated_extensions_exec(exts: &Vec<String>) -> (r: Result<Vec<String>, SearchError>)
    ensures
        match validated_extensions(strings_view(exts@)) {
            Some(v) => r matches Ok(out) && strings_view(out@) == v,
            None => r matches Err(e) && reports(e, QueryFault::InvalidExtension),
        },
{
    let ghost ev = strings_view(exts@);
    let mut out: Vec<String> = Vec::new();
    let mut i: usize = 0;
    assert(ev.take(0) =~= seq![]);
    while i < exts.len()
        invariant
            i <= exts@.len(),
            ev == strings_view(exts@),
            validated_extensions(ev.take(i as int)) == Some(strings_view(out@)),
        decreases exts@.len() - i,
    {
        assert(ev.take(i + 1).drop_last() =~= ev.take(i as int));
        assert(ev.take(i + 1).last() == exts@[i as int]@);
        match validate_extension(exts[i].as_str()) {
            Ok(n) => {
                let ghost before = out@;
                out.push(n);
                assert(strings_view(out@) =~= strings_view(before).push(n@));
            },
            Err(e) => {
                proof {
                    lemma_invalid_prefix_spoils(ev, i + 1);
                }
                return Err(e);
            },
        }
        i += 1;
    }
    assert(ev.take(exts@.len() as int) =~= ev);
    Ok(out)
}

fn filter_exec(d: &mut Draft, req: &SearchRequest, q: &ParsedQuery) -> (r: Result<(), SearchError>)
    ensures
        match filtered(draft_view(*old(d)), *req, q@) {
            Ok(next) => r is Ok && draft_view(*final(d)) == next,
            Err(f) => r matches Err(e) && reports(e, f),
        },
{
    let exts = match validated_extensions_exec(&req.extensions) {
        Ok(v) => v,
        Err(e) => return Err(e),
    };
    add_list_filter(d, "d.folder_id", &req.folder_ids, "folder");
    add_list_filter(d, "LOWER(d.extension)", &exts, "extension");
    if req.extensionless {
        push_chars(&mut d.conditions, chars_of(EXTENSIONLESS_CONDITION));
        push_chars(&mut d.applied, chars_of("extensionless"));
    }
    add_list_filter(d, "LOWER(d.extension)", &q.extensions, "extension");
    add_path_filter(d, &q.path_terms);
    match add_date_filter(d, &req.modified_after, ">=", "after") {
        Ok(()) => {},
        Err(e) => return Err(e),
    }
    match add_date_filter(d, &q.after, ">=", "after") {
        Ok(()) => {},
        Err(e) => return Err(e),
    }
    match add_date_filter(d, &req.modified_before, "<=", "before") {
        Ok(()) => {},
        Err(e) => return Err(e),
    }
    add_date_filter(d, &q.before, "<=", "before")
}

/// The SQL of a search.
#[derive(Debug, Clone)]
pub struct SearchSql {
    pub count_sql: String,
    pub hits_sql: String,
    pub filter_values: Vec<String>,
    pub applied_filters: Vec<String>,
}

fn strings_of(v: Vec<Vec<char>>) -> (r: Vec<String>)
    ensures
        strings_view(r@) == seqs_view(v@),
{
    let mut out: Vec<String> = Vec::new();
    let mut i: usize = 0;
    while i < v.len()
        invariant
            i <= v@.len(),
            strings_view(out@) == seqs_view(v@).take(i as int),
        decreases v@.len() - i,
    {
        let s = string_from_chars(v[i].as_slice());
        let ghost before = out@;
        out.push(s);
        i += 1;
        proof {
            assert(strings_view(out@) =~= strings_view(before).push(s@));
            assert(seqs_view(v@).take(i as int) =~= seqs_view(v@).take(i - 1).push(v@[i - 1]@));
        }
    }
    assert(seqs_view(v@).take(v@.len() as int) =~= seqs_view(v@));
    out
}

/// Builds the statements of a search from the request and its parsed query.
pub fn build_search_sql(request: &SearchRequest, parsed: &ParsedQuery) -> (r: Result<SearchSql, SearchError>)
    ensures
        match spec_search_sql(*request, parsed@) {
            Ok(plan) => r matches Ok(s) && s.count_sql@ == plan.count_sql && s.hits_sql@
                == plan.hits_sql && strings_view(s.filter_values@) == plan.values && strings_view(
                s.applied_filters@,
            ) == plan.applied,
            Err(SqlFault::Query(f)) => r matches Err(e) && reports(e, f),
            Err(SqlFault::Sort) => r matches Err(e) && is_invalid_request(
                e,
                "unsupported search sort"@,
            ),
        },
{
    proof {
        reveal(search_draft);
    }
    let (mut d, fts) = if matches!(request.mode, SearchMode::Keyword) {
        keyword_draft_exec(request, parsed)
    } else {
        (filename_draft_exec(request, parsed), false)
    };
    match filter_exec(&mut d, request, parsed) {
        Ok(()) => {},
        Err(e) => return Err(e),
    }
    let order = match sort_clause(request.sort.as_str(), fts) {
        Ok(o) => o,
        Err(e) => return Err(e),
    };
    let from = if fts {
        FTS_FROM
    } else {
        PLAIN_FROM
    };
    let mut where_part: Vec<char> = Vec::new();
    if d.conditions.len() > 0 {
        where_part = chars_of(" WHERE ");
        assert(seqs_view(d.conditions@) =~= d.conditions@.map_values(|p: Vec<char>| p@));
        extend_chars(&mut where_part, join_chars(&d.conditions, chars_of(" AND ").as_slice()).as_slice());
    }
    let mut count_sql = chars_of("SELECT COUNT(*) ");
    extend_chars(&mut count_sql, chars_of(from).as_slice());
    extend_chars(&mut count_sql, where_part.as_slice());
    let mut hits = chars_of(HITS_HEAD);
    extend_chars(&mut hits, chars_of(if fts {
        FTS_SNIPPET
    } else {
        "NULL"
    }).as_slice());
    extend_chars(&mut hits, chars_of(", ").as_slice());
    extend_chars(&mut hits, chars_of(if fts {
        "bm25(document_fts)"
    } else {
        "0.0"
    }).as_slice());
    extend_chars(&mut hits, chars_of(" AS score, ").as_slice());
    let kind: &str = if fts {
        FTS_MATCH_KIND
    } else if matches!(request.mode, SearchMode::Filename) {
        "'filename'"
    } else {
        "'metadata'"
    };
    extend_chars(&mut hits, chars_of(kind).as_slice());
    extend_chars(&mut hits, chars_of(LINE_BREAK).as_slice());
    extend_chars(&mut hits, chars_of(from).as_slice());
    extend_chars(&mut hits, where_part.as_slice());
    extend_chars(&mut hits, chars_of(LINE_BREAK).as_slice());
    extend_chars(&mut hits, chars_of("ORDER BY ").as_slice());
    extend_chars(&mut hits, chars_of(order).as_slice());
    extend_chars(&mut hits, chars_of(LINE_BREAK).as_slice());
    extend_chars(&mut hits, chars_of("LIMIT ").as_slice());
    let n: u128 = d.values.len() as u128;
    extend_chars(&mut hits, placeholder_exec(n + 1).as_slice());
    extend_chars(&mut hits, chars_of(" OFFSET ").as_slice());
    extend_chars(&mut hits, placeholder_exec(n + 2).as_slice());
    proof {
        let plan = spec_search_sql(*request, parsed@)->Ok_0;
        assert(count_sql@ =~= plan.count_sql);
        assert(hits@ =~= plan.hits_sql);
    }
    Ok(
        SearchSql {
            count_sql: string_from_chars(count_sql.as_slice()),
            hits_sql: string_from_chars(hits.as_slice()),
            filter_values: strings_of(d.values),
            applied_filters: strings_of(d.applied),
        },
    )
}

// ---------------------------------------------------------------------------
// A page of results
// ---------------------------------------------------------------------------

/// The page size used when a request asks for none.
pub const DEFAULT_PAGE_SIZE: u32 = 100;

/// The largest page a request may ask for.
pub const MAX_PAGE_SIZE: u32 = 200;

/// How a search's page comes out once its hits were counted and read.
#[derive(Debug, Clone, Copy, PartialEq, Eq)]
pub struct SearchPage {
    /// How many hits the page may hold.
    pub limit: u32,
    /// How many documents match in all.
    pub total: u64,
    /// Whether documents beyond this page match.
    pub has_more: bool,
    /// Whether the search goes into the search history.
    pub records_history: bool,
}

/// A query with no terms, phrases, exclusions or filters.
pub open spec fn query_is_empty(q: QueryModel) -> bool {
    q.terms.len() == 0 && q.phrases.len() == 0 && q.excluded_terms.len() == 0
        && q.extensions.len() == 0 && q.path_terms.len() == 0 && q.after is None
        && q.before is None
}

/// The page size: the default for 0, otherwise at most the maximum.
pub open spec fn spec_page_limit(limit: u32) -> u32 {
    if limit == 0 {
        DEFAULT_PAGE_SIZE
    } else if limit < MAX_PAGE_SIZE {
        limit
    } else {
        MAX_PAGE_SIZE
    }
}

/// A count read from the database; a negative count is none.
pub open spec fn spec_total(total: i64) -> u64 {
    if total < 0 {
        0
    } else {
        total as u64
    }
}

/// Whether matches remain beyond the page that starts at `offset`.
pub open spec fn spec_has_more(offset: u32, hits: usize, total: u64) -> bool {
    offset + hits < total
}

/// Only the first page of a normal search with something to look for is
/// remembered.
pub open spec fn spec_records_history(private_search: bool, offset: u32, parsed: QueryModel) -> bool {
    !private_search && offset == 0 && !query_is_empty(parsed)
}

pub fn page_limit(limit: u32) -> (r: u32)
    ensures
        r == spec_page_limit(limit),
        0 < r <= MAX_PAGE_SIZE,
{
    if limit == 0 {
        DEFAULT_PAGE_SIZE
    } else if limit < MAX_PAGE_SIZE {
        limit
    } else {
        MAX_PAGE_SIZE
    }
}

/// The page of a search whose lease belongs to `lease_request_id`, after
/// `total` documents were counted and `hits` of them read.
pub fn search_page(
    request: &SearchRequest,
    lease_request_id: &str,
    parsed: &ParsedQuery,
    total: i64,
    hits: usize,
) -> (r: Result<SearchPage, SearchError>)
    ensures
        request.request_id@ != lease_request_id@ <==> r is Err,
        r matches Err(e) ==> is_invalid_request(e, "search lease does not belong to this request"@),
        r matches Ok(page) ==> page == (SearchPage {
            limit: spec_page_limit(request.limit),
            total: spec_total(total),
            has_more: spec_has_more(request.offset, hits, spec_total(total)),
            records_history: spec_records_history(request.private_search, request.offset, parsed@),
        }),
{
    let own = chars_of(request.request_id.as_str());
    let lease = chars_of(lease_request_id);
    if !eq_chars(own.as_slice(), lease.as_slice()) {
        return Err(SearchError::invalid_request("search lease does not belong to this request"));
    }
    let limit = page_limit(request.limit);
    let count: u64 = if total < 0 {
        0
    } else {
        total as u64
    };
    let reach: u128 = request.offset as u128 + hits as u128;
    let has_more = reach < count as u128;
    let records_history = !request.private_search && request.offset == 0 && !parsed.is_empty();
    Ok(SearchPage { limit, total: count, has_more, records_history })
}

/// How a hit matched, as the hits statement names it; an unknown name is a
/// metadata match.
pub open spec fn spec_match_kind(name: Seq<char>) -> SearchMatchKind {
    if name == "filename"@ {
        SearchMatchKind::Filename
    } else if name == "content"@ {
        SearchMatchKind::Content
    } else if name == "both"@ {
        SearchMatchKind::Both
    } else {
        SearchMatchKind::Metadata
    }
}

pub fn match_kind_of(name: &str) -> (r: SearchMatchKind)
    ensures
        r == spec_match_kind(name@),
{
    let n = chars_of(name);
    if eq_literal(n.as_slice(), "filename") {
        SearchMatchKind::Filename
    } else if eq_literal(n.as_slice(), "content") {
        SearchMatchKind::Content
    } else if eq_literal(n.as_slice(), "both") {
        SearchMatchKind::Both
    } else {
        SearchMatchKind::Metadata
    }
}

/// A size read from the database; a negative size is none.
pub fn stored_size(size_bytes: i64) -> (r: u64)
    ensures
        r == spec_total(size_bytes),
{
    if size_bytes < 0 {
        0
    } else {
        size_bytes as u64
    }
}

/// The filters a search records in its history entry.
#[derive(Debug, Clone)]
pub struct HistoryFilters {
    pub folder_ids: Vec<String>,
    pub extensions: Vec<String>,
    pub parsed_extensions: Vec<String>,
    pub path_terms: Vec<String>,
    pub modified_after: Option<String>,
    pub modified_before: Option<String>,
    pub include_filename: bool,
    pub term_mode: String,
    pub sort: String,
}

fn copy_strings(v: &Vec<String>) -> (r: Vec<String>)
    ensures
        strings_view(r@) == strings_view(v@),
{
    let mut out: Vec<String> = Vec::new();
    let mut i: usize = 0;
    while i < v.len()
        invariant
            i <= v@.len(),
            out@.len() == i,
            strings_view(out@) == strings_view(v@).take(i as int),
        decreases v@.len() - i,
    {
        let t = String::from_str(v[i].as_str());
        assert(t@ == v@[i as int]@);
        let ghost before = out@;
        out.push(t);
        assert(out@ == before.push(t));
        assert forall|j: int| 0 <= j < i + 1 implies #[trigger] strings_view(out@)[j] == strings_view(v@).take(i + 1)[j] by {
            if j < i {
                assert(strings_view(out@)[j] == out@[j]@);
                assert(out@[j] == before[j]);
                assert(strings_view(before)[j] == strings_view(v@).take(i as int)[j]);
            }
        }
        assert(strings_view(out@) =~= strings_view(v@).take(i + 1));
        i += 1;
    }
    assert(strings_view(v@).take(v@.len() as int) =~= strings_view(v@));
    out
}

fn copy_option(o: &Option<String>) -> (r: Option<String>)
    ensures
        option_view(r) == option_view(*o),
{
    match o {
        Some(s) => Some(String::from_str(s.as_str())),
        None => None,
    }
}

/// A date filter of the request, or else the one the query gave.
pub open spec fn first_date(requested: Option<Seq<char>>, parsed: Option<Seq<char>>) -> Option<Seq<char>> {
    match requested {
        Some(d) => Some(d),
        None => parsed,
    }
}

/// The history filters of a search: the request's folders, extensions,
/// options and sort; the query's extensions and paths; each date from the
/// request, or else from the query.
pub fn history_filters(request: &SearchRequest, parsed: &ParsedQuery) -> (r: HistoryFilters)
    ensures
        strings_view(r.folder_ids@) == strings_view(request.folder_ids@),
        strings_view(r.extensions@) == strings_view(request.extensions@),
        strings_view(r.parsed_extensions@) == parsed@.extensions,
        strings_view(r.path_terms@) == parsed@.path_terms,
        option_view(r.modified_after) == first_date(option_view(request.modified_after), parsed@.after),
        option_view(r.modified_before) == first_date(
            option_view(request.modified_before),
            parsed@.before,
        ),
        r.include_filename == request.include_filename,
        r.term_mode@ == (match request.term_mode {
            TermMode::All => "all"@,
            TermMode::Any => "any"@,
            TermMode::Exact => "exact"@,
            TermMode::Exclude => "exclude"@,
            TermMode::Near => "near"@,
        }),
        r.sort@ == request.sort@,
{
    let modified_after = match &request.modified_after {
        Some(d) => Some(String::from_str(d.as_str())),
        None => copy_option(&parsed.after),
    };
    let modified_before = match &request.modified_before {
        Some(d) => Some(String::from_str(d.as_str())),
        None => copy_option(&parsed.before),
    };
    HistoryFilters {
        folder_ids: copy_strings(&request.folder_ids),
        extensions: copy_strings(&request.extensions),
        parsed_extensions: copy_strings(&parsed.extensions),
        path_terms: copy_strings(&parsed.path_terms),
        modified_after,
        modified_before,
        include_filename: request.include_filename,
        term_mode: String::from_str(crate::search::term_mode_name(request.term_mode)),
        sort: String::from_str(request.sort.as_str()),
    }
}

/// A count stored as a signed 64-bit number, the largest one where it does
/// not fit.
pub fn stored_count(n: u64) -> (r: i64)
    ensures
        r == if n <= i64::MAX as u64 {
            n as i64
        } else {
            i64::MAX
        },
{
    if n <= i64::MAX as u64 {
        n as i64
    } else {
        i64::MAX
    }
}

/// The end of a hits statement: its order, then the page bounds numbered
/// after the filter values.
pub open spec fn ordered_page_tail(order: Seq<char>, values: nat) -> Seq<char> {
    "ORDER BY "@ + order + LINE_BREAK@ + "LIMIT "@ + placeholder(values + 1) + " OFFSET "@
        + placeholder(values + 2)
}

/// A hits statement up to its order.
pub open spec fn hits_prefix(mode: SearchMode, fts: bool, d: SqlDraft) -> Seq<char> {
    HITS_HEAD@ + (if fts {
        FTS_SNIPPET@
    } else {
        "NULL"@
    }) + ", "@ + (if fts {
        "bm25(document_fts)"@
    } else {
        "0.0"@
    }) + " AS score, "@ + match_kind_sql(mode, fts) + LINE_BREAK@ + from_clause(fts) + where_clause(
        d.conditions,
    ) + LINE_BREAK@
}

proof fn lemma_hits_split(mode: SearchMode, fts: bool, d: SqlDraft, order: Seq<char>)
    ensures
        hits_sql(mode, fts, d, order) == hits_prefix(mode, fts, d) + ordered_page_tail(
            order,
            d.values.len(),
        ),
{
    let p = hits_prefix(mode, fts, d);
    let n = d.values.len();
    assert(hits_sql(mode, fts, d, order) =~= p + "ORDER BY "@ + order + LINE_BREAK@ + "LIMIT "@
        + placeholder(n + 1) + " OFFSET "@ + placeholder(n + 2));
    assert(p + "ORDER BY "@ + order + LINE_BREAK@ + "LIMIT "@ + placeholder(n + 1) + " OFFSET "@
        + placeholder(n + 2) =~= p + ordered_page_tail(order, n));
}

/// Whether a text ends with another.
pub open spec fn ends_with(s: Seq<char>, tail: Seq<char>) -> bool {
    s.len() >= tail.len() && s.skip(s.len() - tail.len()) == tail
}

/// A search sorted by "newest" lists the most recently modified documents
/// first: its hits statement ends by ordering on the modification time,
/// descending, with the identifier breaking ties, before the page bounds.
pub proof fn law_newest_lists_recent_documents_first(req: SearchRequest, q: QueryModel)
    requires
        req.sort@ == "newest"@,
        spec_search_sql(req, q) is Ok,
    ensures
        ends_with(
            spec_search_sql(req, q)->Ok_0.hits_sql,
            ordered_page_tail(
                "d.modified_at DESC, d.id ASC"@,
                spec_search_sql(req, q)->Ok_0.values.len(),
            ),
        ),
{
    let (r, fts) = search_draft(req, q);
    let d = r->Ok_0;
    let tail = ordered_page_tail("d.modified_at DESC, d.id ASC"@, d.values.len());
    lemma_hits_split(req.mode, fts, d, "d.modified_at DESC, d.id ASC"@);
    law_newest_and_oldest_are_opposite(fts);
    assert(spec_sort_clause(req.sort@, fts) == Some("d.modified_at DESC, d.id ASC"@));
    let plan = spec_search_sql(req, q)->Ok_0;
    assert(plan.hits_sql == hits_sql(req.mode, fts, d, "d.modified_at DESC, d.id ASC"@));
    assert(plan.values == d.values);
    let head = hits_prefix(req.mode, fts, d);
    assert((head + tail).skip(head.len() as int) =~= tail);
}

/// Sorting by "newest" and by "oldest" gives opposite orders on the
/// modification time, whether or not the search ranks by score: "newest"
/// orders it descending and "oldest" ascending, with the identifier breaking
/// ties in both.
pub proof fn law_newest_and_oldest_are_opposite(has_score: bool)
    ensures
        spec_sort_clause("newest"@, has_score) == Some("d.modified_at DESC, d.id ASC"@),
        spec_sort_clause("oldest"@, has_score) == Some("d.modified_at ASC, d.id ASC"@),
{
    reveal_strlit("newest");
    reveal_strlit("oldest");
    reveal_strlit("relevance");
    reveal_strlit("confidence");
    assert("oldest"@[0] != "newest"@[0]);
    assert("oldest"@ != "newest"@);
}
} // verus!
