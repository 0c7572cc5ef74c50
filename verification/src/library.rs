//! The document library: identifiers, tags, bookmarks and the budget that
//! bounds a stored preview.
use vstd::prelude::*;

use crate::indexing::random_id;
use crate::ocr::eq_literal;
use crate::query::{lex_less, lex_less_exec};
use crate::text::{
    ascii_lower_chars, ascii_lower_seq, char_is_control, chars_of, extend_chars, is_control,
    string_from_chars, trim_chars, trim_ws, utf8_len, utf8_len_at_most,
};

verus! {

broadcast use vstd::string::group_string_axioms;

/// Why a library request failed; database failures carry their messages.
#[derive(Debug, Clone, PartialEq, Eq)]
pub enum LibraryError {
    DocumentNotFound,
    InvalidTagName,
    InvalidTagColor,
    TagNotFound,
    TooManyTags,
    InvalidPreviewData,
    PreviewTooLarge,
    Database(String),
}

pub open spec fn spec_library_code(e: LibraryError) -> Seq<char> {
    match e {
        LibraryError::DocumentNotFound => "LIBRARY_DOCUMENT_NOT_FOUND"@,
        LibraryError::InvalidTagName => "TAG_NAME_INVALID"@,
        LibraryError::InvalidTagColor => "TAG_COLOR_INVALID"@,
        LibraryError::TagNotFound => "TAG_NOT_FOUND"@,
        LibraryError::TooManyTags => "TOO_MANY_TAGS"@,
        LibraryError::InvalidPreviewData => "PREVIEW_DATA_INVALID"@,
        LibraryError::PreviewTooLarge => "PREVIEW_DATA_TOO_LARGE"@,
        LibraryError::Database(_) => "LIBRARY_DATABASE_FAILED"@,
    }
}

impl LibraryError {
    pub fn code(&self) -> (r: &'static str)
        ensures
            r@ == spec_library_code(*self),
    {
        match self {
            LibraryError::DocumentNotFound => "LIBRARY_DOCUMENT_NOT_FOUND",
            LibraryError::InvalidTagName => "TAG_NAME_INVALID",
            LibraryError::InvalidTagColor => "TAG_COLOR_INVALID",
            LibraryError::TagNotFound => "TAG_NOT_FOUND",
            LibraryError::TooManyTags => "TOO_MANY_TAGS",
            LibraryError::InvalidPreviewData => "PREVIEW_DATA_INVALID",
            LibraryError::PreviewTooLarge => "PREVIEW_DATA_TOO_LARGE",
            LibraryError::Database(_) => "LIBRARY_DATABASE_FAILED",
        }
    }
}

/// A document identifier is not blank and at most 256 bytes.
pub open spec fn document_id_ok(id: Seq<char>) -> bool {
    trim_ws(id).len() > 0 && utf8_len(id) <= 256
}

pub fn validate_document_id(document_id: &str) -> (r: Result<(), LibraryError>)
    ensures
        document_id_ok(document_id@) ==> r is Ok,
        !document_id_ok(document_id@) ==> r == Err::<(), LibraryError>(
            LibraryError::DocumentNotFound,
        ),
{
    let id = chars_of(document_id);
    if trim_chars(id.as_slice()).len() == 0 || !utf8_len_at_most(id.as_slice(), 256) {
        Err(LibraryError::DocumentNotFound)
    } else {
        Ok(())
    }
}

// ---------------------------------------------------------------------------
// Tags
// ---------------------------------------------------------------------------

pub const MAX_TAG_NAME_CHARS: usize = 64;

pub const MAX_TAGS_PER_DOCUMENT: usize = 100;

pub open spec fn has_control(s: Seq<char>) -> bool {
    exists|i: int| 0 <= i < s.len() && is_control(#[trigger] s[i])
}

/// A tag name, trimmed, is 1 to 64 characters without control characters.
pub open spec fn tag_name_ok(trimmed: Seq<char>) -> bool {
    trimmed.len() > 0 && trimmed.len() <= MAX_TAG_NAME_CHARS && !has_control(trimmed)
}

/// Trims a tag name and checks it.
pub fn validate_tag_name(name: &str) -> (r: Result<String, LibraryError>)
    ensures
        tag_name_ok(trim_ws(name@)) ==> (r matches Ok(t) && t@ == trim_ws(name@)),
        !tag_name_ok(trim_ws(name@)) ==> r == Err::<String, LibraryError>(
            LibraryError::InvalidTagName,
        ),
{
    let trimmed = trim_chars(chars_of(name).as_slice());
    if trimmed.len() == 0 || trimmed.len() > MAX_TAG_NAME_CHARS {
        return Err(LibraryError::InvalidTagName);
    }
    let mut i: usize = 0;
    while i < trimmed.len()
        invariant
            i <= trimmed@.len(),
            trimmed@ == trim_ws(name@),
            forall|j: int| 0 <= j < i ==> !is_control(#[trigger] trimmed@[j]),
        decreases trimmed@.len() - i,
    {
        if char_is_control(trimmed[i]) {
            assert(is_control(trimmed@[i as int]));
            return Err(LibraryError::InvalidTagName);
        }
        i += 1;
    }
    Ok(string_from_chars(trimmed.as_slice()))
}

/// The colors a tag may have.
pub open spec fn color_approved(color: Seq<char>) -> bool {
    ||| color == "terracotta"@
    ||| color == "amber"@
    ||| color == "brown"@
    ||| color == "sand"@
    ||| color == "rose"@
    ||| color == "slate"@
    ||| color == "blue"@
    ||| color == "violet"@
}

pub fn validate_tag_color(color: &str) -> (r: Result<(), LibraryError>)
    ensures
        color_approved(color@) ==> r is Ok,
        !color_approved(color@) ==> r == Err::<(), LibraryError>(LibraryError::InvalidTagColor),
{
    let c = chars_of(color);
    let s = c.as_slice();
    if eq_literal(s, "terracotta") || eq_literal(s, "amber") || eq_literal(s, "brown")
        || eq_literal(s, "sand") || eq_literal(s, "rose") || eq_literal(s, "slate")
        || eq_literal(s, "blue") || eq_literal(s, "violet") {
        Ok(())
    } else {
        Err(LibraryError::InvalidTagColor)
    }
}

/// A document carries at most 100 tags.
pub fn validate_tag_count(count: usize) -> (r: Result<(), LibraryError>)
    ensures
        count <= MAX_TAGS_PER_DOCUMENT ==> r is Ok,
        count > MAX_TAGS_PER_DOCUMENT ==> r == Err::<(), LibraryError>(LibraryError::TooManyTags),
{
    if count > MAX_TAGS_PER_DOCUMENT {
        Err(LibraryError::TooManyTags)
    } else {
        Ok(())
    }
}

/// A fresh tag identifier: `tag-` and thirty-two random hex digits.
pub fn new_tag_id() -> (r: String)
    ensures
        r@.len() == 36,
        r@.take(4) == "tag-"@,
        exists|bytes: Seq<u8>| bytes.len() == 16 && r@ == "tag-"@ + crate::indexing::hex_lower(bytes),
{
    let mut out = chars_of("tag-");
    let id = random_id();
    extend_chars(&mut out, chars_of(id.as_str()).as_slice());
    proof {
        reveal_strlit("tag-");
        assert(out@.take(4) =~= "tag-"@);
        assert(out@ =~= "tag-"@ + id@);
    }
    string_from_chars(out.as_slice())
}

// ---------------------------------------------------------------------------
// Links and text in previews
// ---------------------------------------------------------------------------

pub const MAX_PREVIEW_NODES: usize = 20000;

pub const MAX_PREVIEW_CHARS: usize = 2000000;

pub open spec fn first_colon(s: Seq<char>) -> Option<int>
    decreases s.len(),
{
    if s.len() == 0 {
        None
    } else if s[0] == ':' {
        Some(0)
    } else {
        match first_colon(s.drop_first()) {
            Some(i) => Some(i + 1),
            None => None,
        }
    }
}

pub open spec fn at_most_chars(s: Seq<char>, n: int) -> Seq<char> {
    if s.len() > n {
        s.take(n)
    } else {
        s
    }
}

/// A link kept in a preview: trimmed, without control characters, with an
/// `http`, `https` or `mailto` scheme in any ASCII case, and at most
/// 2 000 000 characters.
pub open spec fn spec_safe_href(value: Seq<char>) -> Option<Seq<char>> {
    let v = trim_ws(value);
    if v.len() == 0 || has_control(v) {
        None
    } else {
        match first_colon(v) {
            None => None,
            Some(i) => {
                let scheme = ascii_lower_seq(v.take(i));
                if scheme == "http"@ || scheme == "https"@ || scheme == "mailto"@ {
                    Some(at_most_chars(v, MAX_PREVIEW_CHARS as int))
                } else {
                    None
                }
            },
        }
    }
}

proof fn lemma_first_colon(s: Seq<char>, i: int)
    requires
        0 <= i <= s.len(),
        forall|j: int| 0 <= j < i ==> s[j] != ':',
    ensures
        i < s.len() && s[i] == ':' ==> first_colon(s) == Some(i),
        i == s.len() ==> first_colon(s) is None,
    decreases i,
{
    if i > 0 {
        assert forall|j: int| 0 <= j < i - 1 implies s.drop_first()[j] != ':' by {
            assert(s.drop_first()[j] == s[j + 1]);
        }
        lemma_first_colon(s.drop_first(), i - 1);
    } else if s.len() > 0 {
    }
}

/// A link whose scheme is `http`, `https` or `mailto`, in any ASCII case,
/// is kept in a preview once it is trimmed, as long as it holds no control
/// character: it comes back whole, cut only at the preview budget.
pub proof fn law_web_and_mail_links_are_kept(value: Seq<char>, scheme: Seq<char>, rest: Seq<char>)
    requires
        trim_ws(value) == scheme + seq![':'] + rest,
        forall|j: int| 0 <= j < scheme.len() ==> #[trigger] scheme[j] != ':',
        forall|j: int| 0 <= j < trim_ws(value).len() ==> !is_control(#[trigger] trim_ws(value)[j]),
        ascii_lower_seq(scheme) == "http"@ || ascii_lower_seq(scheme) == "https"@ || ascii_lower_seq(
            scheme,
        ) == "mailto"@,
    ensures
        spec_safe_href(value) == Some(at_most_chars(trim_ws(value), 2000000)),
{
    let v = trim_ws(value);
    assert forall|j: int| 0 <= j < scheme.len() implies v[j] != ':' by {
        assert(v[j] == scheme[j]);
    }
    assert(v[scheme.len() as int] == ':');
    lemma_first_colon(v, scheme.len() as int);
    assert(v.take(scheme.len() as int) =~= scheme);
}

/// A link whose scheme, in any ASCII case, is not `http`, `https` or
/// `mailto` is dropped from a preview.
pub proof fn law_other_links_are_dropped(value: Seq<char>, scheme: Seq<char>, rest: Seq<char>)
    requires
        trim_ws(value) == scheme + seq![':'] + rest,
        forall|j: int| 0 <= j < scheme.len() ==> #[trigger] scheme[j] != ':',
        ascii_lower_seq(scheme) != "http"@,
        ascii_lower_seq(scheme) != "https"@,
        ascii_lower_seq(scheme) != "mailto"@,
    ensures
        spec_safe_href(value) is None,
{
    let v = trim_ws(value);
    assert forall|j: int| 0 <= j < scheme.len() implies v[j] != ':' by {
        assert(v[j] == scheme[j]);
    }
    assert(v[scheme.len() as int] == ':');
    lemma_first_colon(v, scheme.len() as int);
    assert(v.take(scheme.len() as int) =~= scheme);
}

pub fn safe_href(value: &str) -> (r: Option<String>)
    ensures
        match spec_safe_href(value@) {
            Some(h) => r matches Some(s) && s@ == h,
            None => r is None,
        },
{
    let v = trim_chars(chars_of(value).as_slice());
    if v.len() == 0 {
        return None;
    }
    let mut i: usize = 0;
    while i < v.len()
        invariant
            i <= v@.len(),
            v@ == trim_ws(value@),
            forall|j: int| 0 <= j < i ==> !is_control(#[trigger] v@[j]),
        decreases v@.len() - i,
    {
        if char_is_control(v[i]) {
            assert(is_control(v@[i as int]));
            return None;
        }
        i += 1;
    }
    let mut k: usize = 0;
    while k < v.len() && v[k] != ':'
        invariant
            k <= v@.len(),
            forall|j: int| 0 <= j < k ==> v@[j] != ':',
        decreases v@.len() - k,
    {
        k += 1;
    }
    proof {
        lemma_first_colon(v@, k as int);
    }
    if k == v.len() {
        return None;
    }
    let scheme = ascii_lower_chars(crate::text::sub_chars(v.as_slice(), 0, k).as_slice());
    assert(v@.subrange(0, k as int) =~= v@.take(k as int));
    if eq_literal(scheme.as_slice(), "http") || eq_literal(scheme.as_slice(), "https")
        || eq_literal(scheme.as_slice(), "mailto") {
        Some(bounded_chars(v.as_slice()))
    } else {
        None
    }
}

fn bounded_chars(v: &[char]) -> (r: String)
    ensures
        r@ == at_most_chars(v@, MAX_PREVIEW_CHARS as int),
{
    if v.len() > MAX_PREVIEW_CHARS {
        let t = crate::text::sub_chars(v, 0, MAX_PREVIEW_CHARS);
        assert(t@ =~= v@.take(MAX_PREVIEW_CHARS as int));
        string_from_chars(t.as_slice())
    } else {
        string_from_chars(v)
    }
}

/// At most the first 2 000 000 characters of a text.
pub fn bounded_text(value: &str) -> (r: String)
    ensures
        r@ == at_most_chars(value@, MAX_PREVIEW_CHARS as int),
{
    bounded_chars(chars_of(value).as_slice())
}

/// A bookmark's note: trimmed and bounded.
pub fn bookmark_note(note: &str) -> (r: String)
    ensures
        r@ == at_most_chars(trim_ws(note@), MAX_PREVIEW_CHARS as int),
{
    let t = trim_chars(chars_of(note).as_slice());
    bounded_chars(t.as_slice())
}

// ---------------------------------------------------------------------------
// The preview budget
// ---------------------------------------------------------------------------

/// What is left of the nodes and characters a preview may hold, and whether
/// anything was cut.
pub struct PreviewBudget {
    pub remaining_nodes: usize,
    pub remaining_chars: usize,
    pub truncated: bool,
}

impl PreviewBudget {
    pub fn new() -> (r: PreviewBudget)
        ensures
            r.remaining_nodes == MAX_PREVIEW_NODES,
            r.remaining_chars == MAX_PREVIEW_CHARS,
            !r.truncated,
    {
        PreviewBudget {
            remaining_nodes: MAX_PREVIEW_NODES,
            remaining_chars: MAX_PREVIEW_CHARS,
            truncated: false,
        }
    }

    /// Takes one node, if one is left; running out marks the preview as cut.
    pub fn consume_node(&mut self) -> (r: bool)
        ensures
            r == (old(self).remaining_nodes > 0),
            r ==> final(self).remaining_nodes == old(self).remaining_nodes - 1,
            r ==> final(self).truncated == old(self).truncated,
            !r ==> final(self).remaining_nodes == 0 && final(self).truncated,
            final(self).remaining_chars == old(self).remaining_chars,
    {
        if self.remaining_nodes == 0 {
            self.truncated = true;
            false
        } else {
            self.remaining_nodes = self.remaining_nodes - 1;
            true
        }
    }

    /// Takes as much of a text as characters are left; cutting it marks the
    /// preview as cut.
    pub fn take_text(&mut self, value: &str) -> (r: String)
        ensures
            r@ == at_most_chars(value@, old(self).remaining_chars as int),
            final(self).remaining_chars == old(self).remaining_chars - r@.len(),
            final(self).truncated == (old(self).truncated || value@.len()
                > old(self).remaining_chars),
            final(self).remaining_nodes == old(self).remaining_nodes,
    {
        let v = chars_of(value);
        if v.len() > self.remaining_chars {
            let t = crate::text::sub_chars(v.as_slice(), 0, self.remaining_chars);
            assert(t@ =~= v@.take(self.remaining_chars as int));
            self.remaining_chars = 0;
            self.truncated = true;
            string_from_chars(t.as_slice())
        } else {
            self.remaining_chars = self.remaining_chars - v.len();
            string_from_chars(v.as_slice())
        }
    }

    pub fn exhausted(&self) -> (r: bool)
        ensures
            r == (self.remaining_nodes == 0 || self.remaining_chars == 0),
    {
        self.remaining_nodes == 0 || self.remaining_chars == 0
    }
}

// ---------------------------------------------------------------------------
// Tag identifiers of a document
// ---------------------------------------------------------------------------

proof fn lemma_lex_irreflexive(a: Seq<char>)
    ensures
        !lex_less(a, a),
    decreases a.len(),
{
    if a.len() > 0 {
        lemma_lex_irreflexive(a.drop_first());
    }
}

proof fn lemma_lex_transitive(a: Seq<char>, b: Seq<char>, c: Seq<char>)
    requires
        lex_less(a, b),
        lex_less(b, c),
    ensures
        lex_less(a, c),
    decreases a.len(),
{
    if a.len() > 0 && b.len() > 0 && c.len() > 0 && a[0] == b[0] && b[0] == c[0] {
        lemma_lex_transitive(a.drop_first(), b.drop_first(), c.drop_first());
    }
}

proof fn lemma_lex_total(a: Seq<char>, b: Seq<char>)
    requires
        a != b,
    ensures
        lex_less(a, b) || lex_less(b, a),
    decreases a.len(),
{
    if a.len() > 0 && b.len() > 0 && a[0] == b[0] {
        if a.drop_first() == b.drop_first() {
            assert(a =~= seq![a[0]] + a.drop_first());
            assert(b =~= seq![b[0]] + b.drop_first());
        }
        lemma_lex_total(a.drop_first(), b.drop_first());
    } else if a.len() == 0 && b.len() == 0 {
        assert(a =~= b);
    }
}

/// Strictly ascending in string order, so no identifier occurs twice.
pub open spec fn strictly_ascending(s: Seq<Seq<char>>) -> bool {
    forall|i: int, j: int| 0 <= i < j < s.len() ==> lex_less(#[trigger] s[i], #[trigger] s[j])
}

pub open spec fn view_set(s: Seq<Seq<char>>) -> Set<Seq<char>> {
    Set::new(|x: Seq<char>| s.contains(x))
}

/// The identifiers sorted and each kept once, as `sort` then `dedup` leave
/// them.
pub fn dedup_tag_ids(tag_ids: &Vec<String>) -> (r: Vec<String>)
    ensures
        strictly_ascending(crate::query::strings_view(r@)),
        view_set(crate::query::strings_view(r@)) == view_set(crate::query::strings_view(tag_ids@)),
{
    let ghost input = crate::query::strings_view(tag_ids@);
    let mut out: Vec<String> = Vec::new();
    let mut i: usize = 0;
    while i < tag_ids.len()
        invariant
            i <= tag_ids@.len(),
            input == crate::query::strings_view(tag_ids@),
            strictly_ascending(crate::query::strings_view(out@)),
            view_set(crate::query::strings_view(out@)) == view_set(input.take(i as int)),
        decreases tag_ids@.len() - i,
    {
        let id = chars_of(tag_ids[i].as_str());
        let ghost sv = crate::query::strings_view(out@);
        let mut k: usize = 0;
        while k < out.len() && lex_less_exec(chars_of(out[k].as_str()).as_slice(), id.as_slice())
            invariant
                k <= out@.len(),
                sv == crate::query::strings_view(out@),
                forall|j: int| 0 <= j < k ==> lex_less(#[trigger] sv[j], id@),
            decreases out@.len() - k,
        {
            k += 1;
        }
        let present = k < out.len() && crate::text::eq_chars(
            chars_of(out[k].as_str()).as_slice(),
            id.as_slice(),
        );
        proof {
            assert(input.take(i + 1) =~= input.take(i as int).push(id@));
        }
        if present {
            proof {
                assert(view_set(sv) =~= view_set(input.take(i + 1))) by {
                    assert forall|x: Seq<char>| view_set(input.take(i + 1)).contains(x) implies view_set(sv).contains(x) by {
                        if x == id@ {
                            assert(sv[k as int] == x);
                        } else {
                            assert(input.take(i as int).contains(x)) by {
                                let w = choose|w: int| 0 <= w < input.take(i + 1).len() && #[trigger] input.take(i + 1)[w] == x;
                                assert(input.take(i as int)[w] == x);
                            }
                        }
                    }
                    assert forall|x: Seq<char>| view_set(sv).contains(x) implies view_set(input.take(i + 1)).contains(x) by {
                        assert(view_set(input.take(i as int)).contains(x));
                        let w = choose|w: int| 0 <= w < input.take(i as int).len() && #[trigger] input.take(i as int)[w] == x;
                        assert(input.take(i + 1)[w] == x);
                    }
                }
            }
        } else {
            proof {
                if k < sv.len() {
                    lemma_lex_total(sv[k as int], id@);
                }
            }
            let text = string_from_chars(id.as_slice());
            out.insert(k, text);
            proof {
                let nv = crate::query::strings_view(out@);
                assert(nv =~= sv.take(k as int) + seq![id@] + sv.skip(k as int));
                assert forall|a: int, b: int| 0 <= a < b < nv.len() implies lex_less(#[trigger] nv[a], #[trigger] nv[b]) by {
                    if b < k {
                        assert(nv[a] == sv[a] && nv[b] == sv[b]);
                    } else if b == k {
                        assert(nv[b] == id@ && nv[a] == sv[a]);
                    } else if a == k {
                        assert(nv[a] == id@ && nv[b] == sv[b - 1]);
                        if b - 1 > k {
                            lemma_lex_transitive(id@, sv[k as int], sv[b - 1]);
                        }
                    } else if a < k {
                        assert(nv[a] == sv[a] && nv[b] == sv[b - 1]);
                    } else {
                        assert(nv[a] == sv[a - 1] && nv[b] == sv[b - 1]);
                    }
                }
                assert(view_set(nv) =~= view_set(input.take(i + 1))) by {
                    assert forall|x: Seq<char>| view_set(input.take(i + 1)).contains(x) implies view_set(nv).contains(x) by {
                        if x == id@ {
                            assert(nv[k as int] == x);
                        } else {
                            let w = choose|w: int| 0 <= w < input.take(i + 1).len() && #[trigger] input.take(i + 1)[w] == x;
                            assert(input.take(i as int)[w] == x);
                            assert(view_set(sv).contains(x));
                            let v = choose|v: int| 0 <= v < sv.len() && #[trigger] sv[v] == x;
                            if v < k {
                                assert(nv[v] == x);
                            } else {
                                assert(nv[v + 1] == x);
                            }
                        }
                    }
                    assert forall|x: Seq<char>| view_set(nv).contains(x) implies view_set(input.take(i + 1)).contains(x) by {
                        let v = choose|v: int| 0 <= v < nv.len() && #[trigger] nv[v] == x;
                        if v == k {
                            assert(input.take(i + 1)[i as int] == x);
                        } else {
                            let u = if v < k { v } else { v - 1 };
                            assert(sv[u] == x);
                            assert(view_set(input.take(i as int)).contains(x));
                            let w = choose|w: int| 0 <= w < input.take(i as int).len() && #[trigger] input.take(i as int)[w] == x;
                            assert(input.take(i + 1)[w] == x);
                        }
                    }
                }
            }
        }
        i += 1;
    }
    assert(input.take(tag_ids@.len() as int) =~= input);
    out
}

/// Every requested tag must exist: the number found must be the number asked.
pub fn check_tags_found(found: i64, requested: usize) -> (r: Result<(), LibraryError>)
    ensures
        found == requested ==> r is Ok,
        found != requested ==> r == Err::<(), LibraryError>(LibraryError::TagNotFound),
{
    if found >= 0 && found as u64 == requested as u64 {
        Ok(())
    } else {
        Err(LibraryError::TagNotFound)
    }
}

} // verus!

