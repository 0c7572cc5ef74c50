//! Builds the cited prompt for document questions: the document is cut into
//! chunks, chunks that mention the question's words come first, and each
//! chunk is labelled so that the answer can cite it.
use vstd::prelude::*;

use crate::text::{
    char_is_whitespace, chars_of, contains_chars, contains_seq, eq_chars, extend_chars,
    is_alphanumeric, is_unicode_whitespace, join, join_chars, lemma_trim_end_is_prefix,
    lemma_trim_start_is_suffix, string_from_chars, sub_chars, to_lowercase, trim_chars,
    trim_end_ws, trim_start_ws, trim_ws, unicode_alphanumeric, unicode_lowercase,
};

verus! {

broadcast use vstd::string::group_string_axioms;

pub const MAX_CHUNKS: usize = 8;

pub const CHUNK_CHARS: usize = 4_000;

pub const MAX_CONTEXT_CHARS: usize = 24_000;

pub struct RetrievedContext {
    pub prompt: String,
    pub chunk_count: usize,
}

// ---------------------------------------------------------------------------
// Paragraphs and chunks
// ---------------------------------------------------------------------------

/// `str::split("\n\n")` from index `i`, with the pieces found so far and the piece being read.
pub open spec fn split_paragraphs_from(
    s: Seq<char>,
    i: int,
    pieces: Seq<Seq<char>>,
    cur: Seq<char>,
) -> Seq<Seq<char>>
    decreases s.len() - i,
{
    if i < 0 || i >= s.len() {
        pieces.push(cur)
    } else if i + 1 < s.len() && s[i] == '\n' && s[i + 1] == '\n' {
        split_paragraphs_from(s, i + 2, pieces.push(cur), seq![])
    } else {
        split_paragraphs_from(s, i + 1, pieces, cur.push(s[i]))
    }
}

/// The paragraphs of a document: the text between blank-line separators.
pub open spec fn paragraphs(s: Seq<char>) -> Seq<Seq<char>> {
    split_paragraphs_from(s, 0, seq![], seq![])
}

/// A long paragraph cut into pieces of at most `CHUNK_CHARS` characters.
pub open spec fn fixed_pieces(p: Seq<char>) -> Seq<Seq<char>>
    decreases p.len(),
{
    if p.len() <= CHUNK_CHARS {
        seq![p]
    } else {
        seq![p.take(CHUNK_CHARS as int)] + fixed_pieces(p.skip(CHUNK_CHARS as int))
    }
}

/// The chunks so far and the text gathered for the next chunk.
pub struct ChunkState {
    pub chunks: Seq<Seq<char>>,
    pub current: Seq<char>,
}

/// Adds one paragraph: the gathered text is closed as a chunk when the
/// paragraph would overflow it; a paragraph longer than a chunk is cut into
/// chunks of its own; otherwise the paragraph joins the gathered text.
pub open spec fn chunk_step(st: ChunkState, p: Seq<char>) -> ChunkState {
    let st1 = if st.current.len() + p.len() > CHUNK_CHARS && trim_ws(st.current).len() > 0 {
        ChunkState { chunks: st.chunks.push(trim_ws(st.current)), current: seq![] }
    } else {
        st
    };
    if p.len() > CHUNK_CHARS {
        let st2 = if trim_ws(st1.current).len() > 0 {
            ChunkState { chunks: st1.chunks.push(trim_ws(st1.current)), current: seq![] }
        } else {
            st1
        };
        ChunkState { chunks: st2.chunks + fixed_pieces(p), current: st2.current }
    } else {
        let joined = if st1.current.len() > 0 {
            st1.current + seq!['\n', '\n'] + p
        } else {
            st1.current + p
        };
        ChunkState { chunks: st1.chunks, current: joined }
    }
}

pub open spec fn chunk_fold(paras: Seq<Seq<char>>, st: ChunkState) -> ChunkState
    decreases paras.len(),
{
    if paras.len() == 0 {
        st
    } else {
        chunk_fold(paras.drop_first(), chunk_step(st, paras[0]))
    }
}

/// The chunks of a document.
pub open spec fn spec_split_chunks(markdown: Seq<char>) -> Seq<Seq<char>> {
    let end = chunk_fold(paragraphs(markdown), ChunkState { chunks: seq![], current: seq![] });
    if trim_ws(end.current).len() > 0 {
        end.chunks.push(trim_ws(end.current))
    } else {
        end.chunks
    }
}

pub open spec fn views_of(v: Seq<Vec<char>>) -> Seq<Seq<char>> {
    v.map_values(|p: Vec<char>| p@)
}

fn split_paragraphs(s: &[char]) -> (r: Vec<Vec<char>>)
    ensures
        views_of(r@) == paragraphs(s@),
{
    let mut pieces: Vec<Vec<char>> = Vec::new();
    let mut cur: Vec<char> = Vec::new();
    let mut i: usize = 0;
    proof {
        assert(views_of(pieces@) =~= seq![]);
    }
    while i < s.len()
        invariant
            i <= s@.len(),
            split_paragraphs_from(s@, i as int, views_of(pieces@), cur@) == paragraphs(s@),
        decreases s@.len() - i,
    {
        if i + 1 < s.len() && s[i] == '\n' && s[i + 1] == '\n' {
            let ghost before = views_of(pieces@);
            let mut done: Vec<char> = Vec::new();
            std::mem::swap(&mut done, &mut cur);
            pieces.push(done);
            assert(views_of(pieces@) =~= before.push(done@));
            i += 2;
        } else {
            cur.push(s[i]);
            i += 1;
        }
    }
    let ghost before = views_of(pieces@);
    pieces.push(cur);
    assert(views_of(pieces@) =~= before.push(cur@));
    pieces
}

fn fixed_pieces_exec(p: &[char], out: &mut Vec<Vec<char>>)
    requires
        p@.len() > 0,
    ensures
        views_of(final(out)@) == views_of(old(out)@) + fixed_pieces(p@),
    decreases p@.len(),
{
    if p.len() <= CHUNK_CHARS {
        let ghost before = views_of(out@);
        out.push(sub_chars(p, 0, p.len()));
        assert(p@.subrange(0, p@.len() as int) =~= p@);
        assert(views_of(out@) =~= before + seq![p@]);
    } else {
        let ghost before = views_of(out@);
        out.push(sub_chars(p, 0, CHUNK_CHARS));
        assert(views_of(out@) =~= before + seq![p@.take(CHUNK_CHARS as int)]);
        let rest = sub_chars(p, CHUNK_CHARS, p.len());
        assert(rest@ =~= p@.skip(CHUNK_CHARS as int));
        fixed_pieces_exec(rest.as_slice(), out);
        assert(views_of(out@) =~= before + fixed_pieces(p@));
    }
}

/// Cuts a document into chunks of at most `CHUNK_CHARS` characters along blank lines.
pub fn split_chunks(markdown: &[char]) -> (r: Vec<Vec<char>>)
    ensures
        views_of(r@) == spec_split_chunks(markdown@),
{
    let paras = split_paragraphs(markdown);
    let mut chunks: Vec<Vec<char>> = Vec::new();
    let mut current: Vec<char> = Vec::new();
    let ghost all = views_of(paras@);
    let mut k: usize = 0;
    proof {
        assert(views_of(chunks@) =~= seq![]);
        assert(all.skip(0) =~= all);
    }
    while k < paras.len()
        invariant
            k <= paras@.len(),
            all == views_of(paras@),
            all == paragraphs(markdown@),
            chunk_fold(all, ChunkState { chunks: seq![], current: seq![] }) == chunk_fold(
                all.skip(k as int),
                ChunkState { chunks: views_of(chunks@), current: current@ },
            ),
        decreases paras@.len() - k,
    {
        let p = paras[k].as_slice();
        let ghost st = ChunkState { chunks: views_of(chunks@), current: current@ };
        proof {
            assert(all[k as int] == p@);
            assert(all.skip(k as int)[0] == p@);
            assert(all.skip(k as int).drop_first() =~= all.skip(k + 1));
        }
        if current.len() as u128 + p.len() as u128 > CHUNK_CHARS as u128 {
            let trimmed = trim_chars(current.as_slice());
            if trimmed.len() > 0 {
                let ghost before = views_of(chunks@);
                chunks.push(trimmed);
                assert(views_of(chunks@) =~= before.push(trim_ws(st.current)));
                current = Vec::new();
            }
        }
        let ghost st1 = ChunkState { chunks: views_of(chunks@), current: current@ };
        if p.len() > CHUNK_CHARS {
            let trimmed = trim_chars(current.as_slice());
            if trimmed.len() > 0 {
                let ghost before = views_of(chunks@);
                chunks.push(trimmed);
                assert(views_of(chunks@) =~= before.push(trim_ws(st1.current)));
                current = Vec::new();
            }
            fixed_pieces_exec(p, &mut chunks);
        } else {
            if current.len() > 0 {
                current.push('\n');
                current.push('\n');
                assert(current@ =~= st1.current + seq!['\n', '\n']);
            }
            extend_chars(&mut current, p);
            assert(current@ =~= if st1.current.len() > 0 {
                st1.current + seq!['\n', '\n'] + p@
            } else {
                st1.current + p@
            });
        }
        proof {
            assert(chunk_step(st, p@) == ChunkState {
                chunks: views_of(chunks@),
                current: current@,
            });
        }
        k += 1;
    }
    proof {
        assert(all.skip(k as int) =~= seq![]);
    }
    let trimmed = trim_chars(current.as_slice());
    if trimmed.len() > 0 {
        let ghost before = views_of(chunks@);
        chunks.push(trimmed);
        assert(views_of(chunks@) =~= before.push(trim_ws(current@)));
    }
    chunks
}

// ---------------------------------------------------------------------------
// Question terms and scores
// ---------------------------------------------------------------------------

/// `str::split` at every character that is not alphanumeric, from index `i`.
pub open spec fn split_words_from(
    s: Seq<char>,
    i: int,
    pieces: Seq<Seq<char>>,
    cur: Seq<char>,
) -> Seq<Seq<char>>
    decreases s.len() - i,
{
    if i < 0 || i >= s.len() {
        pieces.push(cur)
    } else if !unicode_alphanumeric(s[i]) {
        split_words_from(s, i + 1, pieces.push(cur), seq![])
    } else {
        split_words_from(s, i + 1, pieces, cur.push(s[i]))
    }
}

/// Trimmed pieces of at least two characters, lower-cased, each kept once.
pub open spec fn collect_terms(pieces: Seq<Seq<char>>, acc: Seq<Seq<char>>) -> Seq<Seq<char>>
    decreases pieces.len(),
{
    if pieces.len() == 0 {
        acc
    } else {
        let t = trim_ws(pieces[0]);
        let next = if t.len() >= 2 && !acc.contains(unicode_lowercase(t)) {
            acc.push(unicode_lowercase(t))
        } else {
            acc
        };
        collect_terms(pieces.drop_first(), next)
    }
}

/// The distinct lower-cased words of at least two characters in a question.
pub open spec fn spec_search_terms(question: Seq<char>) -> Seq<Seq<char>> {
    collect_terms(split_words_from(question, 0, seq![], seq![]), seq![])
}

/// How many of the terms occur in the text.
pub open spec fn term_score(terms: Seq<Seq<char>>, folded: Seq<char>) -> nat
    decreases terms.len(),
{
    if terms.len() == 0 {
        0
    } else {
        term_score(terms.drop_last(), folded) + if contains_seq(folded, terms.last()) {
            1nat
        } else {
            0nat
        }
    }
}

fn lower_chars(s: &[char]) -> (r: Vec<char>)
    ensures
        r@ == unicode_lowercase(s@),
{
    let text = string_from_chars(s);
    let lower = to_lowercase(text.as_str());
    chars_of(lower.as_str())
}

fn contains_term(terms: &Vec<Vec<char>>, t: &[char]) -> (r: bool)
    ensures
        r == views_of(terms@).contains(t@),
{
    let mut i: usize = 0;
    while i < terms.len()
        invariant
            i <= terms@.len(),
            forall|j: int| 0 <= j < i ==> views_of(terms@)[j] != t@,
        decreases terms@.len() - i,
    {
        if eq_chars(terms[i].as_slice(), t) {
            assert(views_of(terms@)[i as int] == t@);
            return true;
        }
        i += 1;
    }
    false
}

/// The question's search terms.
pub fn search_terms(question: &str) -> (r: Vec<Vec<char>>)
    ensures
        views_of(r@) == spec_search_terms(question@),
{
    let q = chars_of(question);
    let mut pieces: Vec<Vec<char>> = Vec::new();
    let mut cur: Vec<char> = Vec::new();
    let mut i: usize = 0;
    proof {
        assert(views_of(pieces@) =~= seq![]);
    }
    while i < q.len()
        invariant
            i <= q@.len(),
            q@ == question@,
            split_words_from(q@, i as int, views_of(pieces@), cur@) == split_words_from(
                q@,
                0,
                seq![],
                seq![],
            ),
        decreases q@.len() - i,
    {
        if !is_alphanumeric(q[i]) {
            let ghost before = views_of(pieces@);
            let mut done: Vec<char> = Vec::new();
            std::mem::swap(&mut done, &mut cur);
            pieces.push(done);
            assert(views_of(pieces@) =~= before.push(done@));
        } else {
            cur.push(q[i]);
        }
        i += 1;
    }
    let ghost before = views_of(pieces@);
    pieces.push(cur);
    assert(views_of(pieces@) =~= before.push(cur@));
    let ghost all = views_of(pieces@);
    let mut terms: Vec<Vec<char>> = Vec::new();
    let mut k: usize = 0;
    proof {
        assert(views_of(terms@) =~= seq![]);
        assert(all.skip(0) =~= all);
    }
    while k < pieces.len()
        invariant
            k <= pieces@.len(),
            all == views_of(pieces@),
            all == split_words_from(question@, 0, seq![], seq![]),
            collect_terms(all, seq![]) == collect_terms(all.skip(k as int), views_of(terms@)),
        decreases pieces@.len() - k,
    {
        proof {
            assert(all[k as int] == pieces@[k as int]@);
            assert(all.skip(k as int)[0] == all[k as int]);
            assert(all.skip(k as int).drop_first() =~= all.skip(k + 1));
        }
        let t = trim_chars(pieces[k].as_slice());
        if t.len() >= 2 {
            let lower = lower_chars(t.as_slice());
            if !contains_term(&terms, lower.as_slice()) {
                let ghost before = views_of(terms@);
                terms.push(lower);
                assert(views_of(terms@) =~= before.push(lower@));
            }
        }
        k += 1;
    }
    assert(all.skip(k as int) =~= seq![]);
    terms
}

fn score_of(terms: &Vec<Vec<char>>, folded: &[char]) -> (r: usize)
    ensures
        r == term_score(views_of(terms@), folded@),
{
    let mut count: usize = 0;
    let mut i: usize = 0;
    while i < terms.len()
        invariant
            i <= terms@.len(),
            count <= i,
            count == term_score(views_of(terms@).take(i as int), folded@),
        decreases terms@.len() - i,
    {
        if contains_chars(folded, terms[i].as_slice()) {
            count += 1;
        }
        i += 1;
        assert(views_of(terms@).take(i as int).drop_last() =~= views_of(terms@).take(i - 1));
    }
    assert(views_of(terms@).take(terms@.len() as int) =~= views_of(terms@));
    count
}

// ---------------------------------------------------------------------------
// Ranking
// ---------------------------------------------------------------------------

/// Chunk `a` ranks before chunk `b`: a higher score, or the same score earlier in the document.
pub open spec fn ranks_before(scores: Seq<nat>, a: int, b: int) -> bool {
    scores[a] > scores[b] || (scores[a] == scores[b] && a < b)
}

/// Inserts `x` into a ranked list before the first entry it ranks before.
pub open spec fn insert_ranked(scores: Seq<nat>, list: Seq<int>, x: int) -> Seq<int>
    decreases list.len(),
{
    if list.len() == 0 {
        seq![x]
    } else if ranks_before(scores, x, list[0]) {
        seq![x] + list
    } else {
        seq![list[0]] + insert_ranked(scores, list.drop_first(), x)
    }
}

/// The chunk indices `0..n` ordered by score, highest first, ties in document order.
pub open spec fn ranking(scores: Seq<nat>, n: nat) -> Seq<int>
    decreases n,
{
    if n == 0 {
        seq![]
    } else {
        insert_ranked(scores, ranking(scores, (n - 1) as nat), n - 1)
    }
}

proof fn lemma_insert_ranked_at(scores: Seq<nat>, list: Seq<int>, x: int, pos: int)
    requires
        0 <= pos <= list.len(),
        forall|j: int| 0 <= j < pos ==> !ranks_before(scores, x, #[trigger] list[j]),
        pos == list.len() || ranks_before(scores, x, list[pos]),
    ensures
        insert_ranked(scores, list, x) == list.take(pos) + seq![x] + list.skip(pos),
    decreases list.len(),
{
    if list.len() == 0 {
        assert(list.take(pos) + seq![x] + list.skip(pos) =~= seq![x]);
    } else if pos == 0 {
        assert(list.take(0) + seq![x] + list.skip(0) =~= seq![x] + list);
    } else {
        assert(!ranks_before(scores, x, list[0]));
        assert forall|j: int| 0 <= j < pos - 1 implies !ranks_before(
            scores,
            x,
            #[trigger] list.drop_first()[j],
        ) by {
            assert(list.drop_first()[j] == list[j + 1]);
        }
        lemma_insert_ranked_at(scores, list.drop_first(), x, pos - 1);
        assert(seq![list[0]] + (list.drop_first().take(pos - 1) + seq![x] + list.drop_first().skip(
            pos - 1,
        )) =~= list.take(pos) + seq![x] + list.skip(pos));
    }
}

pub open spec fn indices_view(v: Seq<usize>) -> Seq<int> {
    v.map_values(|i: usize| i as int)
}

pub open spec fn scores_view(v: Seq<usize>) -> Seq<nat> {
    v.map_values(|s: usize| s as nat)
}

fn rank(scores: &Vec<usize>) -> (r: Vec<usize>)
    ensures
        indices_view(r@) == ranking(scores_view(scores@), scores@.len() as nat),
        forall|j: int| 0 <= j < r@.len() ==> #[trigger] r@[j] < scores@.len(),
        r@.len() == scores@.len(),
{
    let ghost sv = scores_view(scores@);
    let mut order: Vec<usize> = Vec::new();
    let mut n: usize = 0;
    proof {
        assert(indices_view(order@) =~= seq![]);
    }
    while n < scores.len()
        invariant
            n <= scores@.len(),
            sv == scores_view(scores@),
            indices_view(order@) == ranking(sv, n as nat),
            order@.len() == n,
            forall|j: int| 0 <= j < order@.len() ==> #[trigger] order@[j] < n,
        decreases scores@.len() - n,
    {
        let mut pos: usize = 0;
        while pos < order.len() && !(scores[n] > scores[order[pos]] || (scores[n]
            == scores[order[pos]] && n < order[pos]))
            invariant
                pos <= order@.len(),
                n < scores@.len(),
                sv == scores_view(scores@),
                forall|j: int| 0 <= j < order@.len() ==> #[trigger] order@[j] < n,
                forall|j: int|
                    0 <= j < pos ==> !ranks_before(sv, n as int, #[trigger] indices_view(order@)[j]),
            decreases order@.len() - pos,
        {
            pos += 1;
        }
        let ghost old_order = indices_view(order@);
        let ghost old_raw = order@;
        proof {
            lemma_insert_ranked_at(sv, old_order, n as int, pos as int);
        }
        order.insert(pos, n);
        n += 1;
        proof {
            assert(indices_view(order@) =~= old_order.take(pos as int) + seq![(n - 1) as int]
                + old_order.skip(pos as int));
            assert forall|j: int| 0 <= j < order@.len() implies #[trigger] order@[j] < n by {
                if j < pos {
                    assert(order@[j] == old_raw[j]);
                } else if j > pos {
                    assert(order@[j] == old_raw[j - 1]);
                }
            }
        }
    }
    order
}

// ---------------------------------------------------------------------------
// The prompt
// ---------------------------------------------------------------------------

/// The decimal digits of `n`.
pub open spec fn decimal(n: nat) -> Seq<char>
    decreases n,
{
    if n < 10 {
        seq![('0' as nat + n) as char]
    } else {
        decimal(n / 10) + seq![('0' as nat + n % 10) as char]
    }
}

pub fn decimal_exec(n: u64) -> (r: Vec<char>)
    ensures
        r@ == decimal(n as nat),
    decreases n,
{
    if n < 10 {
        let c = ((48 + n) as u8) as char;
        let mut v = Vec::new();
        v.push(c);
        assert(v@ =~= seq![c]);
        v
    } else {
        let mut v = decimal_exec(n / 10);
        let c = ((48 + n % 10) as u8) as char;
        v.push(c);
        v
    }
}

pub fn decimal_u128(n: u128) -> (r: Vec<char>)
    ensures
        r@ == decimal(n as nat),
    decreases n,
{
    if n < 10 {
        let c = ((48 + n) as u8) as char;
        let mut v = Vec::new();
        v.push(c);
        assert(v@ =~= seq![c]);
        v
    } else {
        let mut v = decimal_u128(n / 10);
        let c = ((48 + n % 10) as u8) as char;
        v.push(c);
        v
    }
}

/// The label that the answer cites for the chunk at `index`.
pub open spec fn citation_label(index: int) -> Seq<char> {
    "[문서 근거 "@ + decimal((index + 1) as nat) + "]\n"@
}

/// The cited chunks: the first `MAX_CHUNKS` of the ranking, each shortened
/// so that all of them together hold at most `MAX_CONTEXT_CHARS` characters.
pub open spec fn cited_chunks(chunks: Seq<Seq<char>>, ranked: Seq<int>, used: nat) -> Seq<
    Seq<char>,
>
    decreases ranked.len(),
{
    if ranked.len() == 0 {
        seq![]
    } else {
        let index = ranked[0];
        let remaining: nat = if used >= MAX_CONTEXT_CHARS {
            0
        } else {
            (MAX_CONTEXT_CHARS - used) as nat
        };
        if remaining == 0 {
            cited_chunks(chunks, ranked.drop_first(), used)
        } else {
            let text = chunks[index];
            let bounded = if text.len() <= remaining {
                text
            } else {
                text.take(remaining as int)
            };
            seq![citation_label(index) + bounded] + cited_chunks(
                chunks,
                ranked.drop_first(),
                used + bounded.len(),
            )
        }
    }
}

/// The instruction that opens the prompt.
pub open spec fn instruction(question: Option<Seq<char>>) -> Seq<char> {
    match question {
        Some(q) => if trim_ws(q).len() > 0 {
            "아래 문서 근거만 사용해 질문에 답하세요. 각 핵심 주장 뒤에 [문서 근거 N]을 표시하고, 근거가 없으면 모른다고 답하세요.\n질문: "@
                + trim_ws(q)
        } else {
            "아래 문서의 핵심 내용, 주요 수치, 결론을 한국어로 간결하게 요약하세요. 각 항목 뒤에 [문서 근거 N]을 표시하세요."@
        },
        None => "아래 문서의 핵심 내용, 주요 수치, 결론을 한국어로 간결하게 요약하세요. 각 항목 뒤에 [문서 근거 N]을 표시하세요."@,
    }
}

pub open spec fn option_str_view(q: Option<&str>) -> Option<Seq<char>> {
    match q {
        Some(s) => Some(s@),
        None => None,
    }
}

/// The scores of the chunks: how many question terms each mentions, case-insensitively.
pub open spec fn chunk_scores(chunks: Seq<Seq<char>>, terms: Seq<Seq<char>>) -> Seq<nat> {
    chunks.map_values(|c: Seq<char>| term_score(terms, unicode_lowercase(c)))
}

pub open spec fn question_terms(question: Option<Seq<char>>) -> Seq<Seq<char>> {
    match question {
        Some(q) => spec_search_terms(q),
        None => seq![],
    }
}

/// The chunks cited in the prompt for a document and question.
pub open spec fn spec_cited(markdown: Seq<char>, question: Option<Seq<char>>) -> Seq<Seq<char>> {
    let chunks = spec_split_chunks(markdown);
    let scores = chunk_scores(chunks, question_terms(question));
    let ranked = ranking(scores, chunks.len());
    let top = if ranked.len() <= MAX_CHUNKS {
        ranked
    } else {
        ranked.take(MAX_CHUNKS as int)
    };
    cited_chunks(chunks, top, 0)
}

/// The prompt: the instruction, a blank line, and the cited chunks separated by blank lines.
pub open spec fn spec_prompt(markdown: Seq<char>, question: Option<Seq<char>>) -> Seq<char> {
    instruction(question) + "\n\n"@ + join(spec_cited(markdown, question), "\n\n"@)
}

fn build_instruction(question: Option<&str>) -> (r: Vec<char>)
    ensures
        r@ == instruction(option_str_view(question)),
{
    match question {
        Some(q) => {
            let qc = chars_of(q);
            let t = trim_chars(qc.as_slice());
            if t.len() > 0 {
                let mut out = chars_of(
                    "아래 문서 근거만 사용해 질문에 답하세요. 각 핵심 주장 뒤에 [문서 근거 N]을 표시하고, 근거가 없으면 모른다고 답하세요.\n질문: ",
                );
                extend_chars(&mut out, t.as_slice());
                out
            } else {
                chars_of(
                    "아래 문서의 핵심 내용, 주요 수치, 결론을 한국어로 간결하게 요약하세요. 각 항목 뒤에 [문서 근거 N]을 표시하세요.",
                )
            }
        },
        None => chars_of(
            "아래 문서의 핵심 내용, 주요 수치, 결론을 한국어로 간결하게 요약하세요. 각 항목 뒤에 [문서 근거 N]을 표시하세요.",
        ),
    }
}

fn label_exec(index: usize) -> (r: Vec<char>)
    requires
        index < usize::MAX,
    ensures
        r@ == citation_label(index as int),
{
    let mut out = chars_of("[문서 근거 ");
    let digits = decimal_exec((index + 1) as u64);
    extend_chars(&mut out, digits.as_slice());
    let tail = chars_of("]\n");
    extend_chars(&mut out, tail.as_slice());
    out
}

/// Builds the prompt for a question about a document, or for a summary when
/// no question is given, citing the chunks that mention the question's words first.
pub fn build_cited_prompt(markdown: &str, question: Option<&str>) -> (r: RetrievedContext)
    ensures
        r.prompt@ == spec_prompt(markdown@, option_str_view(question)),
        r.chunk_count == spec_cited(markdown@, option_str_view(question)).len(),
        r.chunk_count <= MAX_CHUNKS,
{
    let md = chars_of(markdown);
    let chunks = split_chunks(md.as_slice());
    let ghost cv = views_of(chunks@);
    let terms = match question {
        Some(q) => search_terms(q),
        None => Vec::new(),
    };
    proof {
        if question is None {
            assert(views_of(terms@) =~= seq![]);
        }
    }
    let ghost tv = views_of(terms@);
    let mut scores: Vec<usize> = Vec::new();
    let mut i: usize = 0;
    while i < chunks.len()
        invariant
            i <= chunks@.len(),
            cv == views_of(chunks@),
            tv == views_of(terms@),
            scores_view(scores@) == chunk_scores(cv, tv).take(i as int),
        decreases chunks@.len() - i,
    {
        let folded = lower_chars(chunks[i].as_slice());
        let s = score_of(&terms, folded.as_slice());
        assert(cv[i as int] == chunks@[i as int]@);
        assert(chunk_scores(cv, tv)[i as int] == s as nat);
        let ghost before = scores_view(scores@);
        scores.push(s);
        assert(scores_view(scores@) =~= before.push(s as nat));
        assert(chunk_scores(cv, tv).take(i + 1) =~= chunk_scores(cv, tv).take(i as int).push(
            chunk_scores(cv, tv)[i as int],
        ));
        i += 1;
    }
    assert(chunk_scores(cv, tv).take(chunks@.len() as int) =~= chunk_scores(cv, tv));
    let ranked = rank(&scores);
    let ghost rv = indices_view(ranked@);
    let limit = if ranked.len() <= MAX_CHUNKS {
        ranked.len()
    } else {
        MAX_CHUNKS
    };
    let ghost top = if rv.len() <= MAX_CHUNKS {
        rv
    } else {
        rv.take(MAX_CHUNKS as int)
    };
    assert(top =~= rv.take(limit as int));
    let mut selected: Vec<Vec<char>> = Vec::new();
    let mut used: usize = 0;
    let mut k: usize = 0;
    proof {
        assert(views_of(selected@) =~= seq![]);
        assert(top.skip(0) =~= top);
    }
    while k < limit
        invariant
            k <= limit <= ranked@.len(),
            limit <= MAX_CHUNKS,
            ranked@.len() == chunks@.len(),
            forall|j: int| 0 <= j < ranked@.len() ==> #[trigger] ranked@[j] < chunks@.len(),
            rv == indices_view(ranked@),
            top == rv.take(limit as int),
            cv == views_of(chunks@),
            used <= MAX_CONTEXT_CHARS,
            selected@.len() <= k,
            cited_chunks(cv, top, 0) == views_of(selected@) + cited_chunks(
                cv,
                top.skip(k as int),
                used as nat,
            ),
        decreases limit - k,
    {
        let index = ranked[k];
        assert(index < chunks.len());
        proof {
            assert(top.skip(k as int)[0] == index as int);
            assert(top.skip(k as int).drop_first() =~= top.skip(k + 1));
        }
        let remaining = MAX_CONTEXT_CHARS - used;
        if remaining > 0 {
            let text = chunks[index].as_slice();
            let bounded = if text.len() <= remaining {
                sub_chars(text, 0, text.len())
            } else {
                sub_chars(text, 0, remaining)
            };
            proof {
                assert(cv[index as int] == text@);
                assert(text@.subrange(0, text@.len() as int) =~= text@);
            }
            let mut entry = label_exec(index);
            let ghost label = entry@;
            extend_chars(&mut entry, bounded.as_slice());
            used = used + bounded.len();
            let ghost before = views_of(selected@);
            selected.push(entry);
            proof {
                assert(views_of(selected@) =~= before.push(label + bounded@));
                assert(before + (seq![label + bounded@] + cited_chunks(
                    cv,
                    top.skip(k + 1),
                    used as nat,
                )) =~= views_of(selected@) + cited_chunks(cv, top.skip(k + 1), used as nat));
            }
        }
        k += 1;
    }
    proof {
        assert(top.skip(k as int) =~= seq![]);
        assert(views_of(selected@) =~= cited_chunks(cv, top, 0));
    }
    let mut prompt = build_instruction(question);
    prompt.push('\n');
    prompt.push('\n');
    let body = join_chars(&selected, &['\n', '\n']);
    extend_chars(&mut prompt, body.as_slice());
    proof {
        reveal_strlit("\n\n");
        assert(['\n', '\n']@ =~= "\n\n"@);
        assert(prompt@ =~= instruction(option_str_view(question)) + "\n\n"@ + join(
            cited_chunks(cv, top, 0),
            "\n\n"@,
        ));
    }
    RetrievedContext { prompt: string_from_chars(prompt.as_slice()), chunk_count: selected.len() }
}


// ---------------------------------------------------------------------------
// Laws
// ---------------------------------------------------------------------------

/// Every entry of the list ranks before every later one.
pub open spec fn ranked_in_order(scores: Seq<nat>, list: Seq<int>) -> bool {
    forall|i: int, j: int|
        0 <= i < j < list.len() ==> ranks_before(scores, #[trigger] list[i], #[trigger] list[j])
}

proof fn lemma_insert_ranked_in_order(scores: Seq<nat>, list: Seq<int>, x: int)
    requires
        ranked_in_order(scores, list),
        !list.contains(x),
    ensures
        ranked_in_order(scores, insert_ranked(scores, list, x)),
        insert_ranked(scores, list, x).len() == list.len() + 1,
        forall|y: int| #[trigger]
            insert_ranked(scores, list, x).contains(y) <==> (list.contains(y) || y == x),
    decreases list.len(),
{
    let r = insert_ranked(scores, list, x);
    if list.len() == 0 {
        assert(r =~= seq![x]);
        assert forall|y: int| #[trigger] r.contains(y) <==> (list.contains(y) || y == x) by {
            if r.contains(y) {
                assert(r[0] == y);
            }
            if y == x {
                assert(r[0] == x);
            }
        }
    } else if ranks_before(scores, x, list[0]) {
        assert(r == seq![x] + list);
        assert forall|i: int, j: int| 0 <= i < j < r.len() implies ranks_before(
            scores,
            #[trigger] r[i],
            #[trigger] r[j],
        ) by {
            if i == 0 {
                assert(r[j] == list[j - 1]);
                if j - 1 > 0 {
                    assert(ranks_before(scores, list[0], list[j - 1]));
                }
            } else {
                assert(r[i] == list[i - 1] && r[j] == list[j - 1]);
            }
        }
        assert forall|y: int| #[trigger] r.contains(y) <==> (list.contains(y) || y == x) by {
            if r.contains(y) {
                let k = choose|k: int| 0 <= k < r.len() && r[k] == y;
                if k > 0 {
                    assert(list[k - 1] == y);
                }
            }
            if list.contains(y) {
                let k = choose|k: int| 0 <= k < list.len() && list[k] == y;
                assert(r[k + 1] == y);
            }
            if y == x {
                assert(r[0] == x);
            }
        }
    } else {
        let rest = list.drop_first();
        assert forall|i: int, j: int| 0 <= i < j < rest.len() implies ranks_before(
            scores,
            #[trigger] rest[i],
            #[trigger] rest[j],
        ) by {
            assert(rest[i] == list[i + 1] && rest[j] == list[j + 1]);
        }
        assert(!rest.contains(x)) by {
            if rest.contains(x) {
                let k = choose|k: int| 0 <= k < rest.len() && rest[k] == x;
                assert(list[k + 1] == x);
            }
        }
        lemma_insert_ranked_in_order(scores, rest, x);
        let ins = insert_ranked(scores, rest, x);
        assert(r == seq![list[0]] + ins);
        assert(x != list[0]);
        assert(ranks_before(scores, list[0], x));
        assert forall|i: int, j: int| 0 <= i < j < r.len() implies ranks_before(
            scores,
            #[trigger] r[i],
            #[trigger] r[j],
        ) by {
            if i == 0 {
                assert(r[j] == ins[j - 1]);
                assert(ins.contains(ins[j - 1]));
                if ins[j - 1] != x {
                    assert(rest.contains(ins[j - 1]));
                    let k = choose|k: int| 0 <= k < rest.len() && rest[k] == ins[j - 1];
                    assert(list[k + 1] == ins[j - 1]);
                    assert(ranks_before(scores, list[0], list[k + 1]));
                }
            } else {
                assert(r[i] == ins[i - 1] && r[j] == ins[j - 1]);
            }
        }
        assert forall|y: int| #[trigger] r.contains(y) <==> (list.contains(y) || y == x) by {
            if r.contains(y) {
                let k = choose|k: int| 0 <= k < r.len() && r[k] == y;
                if k > 0 {
                    assert(ins[k - 1] == y);
                    assert(ins.contains(y));
                    if rest.contains(y) {
                        let m = choose|m: int| 0 <= m < rest.len() && rest[m] == y;
                        assert(list[m + 1] == y);
                    }
                } else {
                    assert(list[0] == y);
                }
            }
            if list.contains(y) {
                let k = choose|k: int| 0 <= k < list.len() && list[k] == y;
                if k == 0 {
                    assert(r[0] == y);
                } else {
                    assert(rest[k - 1] == y);
                    assert(rest.contains(y));
                    assert(ins.contains(y));
                    let m = choose|m: int| 0 <= m < ins.len() && ins[m] == y;
                    assert(r[m + 1] == y);
                }
            }
            if y == x {
                assert(ins.contains(x));
                let m = choose|m: int| 0 <= m < ins.len() && ins[m] == x;
                assert(r[m + 1] == x);
            }
        }
    }
}

/// The ranking of `n` chunks orders each of them once, highest score first
/// and ties in document order.
pub proof fn lemma_ranking_in_order(scores: Seq<nat>, n: nat)
    ensures
        ranked_in_order(scores, ranking(scores, n)),
        ranking(scores, n).len() == n,
        forall|y: int| #[trigger] ranking(scores, n).contains(y) <==> 0 <= y < n,
    decreases n,
{
    if n > 0 {
        lemma_ranking_in_order(scores, (n - 1) as nat);
        let prev = ranking(scores, (n - 1) as nat);
        assert(!prev.contains(n - 1));
        lemma_insert_ranked_in_order(scores, prev, n - 1);
    } else {
        assert forall|y: int| #[trigger] ranking(scores, n).contains(y) <==> 0 <= y < n by {
            if ranking(scores, n).contains(y) {
                let k = choose|k: int| 0 <= k < ranking(scores, n).len() && ranking(scores, n)[k] == y;
            }
        }
    }
}

/// How many characters of chunk text (labels aside) the citations quote.
pub open spec fn quoted_chars(chunks: Seq<Seq<char>>, ranked: Seq<int>, used: nat) -> nat
    decreases ranked.len(),
{
    if ranked.len() == 0 {
        0
    } else {
        let remaining: nat = if used >= MAX_CONTEXT_CHARS {
            0
        } else {
            (MAX_CONTEXT_CHARS - used) as nat
        };
        if remaining == 0 {
            quoted_chars(chunks, ranked.drop_first(), used)
        } else {
            let text = chunks[ranked[0]];
            let n: nat = if text.len() <= remaining {
                text.len()
            } else {
                remaining
            };
            n + quoted_chars(chunks, ranked.drop_first(), used + n)
        }
    }
}

proof fn lemma_quoted_within_budget(chunks: Seq<Seq<char>>, ranked: Seq<int>, used: nat)
    ensures
        used < MAX_CONTEXT_CHARS ==> used + quoted_chars(chunks, ranked, used) <= MAX_CONTEXT_CHARS,
        used >= MAX_CONTEXT_CHARS ==> quoted_chars(chunks, ranked, used) == 0,
        cited_chunks(chunks, ranked, used).len() <= ranked.len(),
    decreases ranked.len(),
{
    if ranked.len() > 0 {
        let remaining: nat = if used >= MAX_CONTEXT_CHARS {
            0
        } else {
            (MAX_CONTEXT_CHARS - used) as nat
        };
        if remaining == 0 {
            lemma_quoted_within_budget(chunks, ranked.drop_first(), used);
        } else {
            let text = chunks[ranked[0]];
            let n: nat = if text.len() <= remaining {
                text.len()
            } else {
                remaining
            };
            let bounded = if text.len() <= remaining {
                text
            } else {
                text.take(remaining as int)
            };
            assert(bounded.len() == n);
            lemma_quoted_within_budget(chunks, ranked.drop_first(), used + n);
        }
    }
}

/// Citations are ranked, distinct and bounded: the chunks of a document are
/// ranked each once, by the number of question terms they mention and then
/// in document order; at most `MAX_CHUNKS` of them are cited, and the text
/// they quote holds at most `MAX_CONTEXT_CHARS` characters.
pub proof fn law_citations_are_ranked_and_bounded(markdown: Seq<char>, question: Option<Seq<char>>)
    ensures
        ({
            let chunks = spec_split_chunks(markdown);
            let scores = chunk_scores(chunks, question_terms(question));
            let ranked = ranking(scores, chunks.len());
            let top = if ranked.len() <= MAX_CHUNKS {
                ranked
            } else {
                ranked.take(MAX_CHUNKS as int)
            };
            &&& ranked.len() == chunks.len()
            &&& forall|y: int| #[trigger] ranked.contains(y) <==> 0 <= y < chunks.len()
            &&& ranked_in_order(scores, ranked)
            &&& forall|i: int, j: int|
                0 <= i < j < ranked.len() ==> #[trigger] ranked[i] != #[trigger] ranked[j]
            &&& spec_cited(markdown, question).len() <= MAX_CHUNKS
            &&& quoted_chars(chunks, top, 0) <= MAX_CONTEXT_CHARS
        }),
{
    let chunks = spec_split_chunks(markdown);
    let scores = chunk_scores(chunks, question_terms(question));
    let ranked = ranking(scores, chunks.len());
    let top = if ranked.len() <= MAX_CHUNKS {
        ranked
    } else {
        ranked.take(MAX_CHUNKS as int)
    };
    lemma_ranking_in_order(scores, chunks.len());
    assert forall|i: int, j: int| 0 <= i < j < ranked.len() implies #[trigger] ranked[i]
        != #[trigger] ranked[j] by {
        assert(ranks_before(scores, ranked[i], ranked[j]));
    }
    lemma_quoted_within_budget(chunks, top, 0);
}

proof fn lemma_fixed_pieces_bounded(p: Seq<char>)
    ensures
        forall|k: int| 0 <= k < fixed_pieces(p).len() ==> (#[trigger] fixed_pieces(p)[k]).len()
            <= CHUNK_CHARS,
    decreases p.len(),
{
    if p.len() > CHUNK_CHARS {
        lemma_fixed_pieces_bounded(p.skip(CHUNK_CHARS as int));
        let rest = fixed_pieces(p.skip(CHUNK_CHARS as int));
        assert forall|k: int| 0 <= k < fixed_pieces(p).len() implies (#[trigger] fixed_pieces(
            p,
        )[k]).len() <= CHUNK_CHARS by {
            if k > 0 {
                assert(fixed_pieces(p)[k] == rest[k - 1]);
            }
        }
    }
}

proof fn lemma_trim_start_after_white(w: Seq<char>, t: Seq<char>)
    requires
        forall|i: int| 0 <= i < w.len() ==> is_unicode_whitespace(#[trigger] w[i]),
    ensures
        trim_start_ws(w + t) == trim_start_ws(t),
    decreases w.len(),
{
    if w.len() > 0 {
        assert((w + t)[0] == w[0]);
        assert((w + t).drop_first() =~= w.drop_first() + t);
        assert forall|i: int| 0 <= i < w.drop_first().len() implies is_unicode_whitespace(
            #[trigger] w.drop_first()[i],
        ) by {
            assert(w.drop_first()[i] == w[i + 1]);
        }
        lemma_trim_start_after_white(w.drop_first(), t);
    } else {
        assert(w + t =~= t);
    }
}

proof fn lemma_trim_start_empty_is_white(s: Seq<char>)
    requires
        trim_start_ws(s).len() == 0,
    ensures
        forall|i: int| 0 <= i < s.len() ==> is_unicode_whitespace(#[trigger] s[i]),
    decreases s.len(),
{
    if s.len() > 0 {
        assert(is_unicode_whitespace(s[0]));
        lemma_trim_start_empty_is_white(s.drop_first());
        assert forall|i: int| 0 <= i < s.len() implies is_unicode_whitespace(#[trigger] s[i]) by {
            if i > 0 {
                assert(s[i] == s.drop_first()[i - 1]);
            }
        }
    }
}

proof fn lemma_trim_end_keeps_nonwhite_start(u: Seq<char>)
    requires
        u.len() > 0,
        !is_unicode_whitespace(u[0]),
    ensures
        trim_end_ws(u).len() > 0,
    decreases u.len(),
{
    if u.len() > 1 && is_unicode_whitespace(u.last()) {
        assert(u.drop_last()[0] == u[0]);
        lemma_trim_end_keeps_nonwhite_start(u.drop_last());
    }
}

proof fn lemma_trim_len(s: Seq<char>)
    ensures
        trim_ws(s).len() <= s.len(),
        trim_ws(s).len() == 0 ==> forall|i: int| 0 <= i < s.len() ==> is_unicode_whitespace(
            #[trigger] s[i],
        ),
{
    lemma_trim_start_is_suffix(s);
    lemma_trim_end_is_prefix(trim_start_ws(s));
    if trim_ws(s).len() == 0 {
        if trim_start_ws(s).len() > 0 {
            lemma_trim_end_keeps_nonwhite_start(trim_start_ws(s));
        }
        lemma_trim_start_empty_is_white(s);
    }
}

/// What holds of every state of the chunking: closed chunks hold at most
/// `CHUNK_CHARS + 2` characters, and so does the gathered text once trimmed.
pub open spec fn chunks_bounded(st: ChunkState) -> bool {
    &&& forall|k: int| 0 <= k < st.chunks.len() ==> (#[trigger] st.chunks[k]).len() <= CHUNK_CHARS
        + 2
    &&& trim_ws(st.current).len() <= CHUNK_CHARS + 2
}

proof fn lemma_chunk_step_bounded(st: ChunkState, p: Seq<char>)
    requires
        chunks_bounded(st),
    ensures
        chunks_bounded(chunk_step(st, p)),
{
    let st1 = if st.current.len() + p.len() > CHUNK_CHARS && trim_ws(st.current).len() > 0 {
        ChunkState { chunks: st.chunks.push(trim_ws(st.current)), current: seq![] }
    } else {
        st
    };
    assert(chunks_bounded(st1)) by {
        assert(trim_ws(Seq::<char>::empty()) =~= Seq::<char>::empty());
    }
    let r = chunk_step(st, p);
    if p.len() > CHUNK_CHARS {
        let st2 = if trim_ws(st1.current).len() > 0 {
            ChunkState { chunks: st1.chunks.push(trim_ws(st1.current)), current: seq![] }
        } else {
            st1
        };
        assert(chunks_bounded(st2)) by {
            assert(trim_ws(Seq::<char>::empty()) =~= Seq::<char>::empty());
        }
        lemma_fixed_pieces_bounded(p);
        assert forall|k: int| 0 <= k < r.chunks.len() implies (#[trigger] r.chunks[k]).len()
            <= CHUNK_CHARS + 2 by {
            if k >= st2.chunks.len() {
                assert(r.chunks[k] == fixed_pieces(p)[k - st2.chunks.len()]);
            } else {
                assert(r.chunks[k] == st2.chunks[k]);
            }
        }
    } else {
        lemma_trim_len(p);
        if st1.current.len() > 0 {
            let joined = st1.current + seq!['\n', '\n'] + p;
            assert(r.current == joined);
            if trim_ws(st1.current).len() > 0 {
                assert(st1 == st);
                lemma_trim_len(joined);
            } else {
                lemma_trim_len(st1.current);
                let w = st1.current + seq!['\n', '\n'];
                assert forall|i: int| 0 <= i < w.len() implies is_unicode_whitespace(
                    #[trigger] w[i],
                ) by {
                    if i < st1.current.len() {
                        assert(w[i] == st1.current[i]);
                    } else {
                        assert(w[i] == '\n');
                    }
                }
                assert(joined =~= w + p);
                lemma_trim_start_after_white(w, p);
                lemma_trim_len(p);
            }
        } else {
            assert(r.current =~= p);
        }
    }
}

proof fn lemma_chunk_fold_bounded(paras: Seq<Seq<char>>, st: ChunkState)
    requires
        chunks_bounded(st),
    ensures
        chunks_bounded(chunk_fold(paras, st)),
    decreases paras.len(),
{
    if paras.len() > 0 {
        lemma_chunk_step_bounded(st, paras[0]);
        lemma_chunk_fold_bounded(paras.drop_first(), chunk_step(st, paras[0]));
    }
}

/// No chunk is longer than `CHUNK_CHARS` characters and one blank-line
/// separator: a chunk gathers paragraphs only while they fit, and a longer
/// paragraph is cut into pieces of `CHUNK_CHARS`.
pub proof fn law_chunks_stay_within_size(markdown: Seq<char>)
    ensures
        forall|k: int|
            0 <= k < spec_split_chunks(markdown).len() ==> (#[trigger] spec_split_chunks(
                markdown,
            )[k]).len() <= CHUNK_CHARS + 2,
{
    let start = ChunkState { chunks: seq![], current: seq![] };
    assert(chunks_bounded(start)) by {
        assert(trim_ws(Seq::<char>::empty()) =~= Seq::<char>::empty());
    }
    lemma_chunk_fold_bounded(paragraphs(markdown), start);
    let end = chunk_fold(paragraphs(markdown), start);
    let r = spec_split_chunks(markdown);
    assert forall|k: int| 0 <= k < r.len() implies (#[trigger] r[k]).len() <= CHUNK_CHARS + 2 by {
        if k < end.chunks.len() {
            assert(r[k] == end.chunks[k]);
        }
    }
}

/// The characters that are not white space, in order.
pub open spec fn visible(s: Seq<char>) -> Seq<char>
    decreases s.len(),
{
    if s.len() == 0 {
        seq![]
    } else if is_unicode_whitespace(s.last()) {
        visible(s.drop_last())
    } else {
        visible(s.drop_last()).push(s.last())
    }
}

/// The pieces one after another.
pub open spec fn flat(pieces: Seq<Seq<char>>) -> Seq<char>
    decreases pieces.len(),
{
    if pieces.len() == 0 {
        seq![]
    } else {
        pieces[0] + flat(pieces.drop_first())
    }
}

proof fn lemma_visible_add(a: Seq<char>, b: Seq<char>)
    ensures
        visible(a + b) == visible(a) + visible(b),
    decreases b.len(),
{
    if b.len() == 0 {
        assert(a + b =~= a);
        assert(visible(a) + visible(b) =~= visible(a));
    } else {
        lemma_visible_add(a, b.drop_last());
        assert((a + b).drop_last() =~= a + b.drop_last());
        assert((a + b).last() == b.last());
        if !is_unicode_whitespace(b.last()) {
            assert(visible(a) + visible(b.drop_last()).push(b.last()) =~= (visible(a) + visible(
                b.drop_last(),
            )).push(b.last()));
        }
    }
}

proof fn lemma_visible_white(s: Seq<char>)
    requires
        forall|i: int| 0 <= i < s.len() ==> is_unicode_whitespace(#[trigger] s[i]),
    ensures
        visible(s) == Seq::<char>::empty(),
    decreases s.len(),
{
    if s.len() > 0 {
        assert(is_unicode_whitespace(s[s.len() - 1]));
        assert forall|i: int| 0 <= i < s.drop_last().len() implies is_unicode_whitespace(
            #[trigger] s.drop_last()[i],
        ) by {
            assert(s.drop_last()[i] == s[i]);
        }
        lemma_visible_white(s.drop_last());
    }
}

proof fn lemma_visible_trim_start(s: Seq<char>)
    ensures
        visible(trim_start_ws(s)) == visible(s),
    decreases s.len(),
{
    if s.len() > 0 && is_unicode_whitespace(s[0]) {
        lemma_visible_trim_start(s.drop_first());
        assert(s =~= seq![s[0]] + s.drop_first());
        lemma_visible_add(seq![s[0]], s.drop_first());
        let one = seq![s[0]];
        assert(one.last() == s[0]);
        assert(one.drop_last() =~= Seq::<char>::empty());
        assert(visible(one.drop_last()) == Seq::<char>::empty());
        assert(visible(one) == Seq::<char>::empty());
        assert(Seq::<char>::empty() + visible(s.drop_first()) =~= visible(s.drop_first()));
    }
}

proof fn lemma_visible_trim_end(s: Seq<char>)
    ensures
        visible(trim_end_ws(s)) == visible(s),
    decreases s.len(),
{
    if s.len() > 0 && is_unicode_whitespace(s.last()) {
        lemma_visible_trim_end(s.drop_last());
    }
}

proof fn lemma_visible_trim(s: Seq<char>)
    ensures
        visible(trim_ws(s)) == visible(s),
{
    lemma_visible_trim_start(s);
    lemma_visible_trim_end(trim_start_ws(s));
}

proof fn lemma_flat_push(pieces: Seq<Seq<char>>, x: Seq<char>)
    ensures
        flat(pieces.push(x)) == flat(pieces) + x,
    decreases pieces.len(),
{
    if pieces.len() == 0 {
        assert(pieces.push(x).drop_first() =~= Seq::<Seq<char>>::empty());
        assert(pieces.push(x)[0] == x);
        assert(flat(Seq::<Seq<char>>::empty()) == Seq::<char>::empty());
        assert(flat(pieces) == Seq::<char>::empty());
        assert(x + Seq::<char>::empty() =~= x);
        assert(Seq::<char>::empty() + x =~= x);
    } else {
        assert(pieces.push(x).drop_first() =~= pieces.drop_first().push(x));
        assert(pieces.push(x)[0] == pieces[0]);
        lemma_flat_push(pieces.drop_first(), x);
        assert(pieces[0] + (flat(pieces.drop_first()) + x) =~= (pieces[0] + flat(
            pieces.drop_first(),
        )) + x);
    }
}

proof fn lemma_flat_add(a: Seq<Seq<char>>, b: Seq<Seq<char>>)
    ensures
        flat(a + b) == flat(a) + flat(b),
    decreases a.len(),
{
    if a.len() == 0 {
        assert(a + b =~= b);
        assert(Seq::<char>::empty() + flat(b) =~= flat(b));
    } else {
        assert((a + b).drop_first() =~= a.drop_first() + b);
        assert((a + b)[0] == a[0]);
        lemma_flat_add(a.drop_first(), b);
        assert(a[0] + (flat(a.drop_first()) + flat(b)) =~= (a[0] + flat(a.drop_first())) + flat(b));
    }
}

proof fn lemma_flat_fixed_pieces(p: Seq<char>)
    ensures
        flat(fixed_pieces(p)) == p,
    decreases p.len(),
{
    if p.len() <= CHUNK_CHARS {
        assert(seq![p].drop_first() =~= Seq::<Seq<char>>::empty());
        assert(seq![p][0] == p);
        assert(flat(Seq::<Seq<char>>::empty()) == Seq::<char>::empty());
        assert(p + Seq::<char>::empty() =~= p);
    } else {
        lemma_flat_fixed_pieces(p.skip(CHUNK_CHARS as int));
        let rest = fixed_pieces(p.skip(CHUNK_CHARS as int));
        let all = seq![p.take(CHUNK_CHARS as int)] + rest;
        assert(all.drop_first() =~= rest);
        assert(all[0] == p.take(CHUNK_CHARS as int));
        assert(fixed_pieces(p) == all);
        assert(flat(all) == all[0] + flat(all.drop_first()));
        assert(p.take(CHUNK_CHARS as int) + p.skip(CHUNK_CHARS as int) =~= p);
    }
}

proof fn lemma_visible_paragraphs_from(s: Seq<char>, i: int, pieces: Seq<Seq<char>>, cur: Seq<char>)
    requires
        0 <= i <= s.len(),
    ensures
        visible(flat(split_paragraphs_from(s, i, pieces, cur))) == visible(flat(pieces)) + visible(cur)
            + visible(s.skip(i)),
    decreases s.len() - i,
{
    if i >= s.len() {
        lemma_flat_push(pieces, cur);
        lemma_visible_add(flat(pieces), cur);
        assert(s.skip(i) =~= Seq::<char>::empty());
        assert(visible(flat(pieces)) + visible(cur) + Seq::<char>::empty() =~= visible(flat(pieces))
            + visible(cur));
    } else if i + 1 < s.len() && s[i] == '\n' && s[i + 1] == '\n' {
        lemma_visible_paragraphs_from(s, i + 2, pieces.push(cur), seq![]);
        lemma_flat_push(pieces, cur);
        lemma_visible_add(flat(pieces), cur);
        assert(s.skip(i) =~= seq!['\n', '\n'] + s.skip(i + 2));
        lemma_visible_add(seq!['\n', '\n'], s.skip(i + 2));
        assert(visible(seq!['\n', '\n']) == Seq::<char>::empty()) by {
            lemma_visible_white(seq!['\n', '\n']);
        }
        assert(visible(Seq::<char>::empty()) == Seq::<char>::empty());
        assert(visible(flat(pieces)) + visible(cur) + Seq::<char>::empty() + visible(s.skip(i + 2))
            =~= visible(flat(pieces)) + visible(cur) + (Seq::<char>::empty() + visible(
            s.skip(i + 2),
        )));
    } else {
        lemma_visible_paragraphs_from(s, i + 1, pieces, cur.push(s[i]));
        assert(s.skip(i) =~= seq![s[i]] + s.skip(i + 1));
        lemma_visible_add(seq![s[i]], s.skip(i + 1));
        assert(cur.push(s[i]) =~= cur + seq![s[i]]);
        lemma_visible_add(cur, seq![s[i]]);
        assert(visible(flat(pieces)) + (visible(cur) + visible(seq![s[i]])) + visible(s.skip(i + 1))
            =~= visible(flat(pieces)) + visible(cur) + (visible(seq![s[i]]) + visible(
            s.skip(i + 1),
        )));
    }
}

/// The visible text of a chunking state: its chunks, then the gathered text.
pub open spec fn state_visible(st: ChunkState) -> Seq<char> {
    visible(flat(st.chunks)) + visible(st.current)
}

proof fn lemma_close_visible(st: ChunkState)
    ensures
        state_visible(ChunkState { chunks: st.chunks.push(trim_ws(st.current)), current: seq![] })
            == state_visible(st),
{
    lemma_flat_push(st.chunks, trim_ws(st.current));
    lemma_visible_add(flat(st.chunks), trim_ws(st.current));
    lemma_visible_trim(st.current);
    assert(visible(Seq::<char>::empty()) == Seq::<char>::empty());
    assert(visible(flat(st.chunks)) + visible(st.current) + Seq::<char>::empty() =~= visible(
        flat(st.chunks),
    ) + visible(st.current));
}

proof fn lemma_chunk_step_visible(st: ChunkState, p: Seq<char>)
    ensures
        state_visible(chunk_step(st, p)) == state_visible(st) + visible(p),
{
    let st1 = if st.current.len() + p.len() > CHUNK_CHARS && trim_ws(st.current).len() > 0 {
        ChunkState { chunks: st.chunks.push(trim_ws(st.current)), current: seq![] }
    } else {
        st
    };
    lemma_close_visible(st);
    assert(state_visible(st1) == state_visible(st));
    let r = chunk_step(st, p);
    if p.len() > CHUNK_CHARS {
        let st2 = if trim_ws(st1.current).len() > 0 {
            ChunkState { chunks: st1.chunks.push(trim_ws(st1.current)), current: seq![] }
        } else {
            st1
        };
        lemma_close_visible(st1);
        assert(state_visible(st2) == state_visible(st1));
        lemma_flat_add(st2.chunks, fixed_pieces(p));
        lemma_flat_fixed_pieces(p);
        lemma_visible_add(flat(st2.chunks), p);
        assert(r.chunks == st2.chunks + fixed_pieces(p));
        assert(r.current == st2.current);
        if trim_ws(st2.current).len() == 0 {
            lemma_trim_len(st2.current);
            lemma_visible_white(st2.current);
        } else {
            assert(false) by {
                if trim_ws(st1.current).len() > 0 {
                    assert(trim_ws(Seq::<char>::empty()) =~= Seq::<char>::empty());
                }
            }
        }
        assert(visible(flat(st2.chunks)) + visible(p) + Seq::<char>::empty() =~= visible(
            flat(st2.chunks),
        ) + Seq::<char>::empty() + visible(p));
    } else {
        if st1.current.len() > 0 {
            let joined = st1.current + seq!['\n', '\n'] + p;
            assert(r.current == joined);
            lemma_visible_add(st1.current + seq!['\n', '\n'], p);
            lemma_visible_add(st1.current, seq!['\n', '\n']);
            lemma_visible_white(seq!['\n', '\n']);
            assert(visible(st1.current) + Seq::<char>::empty() =~= visible(st1.current));
        } else {
            assert(r.current =~= st1.current + p);
            lemma_visible_add(st1.current, p);
        }
        assert(r.chunks == st1.chunks);
        assert(visible(flat(st1.chunks)) + (visible(st1.current) + visible(p)) =~= visible(
            flat(st1.chunks),
        ) + visible(st1.current) + visible(p));
    }
}

proof fn lemma_chunk_fold_visible(paras: Seq<Seq<char>>, st: ChunkState)
    ensures
        state_visible(chunk_fold(paras, st)) == state_visible(st) + visible(flat(paras)),
    decreases paras.len(),
{
    if paras.len() == 0 {
        assert(visible(Seq::<char>::empty()) == Seq::<char>::empty());
        assert(state_visible(st) + Seq::<char>::empty() =~= state_visible(st));
    } else {
        lemma_chunk_step_visible(st, paras[0]);
        lemma_chunk_fold_visible(paras.drop_first(), chunk_step(st, paras[0]));
        lemma_visible_add(paras[0], flat(paras.drop_first()));
        assert(state_visible(st) + visible(paras[0]) + visible(flat(paras.drop_first())) =~= state_visible(
            st,
        ) + (visible(paras[0]) + visible(flat(paras.drop_first()))));
    }
}

/// Chunking loses, duplicates and reorders no visible character: the chunks
/// one after another hold the document's characters other than white
/// space, in order.
pub proof fn law_chunks_keep_the_visible_text(markdown: Seq<char>)
    ensures
        visible(flat(spec_split_chunks(markdown))) == visible(markdown),
{
    let start = ChunkState { chunks: seq![], current: seq![] };
    lemma_visible_paragraphs_from(markdown, 0, seq![], seq![]);
    assert(markdown.skip(0) =~= markdown);
    assert(visible(Seq::<char>::empty()) == Seq::<char>::empty());
    assert(flat(Seq::<Seq<char>>::empty()) == Seq::<char>::empty());
    assert(Seq::<char>::empty() + Seq::<char>::empty() + visible(markdown) =~= visible(markdown));
    lemma_chunk_fold_visible(paragraphs(markdown), start);
    assert(state_visible(start) =~= Seq::<char>::empty());
    assert(Seq::<char>::empty() + visible(flat(paragraphs(markdown))) =~= visible(markdown));
    let end = chunk_fold(paragraphs(markdown), start);
    if trim_ws(end.current).len() > 0 {
        lemma_close_visible(end);
        assert(visible(flat(end.chunks.push(trim_ws(end.current)))) + Seq::<char>::empty() =~= visible(
            flat(end.chunks.push(trim_ws(end.current))),
        ));
    } else {
        lemma_trim_len(end.current);
        lemma_visible_white(end.current);
        assert(visible(flat(end.chunks)) + Seq::<char>::empty() =~= visible(flat(end.chunks)));
    }
}

/// The chunk indices the citations quote, in the order they are cited.
pub open spec fn cited_indices(chunks: Seq<Seq<char>>, ranked: Seq<int>, used: nat) -> Seq<int>
    decreases ranked.len(),
{
    if ranked.len() == 0 {
        seq![]
    } else {
        let remaining: nat = if used >= MAX_CONTEXT_CHARS {
            0
        } else {
            (MAX_CONTEXT_CHARS - used) as nat
        };
        if remaining == 0 {
            cited_indices(chunks, ranked.drop_first(), used)
        } else {
            let text = chunks[ranked[0]];
            let bounded = if text.len() <= remaining {
                text
            } else {
                text.take(remaining as int)
            };
            seq![ranked[0]] + cited_indices(chunks, ranked.drop_first(), used + bounded.len())
        }
    }
}

proof fn lemma_cited_blocks(chunks: Seq<Seq<char>>, ranked: Seq<int>, used: nat)
    ensures
        cited_chunks(chunks, ranked, used).len() == cited_indices(chunks, ranked, used).len(),
        forall|i: int|
            0 <= i < cited_indices(chunks, ranked, used).len() ==> ranked.contains(
                #[trigger] cited_indices(chunks, ranked, used)[i],
            ),
        forall|i: int|
            0 <= i < cited_chunks(chunks, ranked, used).len() ==> {
                let k = cited_indices(chunks, ranked, used)[i];
                let block = #[trigger] cited_chunks(chunks, ranked, used)[i];
                &&& citation_label(k).is_prefix_of(block)
                &&& block.skip(citation_label(k).len() as int).is_prefix_of(chunks[k])
            },
        (forall|i: int, j: int| 0 <= i < j < ranked.len() ==> ranked[i] != ranked[j]) ==> forall|
            i: int,
            j: int,
        |
            0 <= i < j < cited_indices(chunks, ranked, used).len() ==> #[trigger] cited_indices(
                chunks,
                ranked,
                used,
            )[i] != #[trigger] cited_indices(chunks, ranked, used)[j],
    decreases ranked.len(),
{
    if ranked.len() > 0 {
        let rest = ranked.drop_first();
        let remaining: nat = if used >= MAX_CONTEXT_CHARS {
            0
        } else {
            (MAX_CONTEXT_CHARS - used) as nat
        };
        let text = chunks[ranked[0]];
        let bounded = if text.len() <= remaining {
            text
        } else {
            text.take(remaining as int)
        };
        let next_used: nat = if remaining == 0 {
            used
        } else {
            used + bounded.len()
        };
        lemma_cited_blocks(chunks, rest, next_used);
        let ti = cited_indices(chunks, rest, next_used);
        let tc = cited_chunks(chunks, rest, next_used);
        let ci = cited_indices(chunks, ranked, used);
        let cc = cited_chunks(chunks, ranked, used);
        assert forall|x: int| rest.contains(x) implies ranked.contains(x) by {
            let k = choose|k: int| 0 <= k < rest.len() && rest[k] == x;
            assert(ranked[k + 1] == x);
        }
        if remaining == 0 {
            assert(ci == ti && cc == tc);
            if forall|i: int, j: int| 0 <= i < j < ranked.len() ==> ranked[i] != ranked[j] {
                assert forall|i: int, j: int| 0 <= i < j < rest.len() implies rest[i] != rest[j] by {
                    assert(rest[i] == ranked[i + 1] && rest[j] == ranked[j + 1]);
                }
            }
        } else {
            assert(ci == seq![ranked[0]] + ti);
            assert(cc == seq![citation_label(ranked[0]) + bounded] + tc);
            assert forall|i: int| 0 <= i < ci.len() implies ranked.contains(#[trigger] ci[i]) by {
                if i == 0 {
                    assert(ranked[0] == ci[0]);
                } else {
                    assert(ci[i] == ti[i - 1]);
                    assert(rest.contains(ti[i - 1]));
                }
            }
            assert forall|i: int| 0 <= i < cc.len() implies {
                let k = ci[i];
                let block = #[trigger] cc[i];
                &&& citation_label(k).is_prefix_of(block)
                &&& block.skip(citation_label(k).len() as int).is_prefix_of(chunks[k])
            } by {
                if i == 0 {
                    let label = citation_label(ranked[0]);
                    assert(cc[0] == label + bounded);
                    assert((label + bounded).subrange(0, label.len() as int) =~= label);
                    assert((label + bounded).skip(label.len() as int) =~= bounded);
                    assert(bounded.is_prefix_of(text)) by {
                        assert(bounded =~= text.subrange(0, bounded.len() as int));
                    }
                } else {
                    assert(cc[i] == tc[i - 1]);
                    assert(ci[i] == ti[i - 1]);
                }
            }
            if forall|i: int, j: int| 0 <= i < j < ranked.len() ==> ranked[i] != ranked[j] {
                assert forall|i: int, j: int| 0 <= i < j < rest.len() implies rest[i] != rest[j] by {
                    assert(rest[i] == ranked[i + 1] && rest[j] == ranked[j + 1]);
                }
                assert forall|i: int, j: int| 0 <= i < j < ci.len() implies #[trigger] ci[i] != #[trigger] ci[j] by {
                    if i == 0 {
                        assert(ci[j] == ti[j - 1]);
                        assert(rest.contains(ti[j - 1]));
                        let k = choose|k: int| 0 <= k < rest.len() && rest[k] == ti[j - 1];
                        assert(ranked[k + 1] == ti[j - 1]);
                    } else {
                        assert(ci[i] == ti[i - 1] && ci[j] == ti[j - 1]);
                    }
                }
            }
        }
    }
}

/// The prompt holds one citation block per cited chunk, and there are
/// `chunk_count` of them: block `i` opens with the label of a chunk
/// (`[문서 근거 k]` for chunk `k - 1`) and goes on with the start of that
/// chunk's text; the labelled chunks are distinct chunks of the document.
pub proof fn law_citation_blocks_match_the_count(markdown: Seq<char>, question: Option<Seq<char>>)
    ensures
        ({
            let chunks = spec_split_chunks(markdown);
            let scores = chunk_scores(chunks, question_terms(question));
            let ranked = ranking(scores, chunks.len());
            let top = if ranked.len() <= MAX_CHUNKS {
                ranked
            } else {
                ranked.take(MAX_CHUNKS as int)
            };
            let cited = spec_cited(markdown, question);
            let labels = cited_indices(chunks, top, 0);
            &&& cited.len() == labels.len()
            &&& forall|i: int| 0 <= i < labels.len() ==> 0 <= #[trigger] labels[i] < chunks.len()
            &&& forall|i: int, j: int|
                0 <= i < j < labels.len() ==> #[trigger] labels[i] != #[trigger] labels[j]
            &&& forall|i: int|
                0 <= i < cited.len() ==> citation_label(labels[i]).is_prefix_of(#[trigger] cited[i])
                    && cited[i].skip(citation_label(labels[i]).len() as int).is_prefix_of(
                    chunks[labels[i]],
                )
        }),
{
    let chunks = spec_split_chunks(markdown);
    let scores = chunk_scores(chunks, question_terms(question));
    let ranked = ranking(scores, chunks.len());
    let top = if ranked.len() <= MAX_CHUNKS {
        ranked
    } else {
        ranked.take(MAX_CHUNKS as int)
    };
    lemma_ranking_in_order(scores, chunks.len());
    assert forall|i: int, j: int| 0 <= i < j < top.len() implies top[i] != top[j] by {
        assert(top[i] == ranked[i] && top[j] == ranked[j]);
        assert(ranks_before(scores, ranked[i], ranked[j]));
    }
    lemma_cited_blocks(chunks, top, 0);
    let labels = cited_indices(chunks, top, 0);
    assert forall|i: int| 0 <= i < labels.len() implies 0 <= #[trigger] labels[i] < chunks.len() by {
        assert(top.contains(labels[i]));
        let k = choose|k: int| 0 <= k < top.len() && top[k] == labels[i];
        assert(ranked[k] == labels[i]);
        assert(ranked.contains(labels[i]));
    }
}

proof fn lemma_mentioned_term_scores(terms: Seq<Seq<char>>, folded: Seq<char>, t: Seq<char>)
    requires
        terms.contains(t),
        contains_seq(folded, t),
    ensures
        term_score(terms, folded) >= 1,
    decreases terms.len(),
{
    let k = choose|k: int| 0 <= k < terms.len() && terms[k] == t;
    if k < terms.len() - 1 {
        assert(terms.drop_last()[k] == t);
        lemma_mentioned_term_scores(terms.drop_last(), folded, t);
    }
}

/// A chunk's score does not depend on letter case: chunks whose lower-cased
/// texts agree get the same scores for any question terms.
pub proof fn law_scores_ignore_case(a: Seq<Seq<char>>, b: Seq<Seq<char>>, terms: Seq<Seq<char>>)
    requires
        a.len() == b.len(),
        forall|i: int| 0 <= i < a.len() ==> unicode_lowercase(#[trigger] a[i]) == unicode_lowercase(b[i]),
    ensures
        chunk_scores(a, terms) == chunk_scores(b, terms),
{
    assert(chunk_scores(a, terms) =~= chunk_scores(b, terms));
}

/// A chunk scores for every question term that occurs in it in any letter
/// case: a term found in the lower-cased chunk gives it a positive score.
pub proof fn law_chunks_score_for_the_terms_they_mention(
    chunks: Seq<Seq<char>>,
    terms: Seq<Seq<char>>,
    i: int,
    t: Seq<char>,
)
    requires
        0 <= i < chunks.len(),
        terms.contains(t),
        contains_seq(unicode_lowercase(chunks[i]), t),
    ensures
        chunk_scores(chunks, terms)[i] >= 1,
{
    lemma_mentioned_term_scores(terms, unicode_lowercase(chunks[i]), t);
}
} // verus!
