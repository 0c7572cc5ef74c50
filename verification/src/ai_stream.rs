//! The streamed answers of the AI providers. A body is split into lines;
//! OpenAI and Gemini send server-sent events whose `data:` lines each hold
//! one JSON event, Ollama sends one JSON object per line. Each line is read
//! as JSON where the body arrives; here the events become the answer text.
use vstd::prelude::*;

use crate::ai::{nonempty, AiError};
use crate::preview::{as_array, as_str, json_of, member, member_exec, parse_json_line, str_of, JsonValue};
use crate::query::{split_char, split_on};
use crate::text::{chars_of, extend_chars, join, string_from_chars, trim_chars, trim_ws};

verus! {

broadcast use vstd::string::group_string_axioms;

/// A line without the `\r` of a `\r\n` ending.
pub open spec fn strip_cr(line: Seq<char>) -> Seq<char> {
    if line.len() > 0 && line.last() == '\r' {
        line.drop_last()
    } else {
        line
    }
}

/// `str::lines`: the text split at `\n` or `\r\n`; a final line ending
/// adds no empty line.
pub open spec fn spec_lines(s: Seq<char>) -> Seq<Seq<char>> {
    let pieces = split_char(s, '\n');
    let ended = pieces.drop_last().map_values(|l: Seq<char>| strip_cr(l));
    if pieces.last().len() == 0 {
        ended
    } else {
        ended.push(pieces.last())
    }
}

pub open spec fn strings_view(v: Seq<String>) -> Seq<Seq<char>> {
    v.map_values(|s: String| s@)
}

/// Splits a body into its lines.
pub fn body_lines(body: &str) -> (r: Vec<String>)
    ensures
        strings_view(r@) == spec_lines(body@),
{
    let pieces = split_on(chars_of(body).as_slice(), '\n');
    let ghost pv = pieces@.map_values(|p: Vec<char>| p@);
    proof {
        crate::query::lemma_split_char_nonempty(body@, '\n');
    }
    let n = pieces.len();
    let mut out: Vec<String> = Vec::new();
    let mut i: usize = 0;
    while i + 1 < n
        invariant
            n == pieces@.len(),
            n >= 1,
            i < n,
            pv == pieces@.map_values(|p: Vec<char>| p@),
            strings_view(out@) == pv.take(i as int).map_values(|l: Seq<char>| strip_cr(l)),
        decreases n - i,
    {
        let piece = &pieces[i];
        let line = if piece.len() > 0 && piece[piece.len() - 1] == '\r' {
            crate::text::sub_chars(piece.as_slice(), 0, piece.len() - 1)
        } else {
            crate::text::sub_chars(piece.as_slice(), 0, piece.len())
        };
        proof {
            assert(piece@.subrange(0, piece@.len() as int) =~= piece@);
            assert(piece@.subrange(0, piece@.len() - 1) =~= piece@.drop_last());
            assert(line@ == strip_cr(pv[i as int]));
        }
        let s = string_from_chars(line.as_slice());
        let ghost before = out@;
        out.push(s);
        i += 1;
        proof {
            assert(strings_view(out@) =~= strings_view(before).push(s@));
            assert(pv.take(i as int) =~= pv.take(i - 1).push(pv[i - 1]));
            assert(pv.take(i as int).map_values(|l: Seq<char>| strip_cr(l)) =~= pv.take(
                i - 1,
            ).map_values(|l: Seq<char>| strip_cr(l)).push(strip_cr(pv[i - 1])));
        }
    }
    assert(pv.take(n - 1) =~= pv.drop_last());
    let last = &pieces[n - 1];
    if last.len() > 0 {
        let s = string_from_chars(last.as_slice());
        let ghost before = out@;
        out.push(s);
        assert(strings_view(out@) =~= strings_view(before).push(s@));
    }
    out
}

/// The payload of a server-sent `data:` line, trimmed; none for other
/// lines, empty payloads and the closing `[DONE]`.
pub open spec fn sse_payload(line: Seq<char>) -> Option<Seq<char>> {
    if "data:"@.is_prefix_of(line) {
        let payload = trim_ws(line.skip(5));
        if payload.len() > 0 && payload != "[DONE]"@ {
            Some(payload)
        } else {
            None
        }
    } else {
        None
    }
}

pub open spec fn payloads(lines: Seq<Seq<char>>) -> Seq<Seq<char>>
    decreases lines.len(),
{
    if lines.len() == 0 {
        seq![]
    } else {
        match sse_payload(lines.last()) {
            Some(p) => payloads(lines.drop_last()).push(p),
            None => payloads(lines.drop_last()),
        }
    }
}

/// The payloads of a body of server-sent events, in order.
pub fn sse_data_lines(body: &str) -> (r: Vec<String>)
    ensures
        strings_view(r@) == payloads(spec_lines(body@)),
{
    let lines = body_lines(body);
    let ghost lv = strings_view(lines@);
    let mut out: Vec<String> = Vec::new();
    let mut i: usize = 0;
    proof {
        reveal_strlit("data:");
        assert(lv.take(0) =~= seq![]);
    }
    while i < lines.len()
        invariant
            i <= lines@.len(),
            lv == strings_view(lines@),
            strings_view(out@) == payloads(lv.take(i as int)),
        decreases lines@.len() - i,
    {
        let line = chars_of(lines[i].as_str());
        proof {
            assert(lv.take(i + 1).drop_last() =~= lv.take(i as int));
            assert(lv.take(i + 1).last() == line@);
        }
        let prefix = chars_of("data:");
        proof {
            reveal_strlit("data:");
            assert(prefix@.len() == 5);
        }
        if crate::text::starts_with_chars(line.as_slice(), prefix.as_slice()) {
            let rest = crate::text::sub_chars(line.as_slice(), 5, line.len());
            assert(rest@ =~= line@.skip(5));
            let payload = trim_chars(rest.as_slice());
            if payload.len() > 0 && !crate::ocr::eq_literal(payload.as_slice(), "[DONE]") {
                let s = string_from_chars(payload.as_slice());
                let ghost before = out@;
                out.push(s);
                assert(strings_view(out@) =~= strings_view(before).push(s@));
            }
        }
        i += 1;
    }
    assert(lv.take(lines@.len() as int) =~= lv);
    out
}

// ---------------------------------------------------------------------------
// The text of the events
// ---------------------------------------------------------------------------

pub open spec fn text_or_empty(t: Option<Seq<char>>) -> Seq<char> {
    match t {
        Some(s) => s,
        None => seq![],
    }
}

/// The text an OpenAI event adds: the `delta` of an output-text delta.
pub open spec fn openai_delta(event: Option<JsonValue>) -> Seq<char> {
    match event {
        Some(JsonValue::Object(fields)) => if as_str(member(fields@, "type"@)) == Some(
            "response.output_text.delta"@,
        ) {
            text_or_empty(as_str(member(fields@, "delta"@)))
        } else {
            seq![]
        },
        _ => seq![],
    }
}

/// The text of one part of a Gemini candidate.
pub open spec fn gemini_part_text(part: JsonValue) -> Seq<char> {
    match part {
        JsonValue::Object(fields) => text_or_empty(as_str(member(fields@, "text"@))),
        _ => seq![],
    }
}

/// The text of a Gemini candidate: its content's parts, in order.
pub open spec fn gemini_candidate_text(candidate: JsonValue) -> Seq<char> {
    match candidate {
        JsonValue::Object(fields) => match member(fields@, "content"@) {
            Some(JsonValue::Object(content)) => match as_array(member(content@, "parts"@)) {
                Some(parts) => join(parts.map_values(|p: JsonValue| gemini_part_text(p)), seq![]),
                None => seq![],
            },
            _ => seq![],
        },
        _ => seq![],
    }
}

/// The text a Gemini event adds: that of its candidates, in order.
pub open spec fn gemini_event_text(event: Option<JsonValue>) -> Seq<char> {
    match event {
        Some(JsonValue::Object(fields)) => match as_array(member(fields@, "candidates"@)) {
            Some(candidates) => join(
                candidates.map_values(|c: JsonValue| gemini_candidate_text(c)),
                seq![],
            ),
            None => seq![],
        },
        _ => seq![],
    }
}

/// The text an Ollama line adds: its message's content.
pub open spec fn ollama_line_text(line: Option<JsonValue>) -> Seq<char> {
    match line {
        Some(JsonValue::Object(fields)) => match member(fields@, "message"@) {
            Some(JsonValue::Object(message)) => text_or_empty(as_str(member(message@, "content"@))),
            _ => seq![],
        },
        _ => seq![],
    }
}

proof fn lemma_join_empty_push(parts: Seq<Seq<char>>, p: Seq<char>)
    ensures
        join(parts.push(p), seq![]) == join(parts, seq![]) + p,
{
    if parts.len() == 0 {
        assert(parts.push(p) =~= seq![p]);
        assert(join(parts, seq![]) =~= seq![]);
        assert(seq![] + p =~= p);
    } else {
        assert(parts.push(p).drop_last() =~= parts);
        assert(join(parts, seq![]) + seq![] =~= join(parts, seq![]));
    }
}

fn text_of(t: Option<&str>) -> (r: Vec<char>)
    ensures
        r@ == text_or_empty(
            match t {
                Some(s) => Some(s@),
                None => None,
            },
        ),
{
    match t {
        Some(s) => chars_of(s),
        None => Vec::new(),
    }
}

fn openai_delta_exec(event: &Option<JsonValue>) -> (r: Vec<char>)
    ensures
        r@ == openai_delta(*event),
{
    match event {
        Some(JsonValue::Object(fields)) => {
            let kind = str_of(member_exec(fields, "type"));
            let is_delta = match kind {
                Some(k) => crate::ocr::eq_literal(chars_of(k).as_slice(), "response.output_text.delta"),
                None => false,
            };
            if is_delta {
                text_of(str_of(member_exec(fields, "delta")))
            } else {
                Vec::new()
            }
        },
        _ => Vec::new(),
    }
}

fn gemini_parts_exec(parts: &Vec<JsonValue>) -> (r: Vec<char>)
    ensures
        r@ == join(parts@.map_values(|p: JsonValue| gemini_part_text(p)), seq![]),
{
    let ghost texts = parts@.map_values(|p: JsonValue| gemini_part_text(p));
    let mut out: Vec<char> = Vec::new();
    let mut i: usize = 0;
    assert(texts.take(0) =~= seq![]);
    while i < parts.len()
        invariant
            i <= parts@.len(),
            texts == parts@.map_values(|p: JsonValue| gemini_part_text(p)),
            out@ == join(texts.take(i as int), seq![]),
        decreases parts@.len() - i,
    {
        let t: Vec<char> = match &parts[i] {
            JsonValue::Object(fields) => text_of(str_of(member_exec(fields, "text"))),
            _ => Vec::new(),
        };
        proof {
            lemma_join_empty_push(texts.take(i as int), t@);
            assert(texts.take(i + 1) =~= texts.take(i as int).push(t@));
        }
        extend_chars(&mut out, t.as_slice());
        i += 1;
    }
    assert(texts.take(parts@.len() as int) =~= texts);
    out
}

fn gemini_candidate_exec(candidate: &JsonValue) -> (r: Vec<char>)
    ensures
        r@ == gemini_candidate_text(*candidate),
{
    match candidate {
        JsonValue::Object(fields) => match member_exec(fields, "content") {
            Some(JsonValue::Object(content)) => match member_exec(content, "parts") {
                Some(JsonValue::Array(parts)) => gemini_parts_exec(parts),
                _ => Vec::new(),
            },
            _ => Vec::new(),
        },
        _ => Vec::new(),
    }
}

fn gemini_event_exec(event: &Option<JsonValue>) -> (r: Vec<char>)
    ensures
        r@ == gemini_event_text(*event),
{
    match event {
        Some(JsonValue::Object(fields)) => match member_exec(fields, "candidates") {
            Some(JsonValue::Array(candidates)) => {
                let ghost texts = candidates@.map_values(|c: JsonValue| gemini_candidate_text(c));
                let mut out: Vec<char> = Vec::new();
                let mut i: usize = 0;
                assert(texts.take(0) =~= seq![]);
                while i < candidates.len()
                    invariant
                        i <= candidates@.len(),
                        texts == candidates@.map_values(|c: JsonValue| gemini_candidate_text(c)),
                        out@ == join(texts.take(i as int), seq![]),
                    decreases candidates@.len() - i,
                {
                    let t = gemini_candidate_exec(&candidates[i]);
                    proof {
                        lemma_join_empty_push(texts.take(i as int), t@);
                        assert(texts.take(i + 1) =~= texts.take(i as int).push(t@));
                    }
                    extend_chars(&mut out, t.as_slice());
                    i += 1;
                }
                assert(texts.take(candidates@.len() as int) =~= texts);
                out
            },
            _ => Vec::new(),
        },
        _ => Vec::new(),
    }
}

fn ollama_line_exec(line: &Option<JsonValue>) -> (r: Vec<char>)
    ensures
        r@ == ollama_line_text(*line),
{
    match line {
        Some(JsonValue::Object(fields)) => match member_exec(fields, "message") {
            Some(JsonValue::Object(message)) => text_of(str_of(member_exec(message, "content"))),
            _ => Vec::new(),
        },
        _ => Vec::new(),
    }
}

/// Which provider's events a stream holds.
#[derive(Debug, Clone, Copy, PartialEq, Eq, Structural)]
pub enum StreamKind {
    OpenAi,
    Gemini,
    Ollama,
}

pub open spec fn event_text(kind: StreamKind, event: Option<JsonValue>) -> Seq<char> {
    match kind {
        StreamKind::OpenAi => openai_delta(event),
        StreamKind::Gemini => gemini_event_text(event),
        StreamKind::Ollama => ollama_line_text(event),
    }
}

/// The answer a stream spells out: the text of its events, in order.
pub open spec fn stream_text(kind: StreamKind, events: Seq<Option<JsonValue>>) -> Seq<char> {
    join(events.map_values(|e: Option<JsonValue>| event_text(kind, e)), seq![])
}

/// The answer of a streamed reply, from its events as read (`None` for a
/// line that is not JSON). An answer of nothing but white space is refused.
pub fn stream_answer(kind: StreamKind, events: &Vec<Option<JsonValue>>) -> (r: Result<String, AiError>)
    ensures
        trim_ws(stream_text(kind, events@)).len() > 0 ==> (r matches Ok(t) && t@ == stream_text(
            kind,
            events@,
        )),
        trim_ws(stream_text(kind, events@)).len() == 0 ==> r == Err::<String, AiError>(
            AiError::EmptyResponse,
        ),
{
    let ghost texts = events@.map_values(|e: Option<JsonValue>| event_text(kind, e));
    let mut out: Vec<char> = Vec::new();
    let mut i: usize = 0;
    assert(texts.take(0) =~= seq![]);
    while i < events.len()
        invariant
            i <= events@.len(),
            texts == events@.map_values(|e: Option<JsonValue>| event_text(kind, e)),
            out@ == join(texts.take(i as int), seq![]),
        decreases events@.len() - i,
    {
        let t = match kind {
            StreamKind::OpenAi => openai_delta_exec(&events[i]),
            StreamKind::Gemini => gemini_event_exec(&events[i]),
            StreamKind::Ollama => ollama_line_exec(&events[i]),
        };
        proof {
            lemma_join_empty_push(texts.take(i as int), t@);
            assert(texts.take(i + 1) =~= texts.take(i as int).push(t@));
        }
        extend_chars(&mut out, t.as_slice());
        i += 1;
    }
    assert(texts.take(events@.len() as int) =~= texts);
    nonempty(string_from_chars(out.as_slice()))
}


/// The lines of a reply body that carry one JSON event each: every line of
/// an Ollama body, the `data:` payloads of a server-sent event stream.
pub open spec fn stream_lines(kind: StreamKind, body: Seq<char>) -> Seq<Seq<char>> {
    match kind {
        StreamKind::Ollama => spec_lines(body),
        _ => payloads(spec_lines(body)),
    }
}

/// The events of a reply body, each line read as JSON.
pub open spec fn stream_events(kind: StreamKind, body: Seq<char>) -> Seq<Option<JsonValue>> {
    stream_lines(kind, body).map_values(|line: Seq<char>| json_of(line))
}

/// The answer of a provider's streamed reply body. An answer of nothing but
/// white space is refused.
pub fn parse_stream(kind: StreamKind, body: &str) -> (r: Result<String, AiError>)
    ensures
        trim_ws(stream_text(kind, stream_events(kind, body@))).len() > 0 ==> (r matches Ok(t)
            && t@ == stream_text(kind, stream_events(kind, body@))),
        trim_ws(stream_text(kind, stream_events(kind, body@))).len() == 0 ==> r == Err::<
            String,
            AiError,
        >(AiError::EmptyResponse),
{
    let lines = match kind {
        StreamKind::Ollama => body_lines(body),
        _ => sse_data_lines(body),
    };
    let ghost lv = strings_view(lines@);
    assert(lv == stream_lines(kind, body@));
    let mut events: Vec<Option<JsonValue>> = Vec::new();
    let mut i: usize = 0;
    while i < lines.len()
        invariant
            i <= lines@.len(),
            lv == strings_view(lines@),
            events@ == lv.take(i as int).map_values(|line: Seq<char>| json_of(line)),
        decreases lines@.len() - i,
    {
        let event = parse_json_line(lines[i].as_str());
        proof {
            assert(lv[i as int] == lines@[i as int]@);
            assert(lv.take(i + 1) =~= lv.take(i as int).push(lv[i as int]));
        }
        events.push(event);
        proof {
            assert(events@ =~= lv.take(i + 1).map_values(|line: Seq<char>| json_of(line)));
        }
        i += 1;
    }
    assert(lv.take(lines@.len() as int) =~= lv);
    assert(events@ =~= stream_events(kind, body@));
    stream_answer(kind, &events)
}
} // verus!
