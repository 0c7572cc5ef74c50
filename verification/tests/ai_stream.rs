use everyfile::ai::AiError;
use everyfile::ai_stream::{body_lines, sse_data_lines, stream_answer, StreamKind};
use everyfile::preview::JsonValue;

fn s(text: &str) -> JsonValue {
    JsonValue::Str(text.to_string())
}

fn obj(members: Vec<(&str, JsonValue)>) -> JsonValue {
    JsonValue::Object(members.into_iter().map(|(k, v)| (k.to_string(), v)).collect())
}

#[test]
fn bodies_split_into_lines_like_str_lines() {
    assert_eq!(body_lines("a\r\nb\n\nc\r"), vec!["a", "b", "", "c\r"]);
    assert_eq!(body_lines(""), Vec::<String>::new());
    assert_eq!(body_lines("x\n"), vec!["x"]);
    assert_eq!(body_lines("\n"), vec![""]);
}

#[test]
fn server_sent_events_keep_their_data_payloads() {
    let body = "data: {\"a\":1}\r\n\r\nevent: ping\ndata: [DONE]\ndata:   \ndata:{\"b\":2}";
    assert_eq!(sse_data_lines(body), vec!["{\"a\":1}", "{\"b\":2}"]);
}

#[test]
fn openai_deltas_spell_the_answer() {
    let delta = |text: &str| {
        Some(obj(vec![("type", s("response.output_text.delta")), ("delta", s(text))]))
    };
    let events = vec![
        delta("Hel"),
        None,
        Some(obj(vec![("type", s("response.completed")), ("delta", s("x"))])),
        Some(s("plain")),
        delta("lo"),
    ];
    assert_eq!(stream_answer(StreamKind::OpenAi, &events), Ok("Hello".to_string()));
}

#[test]
fn gemini_candidates_and_parts_are_read_in_order() {
    let part = |text: &str| obj(vec![("text", s(text))]);
    let candidate = |parts: Vec<JsonValue>| obj(vec![("content", obj(vec![("parts", JsonValue::Array(parts))]))]);
    let events = vec![
        Some(obj(vec![(
            "candidates",
            JsonValue::Array(vec![candidate(vec![part("a"), part("b")]), candidate(vec![part("c")])]),
        )])),
        Some(obj(vec![("candidates", JsonValue::Array(vec![candidate(vec![obj(vec![])])]))])),
        Some(obj(vec![("candidates", JsonValue::Array(vec![candidate(vec![part("d")])]))])),
    ];
    assert_eq!(stream_answer(StreamKind::Gemini, &events), Ok("abcd".to_string()));
}

#[test]
fn ollama_lines_carry_message_content() {
    let line = |text: &str| Some(obj(vec![("message", obj(vec![("role", s("assistant")), ("content", s(text))]))]));
    let events = vec![line("hi"), Some(obj(vec![("done", JsonValue::Bool(true))])), line(" there")];
    assert_eq!(stream_answer(StreamKind::Ollama, &events), Ok("hi there".to_string()));
}

#[test]
fn blank_answers_are_refused() {
    let events = vec![Some(obj(vec![("message", obj(vec![("content", s("  \n"))]))]))];
    assert_eq!(stream_answer(StreamKind::Ollama, &events), Err(AiError::EmptyResponse));
    assert_eq!(stream_answer(StreamKind::OpenAi, &Vec::new()), Err(AiError::EmptyResponse));
}

#[test]
fn ai_errors_describe_themselves() {
    assert_eq!(AiError::EmptyResponse.message(), "AI provider returned an empty response");
    assert_eq!(
        AiError::Document("gone".to_string()).message(),
        "document is unavailable: gone"
    );
    assert_eq!(AiError::Http("timeout".to_string()).message(), "AI provider request failed");
}
