use everyfile::ai::AiError;
use everyfile::ai_stream::{parse_stream, StreamKind};

#[test]
fn ollama_streams_join_message_contents() {
    let body = "{\"message\":{\"content\":\"안녕\"}}\nnot json\n{\"message\":{\"content\":\"하세요\"}}\n";
    assert_eq!(parse_stream(StreamKind::Ollama, body), Ok("안녕하세요".to_string()));
}

#[test]
fn openai_streams_keep_only_text_deltas() {
    let body = "data: {\"type\":\"response.output_text.delta\",\"delta\":\"Hel\"}\n\
data: {\"type\":\"response.created\"}\n\
data: {\"type\":\"response.output_text.delta\",\"delta\":\"lo\"}\n\
data: [DONE]\n";
    assert_eq!(parse_stream(StreamKind::OpenAi, body), Ok("Hello".to_string()));
}

#[test]
fn gemini_streams_join_candidate_parts() {
    let body = "data: {\"candidates\":[{\"content\":{\"parts\":[{\"text\":\"a\"},{\"text\":\"b\"}]}}]}\r\n\
data: {\"candidates\":[{\"content\":{\"parts\":[{\"text\":\"c\"}]}}]}\r\n";
    assert_eq!(parse_stream(StreamKind::Gemini, body), Ok("abc".to_string()));
}

#[test]
fn streams_without_text_are_empty_responses() {
    assert_eq!(parse_stream(StreamKind::Ollama, "garbage\n"), Err(AiError::EmptyResponse));
    assert_eq!(parse_stream(StreamKind::OpenAi, "data: [DONE]\n"), Err(AiError::EmptyResponse));
}
