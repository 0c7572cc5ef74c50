use everyfile::ai::{
    build_ai_prompt, check_endpoint, join_answer_parts, nonempty, require_remote_consent,
    select_provider, validated_base_url, AiError, AiProvider,
};

#[test]
fn ollama_accepts_only_loopback_http() {
    assert!(validated_base_url("http://127.0.0.1:11434", true).is_ok());
    assert!(validated_base_url("http://localhost:11434", true).is_ok());
    assert_eq!(
        validated_base_url("http://localhost:11434", true),
        Ok("http://localhost:11434/".to_string())
    );
    assert!(validated_base_url("http://192.168.0.2:11434", true).is_err());
    assert!(validated_base_url("https://example.com", true).is_err());
}

#[test]
fn remote_providers_require_https_and_explicit_consent() {
    assert!(validated_base_url("https://api.openai.com", false).is_ok());
    assert!(validated_base_url("http://api.openai.com", false).is_err());
    assert!(require_remote_consent(false).is_err());
    assert!(require_remote_consent(true).is_ok());
}

#[test]
fn endpoints_are_judged_on_their_parsed_parts() {
    assert_eq!(validated_base_url("not a url", false), Err(AiError::Endpoint));
    assert_eq!(
        validated_base_url("HTTPS://Example.com/", false),
        Ok("https://example.com/".to_string())
    );
    assert_eq!(check_endpoint(&None, true), Err(AiError::Endpoint));
    assert_eq!(
        check_endpoint(&Some(("http".to_string(), Some("::1".to_string()))), true),
        Ok(())
    );
    assert_eq!(
        check_endpoint(&Some(("http".to_string(), None)), true),
        Err(AiError::Endpoint)
    );
}

#[test]
fn providers_and_prompts() {
    assert_eq!(select_provider("ollama", false), Ok(AiProvider::Ollama));
    assert_eq!(select_provider("gemini", false), Err(AiError::ConsentRequired));
    assert_eq!(select_provider("openai", true), Ok(AiProvider::OpenAi));
    assert_eq!(select_provider("other", true), Err(AiError::Provider));
    assert_eq!(
        build_ai_prompt("본문", Some("  무엇?  ")).unwrap(),
        "문서에 근거해서만 답하세요. 질문: 무엇?\n\n[문서]\n본문"
    );
    assert_eq!(
        build_ai_prompt("본문", None).unwrap(),
        "문서의 핵심을 한국어로 간결하게 요약하세요.\n\n[문서]\n본문"
    );
    assert_eq!(
        build_ai_prompt("  \n", None),
        Err(AiError::Document("document has no parsed text".to_string()))
    );
    let long = "a".repeat(40_010);
    let prompt = build_ai_prompt(&long, Some(" ")).unwrap();
    assert!(prompt.ends_with(&"a".repeat(40_000)));
    assert!(!prompt.ends_with(&"a".repeat(40_001)));
    assert_eq!(nonempty("  ".to_string()), Err(AiError::EmptyResponse));
    assert_eq!(nonempty(" x ".to_string()), Ok(" x ".to_string()));
    assert_eq!(join_answer_parts(&vec!["a".to_string(), "b".to_string()]), "a\nb");
    assert_eq!(join_answer_parts(&vec![]), "");
}

#[test]
fn assistant_requests_are_prepared_in_order() {
    let ready = everyfile::ai::prepare_ai_request(true, "ollama", false, Ok("본문".to_string()), Some(" 요약? "));
    match ready {
        Ok((provider, prompt)) => {
            assert_eq!(provider, everyfile::ai::AiProvider::Ollama);
            assert_eq!(prompt, "문서에 근거해서만 답하세요. 질문: 요약?\n\n[문서]\n본문");
        }
        Err(error) => panic!("unexpected {error:?}"),
    }
    assert_eq!(
        everyfile::ai::prepare_ai_request(false, "ollama", true, Ok("x".to_string()), None),
        Err(everyfile::ai::AiError::Disabled)
    );
    assert_eq!(
        everyfile::ai::prepare_ai_request(true, "openai", false, Ok("x".to_string()), None),
        Err(everyfile::ai::AiError::ConsentRequired)
    );
    assert_eq!(
        everyfile::ai::prepare_ai_request(true, "openai", false, Ok("   ".to_string()), None),
        Err(everyfile::ai::AiError::Document("document has no parsed text".to_string()))
    );
    assert_eq!(
        everyfile::ai::prepare_ai_request(true, "other", true, Err("missing".to_string()), None),
        Err(everyfile::ai::AiError::Document("missing".to_string()))
    );
    assert_eq!(
        everyfile::ai::prepare_ai_request(true, "other", true, Ok("x".to_string()), None),
        Err(everyfile::ai::AiError::Provider)
    );
}
