use everyfile::retrieval::build_cited_prompt;

#[test]
fn prioritizes_question_terms_and_adds_citations() {
    let source = "첫 문단입니다.\n\n매출은 42% 증가했습니다.\n\n마지막 문단입니다.";
    let result = build_cited_prompt(source, Some("매출 증가율은?"));
    assert!(result.prompt.contains("매출은 42%"));
    assert!(result.prompt.contains("[문서 근거 1]"));
    assert!(result.chunk_count > 0);
}

#[test]
fn a_document_without_text_has_no_citations() {
    let result = build_cited_prompt("", None);
    assert_eq!(result.chunk_count, 0);
}

#[test]
fn chunks_never_exceed_the_chunk_size_and_a_separator() {
    let paragraph = "x".repeat(2_000);
    let doc = format!("{p}\n\n{p}\n\n{p}\n\n{}", "y".repeat(9_000), p = paragraph);
    let chars: Vec<char> = doc.chars().collect();
    let chunks = everyfile::retrieval::split_chunks(&chars);
    assert!(chunks.iter().all(|c| c.len() <= 4_002));
    assert_eq!(chunks[0].len(), 4_002);
    let visible: String = chunks.iter().flat_map(|c| c.iter()).filter(|c| !c.is_whitespace()).collect();
    let original: String = doc.chars().filter(|c| !c.is_whitespace()).collect();
    assert_eq!(visible, original);
}

#[test]
fn citations_are_distinct_ranked_and_bounded() {
    let mut doc = String::new();
    for i in 0..12 {
        if i > 0 {
            doc.push_str("\n\n");
        }
        let word = if i % 3 == 0 { "apple" } else { "pear" };
        doc.push_str(&format!("{} {}", word, "z".repeat(3_990)));
    }
    let result = build_cited_prompt(&doc, Some("apple"));
    assert!(result.chunk_count <= 8);
    let labels: Vec<usize> = result
        .prompt
        .match_indices("[문서 근거 ")
        .skip(1)
        .map(|(at, _)| {
            let rest = &result.prompt[at + "[문서 근거 ".len()..];
            rest[..rest.find(']').unwrap()].parse().unwrap()
        })
        .collect();
    let mut sorted = labels.clone();
    sorted.sort();
    sorted.dedup();
    assert_eq!(labels.len(), result.chunk_count);
    assert_eq!(sorted.len(), labels.len());
    assert!(labels.iter().take(4).all(|k| (k - 1) % 3 == 0));
}
