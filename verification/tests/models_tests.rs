use mycel::error::MycelError;
use mycel::models::{
    build_rerank_prompt, check_embedding_dimension, parse_rerank_response, rerank_outcome, verdict_of_word,
    OllamaEmbedder, OllamaReranker, RerankVerdict,
};

fn score(v: RerankVerdict) -> f32 {
    match v {
        RerankVerdict::Yes => 1.0,
        RerankVerdict::No => 0.0,
        RerankVerdict::Unknown => f32::NEG_INFINITY,
    }
}

#[test]
fn parses_affirmative_responses_as_one() {
    for s in ["yes", "Yes", "  yes  ", "yes.", "yes\n"] {
        assert_eq!(score(parse_rerank_response(s)), 1.0, "expected 1.0 for {s:?}");
    }
}

#[test]
fn parses_negative_responses_as_zero() {
    for s in ["no", "No", "  no  ", "no.", "no\n"] {
        assert_eq!(score(parse_rerank_response(s)), 0.0, "expected 0.0 for {s:?}");
    }
}

#[test]
fn unparseable_responses_are_neg_infinity() {
    for s in ["", "maybe", "definitely", "  "] {
        let v = score(parse_rerank_response(s));
        assert!(v.is_infinite() && v.is_sign_negative(), "expected -inf for {s:?}");
    }
}

#[test]
fn rerank_prompt_includes_query_and_document() {
    let p = build_rerank_prompt("validate auth", "fn check_token() {}");
    assert!(p.contains("Query: validate auth"));
    assert!(p.contains("Document: fn check_token() {}"));
    assert!(p.ends_with("Relevant (yes/no):"));
}

#[test]
fn rerank_prompt_truncates_long_docs() {
    let long_doc = "x".repeat(5000);
    let p = build_rerank_prompt("q", &long_doc);
    assert!(p.len() <= 1600, "prompt was {} chars", p.len());
}

#[test]
fn all_failed_rerank_is_unhealthy() {
    assert!(rerank_outcome("ollama/r", vec![]).is_ok());
    assert_eq!(
        rerank_outcome("ollama/r", vec![RerankVerdict::Unknown, RerankVerdict::Yes]),
        Ok(vec![RerankVerdict::Unknown, RerankVerdict::Yes])
    );
    assert!(matches!(
        rerank_outcome("ollama/r", vec![RerankVerdict::Unknown]),
        Err(MycelError::Model { .. })
    ));
}

#[test]
fn embedder_identity_and_dimension() {
    let e = OllamaEmbedder::new("http://localhost:11434".into(), "embeddinggemma".into());
    assert_eq!(e.identity(), "ollama/embeddinggemma");
    assert_eq!(e.dimension(), 768);
    assert_eq!(e.embed_url(), "http://localhost:11434/api/embed");
    let e = e.with_dimension(1024);
    assert_eq!(e.dimension(), 1024);
    let r = OllamaReranker::new("http://h".into(), "qwen3-reranker:0.6b".into(), 0);
    assert_eq!(r.concurrency, 1);
}

#[test]
fn embedding_dimension_must_match() {
    assert_eq!(check_embedding_dimension("ollama/e", 768, Some(768)), Ok(()));
    assert_eq!(check_embedding_dimension("ollama/e", 768, None), Ok(()));
    assert_eq!(
        check_embedding_dimension("ollama/e", 768, Some(3)),
        Err(MycelError::Model {
            provider: "ollama/e".into(),
            message: "embedding dimension mismatch: model returned 3 but embedder declares 768".into(),
        })
    );
}

#[test]
fn word_verdicts_ignore_ascii_case() {
    assert_eq!(verdict_of_word("YES"), RerankVerdict::Yes);
    assert_eq!(verdict_of_word("nO"), RerankVerdict::No);
    assert_eq!(verdict_of_word("yes."), RerankVerdict::Unknown);
    assert_eq!(verdict_of_word(""), RerankVerdict::Unknown);
}
