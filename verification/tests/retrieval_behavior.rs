use agent_runtime::context::ContextManager;
use agent_runtime::retrieval::{
    assemble_context, effective_score, format_block, rank_top, rerank, retrieve_context,
    RetrievedChunk, DEFAULT_WEIGHT_MILLI,
};

fn chunk(text: &str, score_milli: u32, weight_milli: u32) -> RetrievedChunk {
    RetrievedChunk {
        text: text.to_string(),
        score_milli,
        weight_milli,
        source_id: "s".to_string(),
    }
}

#[test]
fn test_weighted_rerank_order() {
    // Scenario: similarity/weight pairs 0.9/1.0, 0.8/1.5 and 0.95/0.5 give
    // effective scores 0.9, 1.2 and 0.475, so the 0.8-similarity hit with
    // the 1.5 weight ranks first.
    let chunks = vec![
        chunk("first", 900, 1000),
        chunk("second", 800, 1500),
        chunk("third", 950, 500),
    ];
    assert_eq!(effective_score(&chunks[0]), 900_000);
    assert_eq!(effective_score(&chunks[1]), 1_200_000);
    assert_eq!(effective_score(&chunks[2]), 475_000);

    let ranked = rerank(chunks);
    assert_eq!(ranked.len(), 3);
    assert_eq!(ranked[0].text, "second");
    assert_eq!(ranked[1].text, "first");
    assert_eq!(ranked[2].text, "third");
}

#[test]
fn test_rerank_is_stable_for_ties() {
    let chunks = vec![chunk("a", 500, 1000), chunk("b", 1000, 500), chunk("c", 900, 1000)];
    let ranked = rerank(chunks);
    assert_eq!(ranked[0].text, "c");
    // Equal effective scores keep their input order.
    assert_eq!(ranked[1].text, "a");
    assert_eq!(ranked[2].text, "b");
}

#[test]
fn test_rank_top_truncates() {
    let chunks = vec![chunk("a", 100, 1000), chunk("b", 300, 1000), chunk("c", 200, 1000)];
    let top = rank_top(chunks, 2);
    assert_eq!(top.len(), 2);
    assert_eq!(top[0].text, "b");
    assert_eq!(top[1].text, "c");
}

#[test]
fn test_format_block() {
    let c = chunk("some retrieved text", 900, DEFAULT_WEIGHT_MILLI);
    assert_eq!(format_block(&c), "[w:1000] some retrieved text\n");
}

#[test]
fn test_assemble_context_within_budget() {
    // Each block is "[w:1000] <text>\n". Budget of 20 tokens admits the
    // first two blocks and stops before the third.
    let manager = ContextManager::new(None);
    let a = chunk(&"a".repeat(23), 900, 1000);
    let b = chunk(&"b".repeat(23), 800, 1000);
    let c = chunk(&"c".repeat(23), 700, 1000);
    let block_tokens = manager.estimate_tokens(&format_block(&a));
    assert_eq!(block_tokens, 9);

    let ranked = vec![a, b, c];
    let out = assemble_context(&ranked, 20);
    assert!(out.contains("aaa"));
    assert!(out.contains("bbb"));
    assert!(!out.contains("ccc"));
    assert!(manager.estimate_tokens(&out) <= 20);
}

#[test]
fn test_assemble_context_zero_budget() {
    let ranked = vec![chunk("text", 900, 1000)];
    assert_eq!(assemble_context(&ranked, 0), "");
}

#[test]
fn test_retrieve_context_end_to_end() {
    let manager = ContextManager::new(None);
    let chunks = vec![
        chunk("low ranked", 100, 1000),
        chunk("high ranked", 900, 1000),
    ];
    let out = retrieve_context(chunks, 1, 100);
    assert_eq!(out, "[w:1000] high ranked\n");
    assert!(manager.estimate_tokens(&out) <= 100);
}
