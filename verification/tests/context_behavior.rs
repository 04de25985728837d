use agent_runtime::context::{
    ChatEntry, ContextManager, DEFAULT_CONTEXT_LIMIT, LARGE_MODEL_CONTEXT_LIMIT, RESPONSE_RESERVE,
    SYSTEM_PROMPT_RESERVE,
};
use agent_runtime::types::Message;

fn create_test_message(role: &str, text: &str) -> Message {
    Message {
        id: "m1".to_string(),
        role: role.to_string(),
        text: text.to_string(),
        name: None,
        attachments: None,
    }
}

#[test]
fn test_token_estimation() {
    let manager = ContextManager::new(None);

    assert!(manager.estimate_tokens("hello world") > 0);
    assert!(
        manager.estimate_tokens("a much longer sentence with many words")
            > manager.estimate_tokens("short")
    );

    let message = create_test_message("user", "Hello, how are you?");
    let tokens = manager.estimate_message_tokens(&message);
    assert!(tokens > 0);
    assert!(tokens > manager.estimate_tokens("Hello, how are you?"));
}

#[test]
fn test_model_specific_context_limits() {
    let default_manager = ContextManager::new(None);
    assert_eq!(default_manager.max_context_tokens(), DEFAULT_CONTEXT_LIMIT);

    let large_manager = ContextManager::new(Some("llama2-32k"));
    assert_eq!(large_manager.max_context_tokens(), 32768);

    let medium_manager = ContextManager::new(Some("gpt-16k"));
    assert_eq!(medium_manager.max_context_tokens(), 16384);

    let small_manager = ContextManager::new(Some("bigmodel-large"));
    assert_eq!(small_manager.max_context_tokens(), LARGE_MODEL_CONTEXT_LIMIT);
}

#[test]
fn test_available_context_tokens() {
    let manager = ContextManager::new(None);
    let system_prompt = "You are a helpful assistant.";

    let available = manager.available_context_tokens(system_prompt);
    let expected = DEFAULT_CONTEXT_LIMIT
        - manager.estimate_tokens(system_prompt)
        - SYSTEM_PROMPT_RESERVE
        - RESPONSE_RESERVE;

    assert_eq!(available, expected);
}

#[test]
fn test_needs_optimization() {
    let manager = ContextManager::new(None);
    let system_prompt = "Short prompt";

    let short_messages = vec![
        create_test_message("user", "Hello"),
        create_test_message("assistant", "Hi there!"),
    ];
    assert!(!manager.needs_optimization(&short_messages, system_prompt));

    let long_text = "This is a very long message that contains many words and should consume a significant number of tokens when processed by the language model because it has a lot of content and information that needs to be tokenized and understood.".repeat(10);
    let long_messages = vec![create_test_message("user", &long_text); 20];
    assert!(manager.needs_optimization(&long_messages, system_prompt));
}

#[test]
fn test_extractive_summary() {
    let manager = ContextManager::new(None);
    let text = "This is the first sentence. This is a second important sentence! And here's a third one? Short.";

    let summary = manager.extractive_summary(text, 100);
    assert!(!summary.is_empty());
    assert!(summary.len() <= 100);

    let short_summary = manager.extractive_summary(text, 20);
    assert!(!short_summary.is_empty());
    assert!(short_summary.len() <= 20);

    let empty_summary = manager.extractive_summary("", 100);
    assert!(empty_summary.is_empty());
}

#[test]
fn test_extractive_summary_sentence_scoring() {
    let manager = ContextManager::new(None);

    let text = "This is the most important first sentence with good length. Short. Another sentence here.";

    let summary = manager.extractive_summary(text, 200);
    assert!(summary.contains("important first sentence"));
}

#[test]
fn test_estimate_exact_values() {
    let manager = ContextManager::new(None);
    assert_eq!(manager.estimate_tokens(""), 0);
    assert_eq!(manager.estimate_tokens("abcd"), 1);
    assert_eq!(manager.estimate_tokens("abcde"), 2);
    assert_eq!(manager.estimate_tokens("hello world"), 3);
    let m = create_test_message("user", "abcd");
    // one content token, one role token, ten overhead tokens
    assert_eq!(manager.estimate_message_tokens(&m), 12);
}

#[test]
fn test_estimate_monotonic_on_samples() {
    let manager = ContextManager::new(None);
    let mut prev = 0;
    let mut text = String::new();
    for _ in 0..64 {
        text.push('x');
        let est = manager.estimate_tokens(&text);
        assert!(est >= prev);
        prev = est;
    }
}

#[test]
fn test_available_tokens_antitone_on_samples() {
    let manager = ContextManager::new(None);
    let mut prev = manager.available_context_tokens("");
    let mut prompt = String::new();
    for _ in 0..64 {
        prompt.push_str("word ");
        let avail = manager.available_context_tokens(&prompt);
        assert!(avail <= prev);
        prev = avail;
    }
}

#[test]
fn test_needs_optimization_boundary() {
    let manager = ContextManager::new(None);
    let system_prompt = "Short prompt";
    let available = manager.available_context_tokens(system_prompt);

    // Build one message whose estimate is exactly the available budget:
    // content of 4·k characters is k tokens, the role "user" is one token,
    // and the overhead is ten.
    let content_tokens = available - 11;
    let text = "x".repeat(content_tokens * 4);
    let m = create_test_message("user", &text);
    assert_eq!(manager.estimate_message_tokens(&m), available);
    assert!(!manager.needs_optimization(&vec![m.clone()], system_prompt));

    // One character more pushes the estimate past the budget.
    let text_over = "x".repeat(content_tokens * 4 + 1);
    let m_over = create_test_message("user", &text_over);
    assert!(manager.needs_optimization(&vec![m.clone(), m_over], system_prompt));
}

#[test]
fn test_model_name_scenarios() {
    // Scenario: a size hint anywhere in the name decides the window.
    let a = ContextManager::new(Some("foo-32k"));
    assert_eq!(a.max_context_tokens(), 32768);

    // Scenario: no size hint falls back to the conservative default.
    let b = ContextManager::new(Some("mystery-model"));
    assert_eq!(b.max_context_tokens(), 4096);
}

#[test]
fn test_optimize_empty_history() {
    let manager = ContextManager::new(None);
    let result = manager.optimize_conversation_context(&vec![], "You are helpful", None);
    assert!(result.is_empty());
}

#[test]
fn test_optimize_within_limit() {
    let manager = ContextManager::new(None);
    let system_prompt = "Short prompt";

    let messages = vec![
        create_test_message("user", "Hello"),
        create_test_message("assistant", "Hi there!"),
        create_test_message("user", "How are you?"),
        create_test_message("assistant", "I'm doing well, thanks!"),
    ];

    let optimized: Vec<ChatEntry> =
        manager.optimize_conversation_context(&messages, system_prompt, None);
    assert_eq!(optimized.len(), 4);
    assert_eq!(optimized[0].content, "Hello");
    assert_eq!(optimized[1].content, "Hi there!");
    assert_eq!(optimized[0].role, "user");
}

#[test]
fn test_optimize_drops_tool_messages() {
    let manager = ContextManager::new(None);
    let messages = vec![
        create_test_message("user", "Hello"),
        create_test_message("tool", "raw tool output"),
        create_test_message("assistant", "Hi!"),
    ];
    let optimized = manager.optimize_conversation_context(&messages, "p", None);
    assert_eq!(optimized.len(), 2);
    assert_eq!(optimized[0].role, "user");
    assert_eq!(optimized[1].role, "assistant");
}

#[test]
fn test_long_history_triggers_summarize_path() {
    // Scenario: twenty duplicated long user messages against the default
    // window must need optimization, and with fewer than six fitting, the
    // optimizer keeps only the most recent four.
    let manager = ContextManager::new(None);
    let system_prompt = "You are a helpful assistant.";
    let long_text = "z".repeat(2400);
    let messages = vec![create_test_message("user", &long_text); 20];

    assert!(manager.needs_optimization(&messages, system_prompt));

    let optimized = manager.optimize_conversation_context(&messages, system_prompt, None);
    assert_eq!(optimized.len(), 4);
    assert!(optimized.iter().all(|e| e.role == "user"));
    // With 2400-character messages the kept tail leaves no room for a
    // summary, so none is requested.
    assert!(manager.summarization_request(&messages, system_prompt).is_none());
}

#[test]
fn test_summarize_path_with_model_summary() {
    // Messages sized so that fewer than six fit but room for a summary
    // remains after the kept tail.
    let manager = ContextManager::new(None);
    let system_prompt = "You are a helpful assistant.";
    let text = "q".repeat(2000);
    let messages = vec![create_test_message("user", &text); 20];

    let request = manager.summarization_request(&messages, system_prompt);
    assert!(request.is_some());

    let summary = "They discussed testing strategies.";
    let optimized =
        manager.optimize_conversation_context(&messages, system_prompt, Some(summary));
    assert_eq!(optimized.len(), 5);
    assert_eq!(optimized[0].role, "system");
    assert_eq!(
        optimized[0].content,
        "Previous conversation summary: They discussed testing strategies."
    );
    for entry in &optimized[1..] {
        assert_eq!(entry.role, "user");
    }
}

#[test]
fn test_summarize_path_blank_model_summary_uses_extractive() {
    let manager = ContextManager::new(None);
    let system_prompt = "You are a helpful assistant.";
    let text = "This sentence talks about the project goals in enough words. ".repeat(33);
    let messages = vec![create_test_message("user", &text); 20];

    let request = manager.summarization_request(&messages, system_prompt);
    assert!(request.is_some());

    // A blank model summary falls back to the extractive summarizer.
    let optimized = manager.optimize_conversation_context(&messages, system_prompt, Some("   "));
    assert_eq!(optimized.len(), 5);
    assert_eq!(optimized[0].role, "system");
    assert!(optimized[0]
        .content
        .starts_with("Previous conversation summary: "));
    assert!(optimized[0].content.contains("project goals"));
}

#[test]
fn test_summarization_prompt_caps_input() {
    let manager = ContextManager::new(None);
    let short = manager.summarization_prompt("tiny transcript");
    assert!(short.starts_with("Summarize the following conversation"));
    assert!(short.ends_with("tiny transcript"));

    let long_text = "a".repeat(5000);
    let long = manager.summarization_prompt(&long_text);
    let header_len = short.len() - "tiny transcript".len();
    assert_eq!(long.len(), header_len + 2000);
}

#[test]
fn test_extractive_summary_joins_best_sentences() {
    let manager = ContextManager::new(None);
    let text = "Alpha sentence with plenty of characters inside. Beta sentence also has plenty of characters.";
    let summary = manager.extractive_summary(text, 200);
    assert_eq!(
        summary,
        "Alpha sentence with plenty of characters inside. Beta sentence also has plenty of characters"
    );
}
