use agent_runtime::context::ChatEntry;
use agent_runtime::engine::{
    append_rag_context, check_permissions, initial_messages, parse_frame, LineBuffer, TurnEngine,
    TurnError, WireEntry, MAX_TOOL_ROUNDS,
};
use agent_runtime::tools::ToolRegistry;

#[test]
fn test_line_buffer_reassembles_split_frames() {
    let mut buf = LineBuffer::new();
    let first = buf.push_bytes(b"{\"a\":1");
    assert!(first.is_empty());
    let second = buf.push_bytes(b"}\n{\"b\":2}\n{\"c\"");
    assert_eq!(second.len(), 2);
    assert_eq!(second[0], b"{\"a\":1}".to_vec());
    assert_eq!(second[1], b"{\"b\":2}".to_vec());
    let third = buf.push_bytes(b":3}\n");
    assert_eq!(third.len(), 1);
    assert_eq!(third[0], b"{\"c\":3}".to_vec());
}

#[test]
fn test_line_buffer_empty_lines() {
    let mut buf = LineBuffer::new();
    let lines = buf.push_bytes(b"\n\nx\n");
    assert_eq!(lines.len(), 3);
    assert!(lines[0].is_empty());
    assert!(lines[1].is_empty());
    assert_eq!(lines[2], b"x".to_vec());
}

#[test]
fn test_parse_frame_content_and_done() {
    let frame = parse_frame("{\"message\":{\"content\":\"hel\"},\"done\":false}").unwrap();
    assert_eq!(frame.content.as_deref(), Some("hel"));
    assert!(frame.tool_call.is_none());
    assert!(!frame.done);

    let last = parse_frame("{\"done\":true}").unwrap();
    assert!(last.content.is_none());
    assert!(last.done);
}

#[test]
fn test_parse_frame_skips_malformed() {
    assert!(parse_frame("not json at all").is_none());
    assert!(parse_frame("").is_none());
}

#[test]
fn test_parse_frame_tool_call_structured_arguments() {
    let line = "{\"message\":{\"tool_calls\":[{\"function\":{\"name\":\"file_read\",\"arguments\":{\"path\":\"a.txt\"}}}]},\"done\":true}";
    let frame = parse_frame(line).unwrap();
    let call = frame.tool_call.unwrap();
    assert_eq!(call.name, "file_read");
    assert_eq!(
        call.arguments.get("path").and_then(|v| v.as_str()),
        Some("a.txt")
    );
}

#[test]
fn test_parse_frame_tool_call_string_arguments() {
    // Scenario: arguments arriving as the JSON string "{\"path\":\"a.txt\"}"
    // must be parsed into a structured object before dispatch.
    let line = "{\"message\":{\"tool_calls\":[{\"function\":{\"name\":\"file_read\",\"arguments\":\"{\\\"path\\\":\\\"a.txt\\\"}\"}}]},\"done\":true}";
    let frame = parse_frame(line).unwrap();
    let call = frame.tool_call.unwrap();
    assert_eq!(call.name, "file_read");
    assert!(call.arguments.is_object());
    assert_eq!(
        call.arguments.get("path").and_then(|v| v.as_str()),
        Some("a.txt")
    );
}

#[test]
fn test_check_permissions() {
    let enabled = vec!["web_search".to_string(), "shell_exec".to_string()];
    let allowed = vec!["web_search".to_string(), "shell_exec".to_string()];
    assert!(check_permissions(&enabled, &allowed).is_ok());

    let allowed = vec!["web_search".to_string()];
    match check_permissions(&enabled, &allowed) {
        Err(TurnError::NeedPermission { tool }) => assert_eq!(tool, "shell_exec"),
        _ => panic!("expected a permission rejection naming the tool"),
    }

    assert!(check_permissions(&vec![], &vec![]).is_ok());
}

#[test]
fn test_system_prompt_table() {
    let reg = ToolRegistry::new();
    let prompt = reg.system_prompt_for(&vec!["web_search".to_string()]);
    assert_eq!(
        prompt,
        "| tool | description |\n| --- | --- |\n| web_search | Search the web and return brief results |\nThe workspace directory is a sandbox. Use file_write only for plain-text.\nNEVER overwrite binary files.\n"
    );

    // Unknown tools add no row.
    let prompt2 = reg.system_prompt_for(&vec!["nope".to_string()]);
    assert_eq!(
        prompt2,
        "| tool | description |\n| --- | --- |\nThe workspace directory is a sandbox. Use file_write only for plain-text.\nNEVER overwrite binary files.\n"
    );
}

#[test]
fn test_append_rag_context() {
    let base = "base prompt";
    assert_eq!(append_rag_context(base, &vec![]), "base prompt");

    let ctx = vec!["[Document] one".to_string(), "[Document] two".to_string()];
    assert_eq!(
        append_rag_context(base, &ctx),
        "base prompt\n\nUse the following context to answer the user:\n[Document] one\n---\n[Document] two"
    );
}

#[test]
fn test_turn_engine_round_cap() {
    let mut engine = TurnEngine::new(Vec::new(), 2);
    assert!(engine.begin_round().is_ok());
    assert!(engine.begin_round().is_ok());
    assert!(matches!(
        engine.begin_round(),
        Err(TurnError::ToolLoopExceeded)
    ));
    assert!(MAX_TOOL_ROUNDS > 0);
}

#[test]
fn test_turn_engine_folds_tool_results_in_order() {
    let initial = vec![WireEntry::Plain {
        role: "user".to_string(),
        content: "hi".to_string(),
    }];
    let mut engine = TurnEngine::new(initial, MAX_TOOL_ROUNDS);
    let arguments: serde_json::Value = serde_json::from_str("{\"path\":\"a.txt\"}").unwrap();
    engine.fold_tool_result("file_read".to_string(), arguments, "contents".to_string());

    let msgs = engine.messages();
    assert_eq!(msgs.len(), 3);
    match &msgs[1] {
        WireEntry::AssistantToolCall { name, arguments } => {
            assert_eq!(name, "file_read");
            assert_eq!(arguments.get("path").and_then(|v| v.as_str()), Some("a.txt"));
        },
        _ => panic!("the assistant's tool call must come first"),
    }
    match &msgs[2] {
        WireEntry::ToolResult { name, content } => {
            // The tool result follows the call that asked for it.
            assert_eq!(name, "file_read");
            assert_eq!(content, "contents");
        },
        _ => panic!("the tool result must immediately follow the call"),
    }
}

#[test]
fn test_initial_messages_order() {
    let history = vec![
        ChatEntry { role: "user".to_string(), content: "hi".to_string() },
        ChatEntry { role: "assistant".to_string(), content: "hello".to_string() },
    ];
    let msgs = initial_messages("be helpful", history, "next question");
    assert_eq!(msgs.len(), 4);
    match &msgs[0] {
        WireEntry::Plain { role, content } => {
            assert_eq!(role, "system");
            assert_eq!(content, "be helpful");
        }
        _ => panic!("the system message must come first"),
    }
    match &msgs[2] {
        WireEntry::Plain { role, content } => {
            assert_eq!(role, "assistant");
            assert_eq!(content, "hello");
        }
        _ => panic!("history must keep its order"),
    }
    match &msgs[3] {
        WireEntry::Plain { role, content } => {
            assert_eq!(role, "user");
            assert_eq!(content, "next question");
        }
        _ => panic!("the user message must come last"),
    }

    // An empty system prompt adds no entry.
    let msgs = initial_messages("", Vec::new(), "q");
    assert_eq!(msgs.len(), 1);
}
