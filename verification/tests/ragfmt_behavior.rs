use agent_runtime::ragfmt::{
    compose_context, conversation_refs_from, format_previous_hit, format_related_hit,
    format_thread_hit, global_conversation_entries, ingest_error_code, label_document,
    project_conversation_entries, related_query_text, should_vectorize, vector_point_id,
    vectorization_report, ConversationHit, ConversationRef,
};
use agent_runtime::types::Message;

fn create_test_message(role: &str, text: &str) -> Message {
    Message {
        id: "m1".to_string(),
        role: role.to_string(),
        text: text.to_string(),
        name: None,
        attachments: None,
    }
}

#[test]
fn test_conversation_ref_creation() {
    let conv_ref = ConversationRef {
        id: "test_123".to_string(),
        title: "Test Conversation".to_string(),
        snippet: "This is a test conversation snippet".to_string(),
        relevance_milli: 850,
        project_id: Some("project_456".to_string()),
    };

    assert_eq!(conv_ref.id, "test_123");
    assert_eq!(conv_ref.title, "Test Conversation");
    assert_eq!(conv_ref.relevance_milli, 850);
    assert!(conv_ref.project_id.is_some());
}

#[test]
fn test_conversation_refs_from_entries() {
    let entries = vec!["first entry".to_string(), "second entry".to_string()];
    let refs = conversation_refs_from(&entries);
    assert_eq!(refs.len(), 2);
    assert_eq!(refs[0].id, "related_0");
    assert_eq!(refs[0].title, "Related conversation #1");
    assert_eq!(refs[0].snippet, "first entry");
    assert_eq!(refs[0].relevance_milli, 1000);
    assert!(refs[0].project_id.is_none());
    assert_eq!(refs[1].id, "related_1");
    assert_eq!(refs[1].title, "Related conversation #2");
    assert_eq!(refs[1].relevance_milli, 900);
}

#[test]
fn test_hit_formatting() {
    assert_eq!(label_document("abc"), "[Document] abc");
    assert_eq!(
        format_previous_hit("0123456789ab", "user", "hello"),
        "[Previous conversation 01234567] user: hello"
    );
    assert_eq!(
        format_thread_hit("0123456789ab", "assistant", "hi"),
        "[Previous conversation in thread 01234567] assistant: hi"
    );
    assert_eq!(
        format_related_hit("text", "user", Some("abcdefgh-123")),
        "[Related conversation in project abcdefgh] user: text"
    );
    assert_eq!(
        format_related_hit("text", "user", None),
        "[Related conversation] user: text"
    );
}

#[test]
fn test_related_query_text_takes_last_three() {
    let messages = vec![
        create_test_message("user", "one"),
        create_test_message("user", "two"),
        create_test_message("assistant", "three"),
        create_test_message("user", "four"),
    ];
    // The last three messages, newest first.
    assert_eq!(related_query_text(&messages), "four three two");
}

#[test]
fn test_related_query_text_filters_tools_after_window() {
    let messages = vec![
        create_test_message("user", "real question"),
        create_test_message("tool", "noise"),
        create_test_message("tool", "more noise"),
        create_test_message("assistant", "answer"),
    ];
    // The window is the last three; two of them are tool messages.
    assert_eq!(related_query_text(&messages), "answer");

    let only_tools = vec![
        create_test_message("tool", "a"),
        create_test_message("tool", "b"),
    ];
    assert_eq!(related_query_text(&only_tools), "");

    assert_eq!(related_query_text(&vec![]), "");
}

#[test]
fn test_should_vectorize() {
    assert!(should_vectorize("user", "a message long enough"));
    assert!(!should_vectorize("tool", "a message long enough"));
    assert!(!should_vectorize("user", ""));
    assert!(!should_vectorize("user", "   \t  "));
    assert!(!should_vectorize("user", "short"));
    assert!(!should_vectorize("user", "  123456789  "));
    assert!(should_vectorize("user", "0123456789"));
}

#[test]
fn test_vector_point_id() {
    assert_eq!(vector_point_id("thread1", "msg2"), "thread1_msg2");
}

#[test]
fn test_ingest_error_code() {
    assert_eq!(
        ingest_error_code("Unsupported mime: application/zip"),
        "unsupported_mime"
    );
    assert_eq!(ingest_error_code("no such file"), "ingest_error");
}

#[test]
fn test_vectorization_report() {
    assert_eq!(
        vectorization_report(3, 1),
        "Vectorization complete: 3 chats processed, 1 errors"
    );
    assert_eq!(
        vectorization_report(0, 0),
        "Vectorization complete: 0 chats processed, 0 errors"
    );
}

fn hit(content: &str, role: &str, thread: Option<&str>, project: Option<&str>) -> ConversationHit {
    ConversationHit {
        content: Some(content.to_string()),
        role: Some(role.to_string()),
        thread_id: thread.map(|t| t.to_string()),
        project_id: project.map(|p| p.to_string()),
    }
}

#[test]
fn test_project_entries_scoped() {
    let hits = vec![
        hit("in scope", "user", Some("other-thread-1"), Some("proj-1")),
        // From the current thread: must never appear.
        hit("leak", "user", Some("current-thread"), Some("proj-1")),
        // From another project: dropped.
        hit("foreign", "user", Some("other-thread-2"), Some("proj-2")),
        // No thread id: dropped.
        ConversationHit {
            content: Some("no thread".to_string()),
            role: Some("user".to_string()),
            thread_id: None,
            project_id: Some("proj-1".to_string()),
        },
    ];
    let entries = project_conversation_entries(&hits, "proj-1", "current-thread");
    assert_eq!(entries.len(), 1);
    assert_eq!(entries[0], "[Previous conversation other-th] user: in scope");
}

#[test]
fn test_global_entries_scoped() {
    let hits = vec![
        hit("kept labeled", "user", Some("other-thread-1"), Some("project-aa")),
        hit("kept unlabeled", "assistant", Some("other-thread-2"), None),
        // The excluded project is dropped.
        hit("excluded", "user", Some("other-thread-3"), Some("excluded-p")),
        // The current thread is always dropped.
        hit("leak", "user", Some("current-thread"), None),
        // A short project id keeps the entry but gets no label.
        hit("short pid", "user", Some("other-thread-4"), Some("ab")),
    ];
    let entries = global_conversation_entries(&hits, Some("excluded-p"), "current-thread");
    assert_eq!(entries.len(), 3);
    assert_eq!(
        entries[0],
        "[Related conversation in project project-] user: kept labeled"
    );
    assert_eq!(entries[1], "[Related conversation] assistant: kept unlabeled");
    assert_eq!(entries[2], "[Related conversation] user: short pid");

    // Without an exclusion, only the current thread is dropped.
    let all = global_conversation_entries(&hits, None, "current-thread");
    assert_eq!(all.len(), 4);
}

#[test]
fn test_compose_context() {
    let docs = vec!["one".to_string(), "two".to_string()];
    let conv = vec!["[Previous conversation abcdefgh] user: x".to_string()];
    let ctx = compose_context(&docs, Some(&conv));
    assert_eq!(
        ctx,
        vec![
            "[Document] one".to_string(),
            "[Document] two".to_string(),
            "[Previous conversation abcdefgh] user: x".to_string()
        ]
    );
    // A failed conversation search contributes nothing.
    let ctx = compose_context(&docs, None);
    assert_eq!(ctx.len(), 2);
}
