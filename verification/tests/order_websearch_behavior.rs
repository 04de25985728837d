use agent_runtime::order::{lex_ge, sort_chats_recent_first, sort_projects_recent_first};
use agent_runtime::types::{Chat, Project};
use agent_runtime::websearch::{format_search_results, search_fields_from, SearchFields};

fn chat(id: &str, updated_at: &str) -> Chat {
    Chat {
        id: id.to_string(),
        title: "t".to_string(),
        thread_id: "th".to_string(),
        messages: vec![],
        project_id: None,
        created_at: "2024-01-01T00:00:00Z".to_string(),
        updated_at: updated_at.to_string(),
    }
}

#[test]
fn test_lex_ge() {
    assert!(lex_ge("b", "a"));
    assert!(!lex_ge("a", "b"));
    assert!(lex_ge("abc", "abc"));
    assert!(lex_ge("abcd", "abc"));
    assert!(!lex_ge("abc", "abcd"));
    assert!(lex_ge("2024-06-01", "2024-05-31"));
}

#[test]
fn test_sort_chats_recent_first() {
    let chats = vec![
        chat("old", "2024-01-02T00:00:00Z"),
        chat("new", "2024-03-01T00:00:00Z"),
        chat("mid", "2024-02-01T00:00:00Z"),
    ];
    let sorted = sort_chats_recent_first(chats);
    let ids: Vec<&str> = sorted.iter().map(|c| c.id.as_str()).collect();
    assert_eq!(ids, vec!["new", "mid", "old"]);
}

#[test]
fn test_sort_projects_recent_first() {
    let mk = |id: &str, created: &str| Project {
        id: id.to_string(),
        name: "p".to_string(),
        description: None,
        attachments: vec![],
        chat_ids: vec![],
        created_at: created.to_string(),
        updated_at: created.to_string(),
    };
    let projects = vec![
        mk("a", "2023-01-01T00:00:00Z"),
        mk("b", "2025-01-01T00:00:00Z"),
    ];
    let sorted = sort_projects_recent_first(projects);
    assert_eq!(sorted[0].id, "b");
    assert_eq!(sorted[1].id, "a");
}

fn empty_fields() -> SearchFields {
    SearchFields {
        heading: None,
        abstract_text: None,
        abstract_url: None,
        definition: None,
        definition_url: None,
        related: vec![],
        has_related: false,
        answer: None,
    }
}

#[test]
fn test_search_output_fallback() {
    let out = format_search_results(&empty_fields(), "obscure query");
    assert!(out.starts_with("I searched for 'obscure query' but didn't find specific results."));
    assert!(out.contains("Rephrasing your query"));
}

#[test]
fn test_search_output_sections() {
    let mut f = empty_fields();
    f.heading = Some("Rust".to_string());
    f.abstract_text = Some("A systems language.".to_string());
    f.abstract_url = Some("https://example.org/rust".to_string());
    f.answer = Some("42".to_string());
    let out = format_search_results(&f, "rust");
    assert_eq!(
        out,
        "## Rust\n\nA systems language.\n\nSource: https://example.org/rust\n\n**Answer**: 42\n\n"
    );
}

#[test]
fn test_search_output_related_numbering_skips_incomplete() {
    let mut f = empty_fields();
    f.has_related = true;
    f.related = vec![
        ("first".to_string(), "http://a".to_string()),
        ("".to_string(), "http://missing-text".to_string()),
        ("third".to_string(), "http://c".to_string()),
    ];
    let out = format_search_results(&f, "q");
    // Entries keep their response position in the numbering; an incomplete
    // entry leaves a gap.
    assert_eq!(
        out,
        "## Related Information:\n\n1. [first](http://a)\n3. [third](http://c)\n\n"
    );
}

#[test]
fn test_search_output_caps_related_at_five() {
    let mut f = empty_fields();
    f.has_related = true;
    for k in 0..8 {
        f.related
            .push((format!("t{}", k), format!("http://u{}", k)));
    }
    let out = format_search_results(&f, "q");
    assert!(out.contains("5. [t4](http://u4)"));
    assert!(!out.contains("t5"));
}

#[test]
fn test_search_fields_from_response() {
    let body = "{\"Abstract\":\"Info.\",\"Heading\":\"Topic\",\"AbstractURL\":\"http://x\",\"Definition\":\"\",\"RelatedTopics\":[{\"Text\":\"rel\",\"FirstURL\":\"http://r\"}],\"Answer\":\"yes\"}";
    let v: serde_json::Value = serde_json::from_str(body).unwrap();
    let f = search_fields_from(&v);
    assert_eq!(f.heading.as_deref(), Some("Topic"));
    assert_eq!(f.abstract_text.as_deref(), Some("Info."));
    assert_eq!(f.definition.as_deref(), Some(""));
    assert!(f.has_related);
    assert_eq!(f.related.len(), 1);
    assert_eq!(f.related[0].0, "rel");
    assert_eq!(f.answer.as_deref(), Some("yes"));

    let out = format_search_results(&f, "topic");
    assert!(out.starts_with("## Topic\n\nInfo.\n\nSource: http://x\n\n"));
    assert!(out.contains("1. [rel](http://r)"));
    assert!(out.ends_with("**Answer**: yes\n\n"));
}
