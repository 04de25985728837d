use agent_runtime::store::{
    conversations_collection, documents_collection, global_scope_filter, parse_simple_filter,
    project_scope_filter, qdrant_url, settings_or_default, VECTOR_DIM,
};
use agent_runtime::strutil::url_encode;

#[test]
fn test_parse_simple_filter() {
    // Test basic equality with single quotes
    let result = parse_simple_filter("project_id = 'abc123'");
    assert_eq!(result, Some(("project_id".to_string(), "abc123".to_string())));

    // Test with double quotes
    let result = parse_simple_filter("thread_id = \"def456\"");
    assert_eq!(result, Some(("thread_id".to_string(), "def456".to_string())));

    // Test without quotes
    let result = parse_simple_filter("status = active");
    assert_eq!(result, Some(("status".to_string(), "active".to_string())));

    // Test with spaces around field name
    let result = parse_simple_filter("  role  = 'user'");
    assert_eq!(result, Some(("role".to_string(), "user".to_string())));

    // Test invalid format
    let result = parse_simple_filter("invalid filter");
    assert_eq!(result, None);

    // Test empty string
    let result = parse_simple_filter("");
    assert_eq!(result, None);
}

#[test]
fn test_constants() {
    assert_eq!(qdrant_url(), "http://127.0.0.1:6333");
    assert_eq!(documents_collection(), "chat");
    assert_eq!(conversations_collection(), "conversations");
    assert_eq!(VECTOR_DIM, 768);
}

#[test]
fn test_scope_filters() {
    assert_eq!(
        project_scope_filter("p1", "t1"),
        "project_id = 'p1' AND thread_id != 't1'"
    );
    assert_eq!(
        global_scope_filter(Some("p1"), "t1"),
        "project_id != 'p1' AND thread_id != 't1'"
    );
    assert_eq!(global_scope_filter(None, "t1"), "thread_id != 't1'");
}

#[test]
fn test_settings_or_default() {
    assert_eq!(settings_or_default(None), (4, 1024));
    assert_eq!(settings_or_default(Some((7, 2048))), (7, 2048));
}

#[test]
fn test_parse_filter_mismatched_quotes() {
    let result = parse_simple_filter("a = 'b\"");
    assert_eq!(result, Some(("a".to_string(), "'b\"".to_string())));
}

#[test]
fn test_parse_filter_first_occurrence() {
    // The first " = " splits; later ones belong to the value.
    let result = parse_simple_filter("a = b = c");
    assert_eq!(result, Some(("a".to_string(), "b = c".to_string())));
}

#[test]
fn test_url_encode() {
    assert_eq!(url_encode("plain"), "plain");
    assert_eq!(url_encode("a b"), "a+b");
    assert_eq!(url_encode("x/y&z=1"), "x%2Fy%26z%3D1");
    assert_eq!(url_encode("a-b_c.d~e"), "a-b_c.d~e");
    assert_eq!(url_encode("caf\u{e9}"), "caf%C3%A9");
}
