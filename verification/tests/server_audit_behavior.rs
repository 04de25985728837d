use agent_runtime::audit::{AuditLog, LogEntry};
use agent_runtime::server::{MtlsConfig, ServerConfig};

#[test]
fn test_server_defaults() {
    let config = ServerConfig::new();
    assert_eq!(config.base_url(), "http://127.0.0.1:11434");
    assert!(config.bearer_token().is_none());
}

#[test]
fn test_set_server() {
    let mut config = ServerConfig::new();
    config.set_server("https://models.example".to_string(), 8443, None, None);
    assert_eq!(config.base_url(), "https://models.example:8443");

    // Trailing slashes on the host are dropped before the port is joined.
    config.set_server("http://10.0.0.5///".to_string(), 11434, Some("SECRET-REDACTED".to_string()), None);
    assert_eq!(config.base_url(), "http://10.0.0.5:11434");
    assert_eq!(config.bearer_token().as_deref(), Some("SECRET-REDACTED"));
}

#[test]
fn test_mtls_default() {
    let m = MtlsConfig::default();
    assert!(m.cert.is_empty());
    assert!(m.key.is_empty());
    assert!(m.ca.is_none());
}

fn entry(thread: &str, tool: &str, ok: bool) -> LogEntry {
    LogEntry {
        when: "2024-01-01T00:00:00Z".to_string(),
        thread_id: thread.to_string(),
        tool: tool.to_string(),
        args_json: "{}".to_string(),
        ok,
    }
}

#[test]
fn test_audit_log_filters_by_thread() {
    let mut log = AuditLog::new();
    log.record(entry("t1", "file_read", true));
    log.record(entry("t2", "shell_exec", false));
    log.record(entry("t1", "web_search", false));

    let t1 = log.get_audit_log("t1");
    assert_eq!(t1.len(), 2);
    assert_eq!(t1[0].tool, "file_read");
    assert!(t1[0].ok);
    assert_eq!(t1[1].tool, "web_search");
    assert!(!t1[1].ok);

    let t2 = log.get_audit_log("t2");
    assert_eq!(t2.len(), 1);
    assert_eq!(t2[0].tool, "shell_exec");

    assert!(log.get_audit_log("t3").is_empty());
}
