use agent_runtime::tools::{
    is_whitelisted, output_cap_reached, render_file_read, render_tool_error, render_unknown_tool,
    shell_plan, validate_query, write_mode_of, write_report, FileReadTool, FileWriteTool,
    ShellExecTool, ToolKind, ToolRegistry, WebSearchTool, WriteMode, CMD_TIMEOUT_SECS,
    FILE_READ_CAP, OUTPUT_LIMIT_BYTES,
};

fn args(json: &str) -> serde_json::Value {
    serde_json::from_str(json).unwrap()
}

#[test]
fn test_registry_lookup() {
    let reg = ToolRegistry::new();
    assert!(matches!(reg.lookup("web_search"), Some(ToolKind::WebSearch)));
    assert!(matches!(reg.lookup("file_read"), Some(ToolKind::FileRead)));
    assert!(matches!(reg.lookup("file_write"), Some(ToolKind::FileWrite)));
    assert!(matches!(reg.lookup("shell_exec"), Some(ToolKind::ShellExec)));
    assert!(reg.lookup("no_such_tool").is_none());
}

#[test]
fn test_tool_metas() {
    let reg = ToolRegistry::new();
    let metas = reg.tool_metas();
    assert_eq!(metas.len(), 4);
    assert_eq!(metas[0].name, "web_search");
    assert_eq!(metas[0].description, "Search the web and return brief results");
    assert!(metas[0].json_schema.contains("query"));
    assert_eq!(metas[3].name, "shell_exec");
    // The published schemas are well-formed JSON.
    for m in &metas {
        let v: serde_json::Value = serde_json::from_str(&m.json_schema).unwrap();
        assert_eq!(v.get("type").and_then(|t| t.as_str()), Some("object"));
    }
}

#[test]
fn test_tool_structs_name_their_kind() {
    assert!(matches!(WebSearchTool.kind(), ToolKind::WebSearch));
    assert!(matches!(FileReadTool.kind(), ToolKind::FileRead));
    assert!(matches!(FileWriteTool.kind(), ToolKind::FileWrite));
    assert!(matches!(ShellExecTool.kind(), ToolKind::ShellExec));
    assert_eq!(ShellExecTool.kind().name(), "shell_exec");
}

#[test]
fn test_shell_whitelist() {
    for cmd in ["ls", "cat", "grep", "echo", "pwd", "sed", "awk"] {
        assert!(is_whitelisted(cmd));
    }
    for cmd in ["rm", "curl", "bash", "python", "Ls", "ls "] {
        assert!(!is_whitelisted(cmd));
    }
}

#[test]
fn test_shell_plan_rejects_non_whitelisted() {
    // A command off the whitelist is rejected with the exact error, and no
    // plan — hence no process spawn — comes out of it.
    let r = shell_plan(&args("{\"cmd\":\"rm\",\"args\":[\"-rf\",\"/\"]}"));
    assert_eq!(r.unwrap_err(), "Command not permitted: rm");

    let r = shell_plan(&args("{\"cmd\":\"curl\"}"));
    assert_eq!(r.unwrap_err(), "Command not permitted: curl");
}

#[test]
fn test_shell_plan_accepts_whitelisted() {
    let plan = shell_plan(&args("{\"cmd\":\"ls\",\"args\":[\"-la\",\"src\"]}")).unwrap();
    assert_eq!(plan.cmd, "ls");
    assert_eq!(plan.args, vec!["-la".to_string(), "src".to_string()]);

    let plan = shell_plan(&args("{\"cmd\":\"pwd\"}")).unwrap();
    assert_eq!(plan.cmd, "pwd");
    assert!(plan.args.is_empty());
}

#[test]
fn test_shell_plan_missing_cmd() {
    let r = shell_plan(&args("{\"args\":[\"x\"]}"));
    assert_eq!(r.unwrap_err(), "missing cmd");
}

#[test]
fn test_shell_limits() {
    assert_eq!(CMD_TIMEOUT_SECS, 5);
    assert_eq!(OUTPUT_LIMIT_BYTES, 30 * 1024);
    assert!(!output_cap_reached(30 * 1024));
    assert!(output_cap_reached(30 * 1024 + 1));
}

#[test]
fn test_render_file_read_truncates() {
    let short = "short contents";
    assert_eq!(render_file_read(short), short);

    let long = "y".repeat(FILE_READ_CAP + 5);
    let rendered = render_file_read(&long);
    assert!(rendered.starts_with("(truncated) "));
    assert_eq!(rendered.len(), "(truncated) ".len() + FILE_READ_CAP);
}

#[test]
fn test_write_mode() {
    assert_eq!(write_mode_of(Some("append")), WriteMode::Append);
    assert_eq!(write_mode_of(Some("overwrite")), WriteMode::Overwrite);
    assert_eq!(write_mode_of(Some("anything")), WriteMode::Overwrite);
    assert_eq!(write_mode_of(None), WriteMode::Overwrite);
}

#[test]
fn test_write_report() {
    assert_eq!(write_report(0, "a.txt"), "Wrote 0 bytes to a.txt");
    assert_eq!(write_report(305, "dir/b.md"), "Wrote 305 bytes to dir/b.md");
}

#[test]
fn test_validate_query() {
    assert!(validate_query("rust programming language").is_ok());
    let long = "q".repeat(201);
    assert_eq!(validate_query(&long).unwrap_err(), "query too long");
    let exactly = "q".repeat(200);
    assert!(validate_query(&exactly).is_ok());
}

#[test]
fn test_tool_error_rendering() {
    assert_eq!(render_tool_error("boom"), "\u{26a0}\u{fe0f} boom");
    assert_eq!(
        render_unknown_tool("mystery"),
        "\u{26a0}\u{fe0f} unknown tool: mystery"
    );
}
