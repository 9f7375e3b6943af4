use llama_chat::background::{BackgroundTask, BackgroundTaskManager, BackgroundTaskStatus, format_duration};
use llama_chat::chat::{memory_block, Recalled};
use llama_chat::config::{McpServerEntry, AppConfig};
use llama_chat::extract::payload_body;
use llama_chat::mcp::{data_payloads, endpoint_of_line, JsonRpcError, McpCallResult, McpContent};
use llama_chat::memory::{Kind, Scope};
use llama_chat::permissions::{PermissionManager, PermissionsConfig};
use llama_chat::display::{format_tool_command, tool_command_display};
use llama_chat::retrieval::fts_safe;
use llama_chat::shell::{extract_command, shell_output, ShellTool};
use llama_chat::sse::{sse_data, SseLineBuffer};
use llama_chat::subagent::tool_definition;
use llama_chat::theme::{parse_hex, Rgb, Theme};
use llama_chat::tools::{ListFilesTool, WriteFileTool};

fn make_task(label: &str) -> BackgroundTask {
    BackgroundTask {
        label: label.to_string(),
        tool_name: "shell".to_string(),
        arguments: "{}".to_string(),
        status: BackgroundTaskStatus::Running,
        output_chunks: Vec::new(),
        result: None,
        success: None,
        started_at: 1_000,
        finished_at: None,
        acknowledged: false,
    }
}

// ───── background tasks ─────

#[test]
fn new_manager_is_empty() {
    let mut mgr = BackgroundTaskManager::new();
    assert_eq!(mgr.active_count(), 0);
    assert!(mgr.summary(0).is_empty());
    assert!(mgr.drain_completed().is_empty());
}

#[test]
fn insert_and_active_count() {
    let mut mgr = BackgroundTaskManager::new();
    mgr.insert(make_task("build")).unwrap();
    assert_eq!(mgr.active_count(), 1);
}

#[test]
fn insert_duplicate_running_label_rejected() {
    let mut mgr = BackgroundTaskManager::new();
    mgr.insert(make_task("build")).unwrap();
    let result = mgr.insert(make_task("build"));
    assert!(result.is_err());
    assert!(result.unwrap_err().contains("already running"));
}

#[test]
fn complete_moves_to_queue() {
    let mut mgr = BackgroundTaskManager::new();
    mgr.insert(make_task("build")).unwrap();
    mgr.complete("build", "done".to_string(), true, 3_500);
    assert_eq!(mgr.active_count(), 0);
    let drained = mgr.drain_completed();
    assert_eq!(drained.len(), 1);
    assert_eq!(drained[0].label, "build");
    assert_eq!(drained[0].result, "done");
    assert!(drained[0].success);
    assert_eq!(drained[0].elapsed_ms, 2_500);
}

#[test]
fn cancel_running_task() {
    let mut mgr = BackgroundTaskManager::new();
    mgr.insert(make_task("build")).unwrap();
    mgr.cancel("build", 2_000).unwrap();
    let t = mgr.get("build").unwrap();
    assert_eq!(t.status, BackgroundTaskStatus::Cancelled);
    assert!(t.finished_at.is_some());
}

#[test]
fn cancel_nonexistent_task_errors() {
    let mut mgr = BackgroundTaskManager::new();
    let result = mgr.cancel("nope", 0);
    assert!(result.is_err());
    assert!(result.unwrap_err().contains("not found"));
}

#[test]
fn append_output_and_status() {
    let mut mgr = BackgroundTaskManager::new();
    mgr.insert(make_task("build")).unwrap();
    mgr.append_output("build", "line 1".to_string());
    mgr.append_output("build", "line 2".to_string());
    let status = mgr.status_one("build", 2_000).unwrap();
    assert!(status.contains("line 1"));
    assert!(status.contains("line 2"));
}

#[test]
fn status_one_acknowledges_finished_task() {
    let mut mgr = BackgroundTaskManager::new();
    mgr.insert(make_task("build")).unwrap();
    mgr.complete("build", "ok".to_string(), true, 2_000);
    assert!(!mgr.get("build").unwrap().acknowledged);
    let _status = mgr.status_one("build", 2_000).unwrap();
    assert!(mgr.get("build").unwrap().acknowledged);
}

#[test]
fn clear_acknowledged_retains_running() {
    let mut mgr = BackgroundTaskManager::new();
    mgr.insert(make_task("running-task")).unwrap();
    mgr.insert(make_task("done-task")).unwrap();
    mgr.complete("done-task", "finished".to_string(), true, 2_000);
    let _status = mgr.status_one("done-task", 2_000).unwrap();
    mgr.clear_acknowledged();
    assert!(mgr.get("running-task").is_some());
    assert!(mgr.get("done-task").is_none());
}

#[test]
fn insert_reuses_label_of_finished_task() {
    let mut mgr = BackgroundTaskManager::new();
    mgr.insert(make_task("build")).unwrap();
    mgr.complete("build", "v1".to_string(), true, 2_000);
    let result = mgr.insert(make_task("build"));
    assert!(result.is_ok());
    assert_eq!(mgr.active_count(), 1);
}

#[test]
fn durations_read_naturally() {
    assert_eq!(format_duration(42), "42s");
    assert_eq!(format_duration(185), "3m 5s");
    assert_eq!(format_duration(7_620), "2h 7m");
}

// ───── permissions ─────

#[test]
fn permission_check() {
    let mgr = PermissionManager::new(PermissionsConfig { allow: vec!["ls *".into(), "git status".into(), "cargo *".into()] });
    assert!(mgr.is_allowed("ls -la"));
    assert!(mgr.is_allowed("git status"));
    assert!(mgr.is_allowed("cargo build"));
    assert!(!mgr.is_allowed("rm -rf /"));
}

#[test]
fn empty_allow_list_denies_all() {
    let mgr = PermissionManager::new(PermissionsConfig { allow: vec![] });
    assert!(!mgr.is_allowed("ls"));
    assert!(!mgr.is_allowed("echo hi"));
}

#[test]
fn added_rule_is_honoured() {
    let mut mgr = PermissionManager::new(PermissionsConfig { allow: vec![] });
    mgr.add_exact("git status");
    assert!(mgr.is_allowed("git status"));
    mgr.add_pattern("cargo *");
    assert!(mgr.is_allowed("cargo build"));
    assert!(mgr.is_allowed("git status"));
}

// ───── shell ─────

#[test]
fn extract_command_valid_json() {
    let result = extract_command(r#"{"command": "echo hello"}"#);
    assert_eq!(result, Some("echo hello".into()));
}

#[test]
fn extract_command_invalid_json() {
    assert_eq!(extract_command("not json"), None);
}

#[test]
fn extract_command_missing_field() {
    assert_eq!(extract_command(r#"{"other": "value"}"#), None);
}

#[test]
fn shell_tool_metadata() {
    let def = ShellTool.definition();
    assert_eq!(def.function.name, "shell");
    assert!(!def.function.description.is_empty());
    let schema: serde_json::Value = serde_json::from_str(&def.function.parameters).unwrap();
    assert_eq!(schema["type"], "object");
    assert!(schema["properties"]["command"].is_object());
}

#[test]
fn shell_output_joins_streams() {
    assert_eq!(shell_output("out\n", ""), "out\n");
    assert_eq!(shell_output("out", "err"), "out\nstderr: err");
    assert_eq!(shell_output("", "oops"), "stderr: oops");
    assert_eq!(shell_output("", ""), "(no output)");
}

// ───── tools ─────

#[test]
fn tool_definition_has_correct_name() {
    let def = tool_definition();
    assert_eq!(def.function.name, "subagent");
    assert_eq!(def.tool_type, "function");
    let schema: serde_json::Value = serde_json::from_str(&def.function.parameters).unwrap();
    assert_eq!(schema["required"][0], "agents");
}

#[test]
fn file_tool_reports() {
    assert_eq!(WriteFileTool::report(42, "/tmp/hello.rs"), "Wrote 42 bytes to /tmp/hello.rs");
    assert_eq!(ListFilesTool::glob_pattern("src", Some("*.rs")), "src/*.rs");
    assert_eq!(ListFilesTool::glob_pattern("src", None), "src/*");
}

// ───── streamed replies ─────

#[test]
fn parse_done_sentinel() {
    assert!(sse_data("data: [DONE]").is_none());
}

#[test]
fn parse_empty_and_comment() {
    assert!(sse_data("").is_none());
    assert!(sse_data(": keep-alive").is_none());
}

#[test]
fn sse_data_line_gives_its_payload() {
    assert_eq!(sse_data("  data: {\"id\":\"1\"}  ").as_deref(), Some("{\"id\":\"1\"}"));
    assert!(sse_data("event: ping").is_none());
}

#[test]
fn sse_lines_are_cut_at_newlines() {
    let mut buf = SseLineBuffer::new();
    assert!(buf.push("data: a").is_empty());
    assert_eq!(buf.push("bc\ndata: d\nda"), vec!["data: abc".to_string(), "data: d".to_string()]);
    assert_eq!(buf.push("ta: e\n"), vec!["data: e".to_string()]);
}

// ───── theme ─────

#[test]
fn parse_valid_hex() {
    assert_eq!(parse_hex("#ff0000"), Some(Rgb { r: 255, g: 0, b: 0 }));
    assert_eq!(parse_hex("00ff00"), Some(Rgb { r: 0, g: 255, b: 0 }));
}

#[test]
fn parse_invalid_hex() {
    assert_eq!(parse_hex("#xyz"), None);
    assert_eq!(parse_hex(""), None);
}

#[test]
fn overrides_apply_to_preset() {
    let overrides = vec![("accent".to_string(), "#ff0000".to_string())];
    let theme = Theme::from_config("dark", &overrides);
    assert_eq!(theme.accent, Rgb { r: 255, g: 0, b: 0 });
    assert_eq!(theme.tool_ok, Rgb { r: 52, g: 211, b: 153 });
}

#[test]
fn light_preset_is_chosen_by_name() {
    assert_eq!(Theme::from_config("light", &vec![]), Theme::light());
    assert_eq!(Theme::from_config("solarized", &vec![]), Theme::dark());
}

// ───── configuration ─────

#[test]
fn mcp_transport_is_detected() {
    let cmd = McpServerEntry { command: Some("npx".into()), args: None, url: None, transport: None };
    let url = McpServerEntry { command: None, args: None, url: Some("http://x/sse".into()), transport: None };
    let explicit = McpServerEntry { command: None, args: None, url: Some("http://x".into()), transport: Some("sse".into()) };
    let none = McpServerEntry { command: None, args: None, url: None, transport: None };
    assert_eq!(cmd.detected_transport(), "stdio");
    assert_eq!(url.detected_transport(), "streamable-http");
    assert_eq!(explicit.detected_transport(), "sse");
    assert_eq!(none.detected_transport(), "unknown");
}

#[test]
fn default_memory_settings() {
    let config = AppConfig::default();
    assert!(!config.memory.enabled);
    assert!(config.memory.extraction_on_clear);
    assert!(config.defaults.show_thinking);
}

// ───── memory ─────

#[test]
fn fts_query_drops_empty_terms() {
    assert_eq!(fts_safe(r#"hello "world" foo"#), r#""hello" OR "world" OR "foo""#);
    assert_eq!(fts_safe(r#" "" a "#), r#""a""#);
    assert_eq!(fts_safe("   "), "");
}

#[test]
fn recalled_memories_form_a_block() {
    assert!(memory_block(&vec![]).is_none());
    let items = vec![
        Recalled { scope: Scope::Global, kind: Some(Kind::Feedback), content: "no emojis".into() },
        Recalled { scope: Scope::Project, kind: None, content: "uses tokio".into() },
    ];
    assert_eq!(
        memory_block(&items).unwrap(),
        "<memory>\n- [global/feedback] no emojis\n- [project/chunk] uses tokio\n</memory>\n"
    );
}

#[test]
fn parse_plain_json() {
    let body = payload_body(r#"{"title":"t","memories":[{"content":"x","kind":"user"}]}"#);
    let v: serde_json::Value = serde_json::from_str(&body).unwrap();
    assert_eq!(v["title"], "t");
    assert_eq!(v["memories"][0]["kind"], "user");
}

#[test]
fn parse_fenced_json() {
    let body = payload_body("```json\n{\"title\":null,\"memories\":[]}\n```");
    assert_eq!(body, "{\"title\":null,\"memories\":[]}");
    let body = payload_body("```\n{}\n``````");
    assert_eq!(body, "{}");
}

#[test]
fn parse_malformed_returns_none() {
    let body = payload_body("not json at all");
    assert!(serde_json::from_str::<serde_json::Value>(&body).is_err());
}

#[test]
fn deserialize_call_result() {
    let r = McpCallResult {
        content: vec![
            McpContent { content_type: "text".into(), text: Some("file contents here".into()) },
            McpContent { content_type: "image".into(), text: None },
            McpContent { content_type: "text".into(), text: Some("more".into()) },
        ],
    };
    assert_eq!(r.text(), "file contents here\nmore");
}

#[test]
fn default_paths_uses_project_dir() {
    let paths = llama_chat::memory::default_paths(Some("/home/u/.config".to_string()), "/work/proj");
    assert!(paths.project_db.starts_with("/work/proj"));
    assert!(paths.project_db.ends_with(".llama-chat/memory.db"));
    assert_eq!(paths.project_db, "/work/proj/.llama-chat/memory.db");
    assert_eq!(paths.global_db, "/home/u/.config/llama-chat/memory.db");
}

#[test]
fn default_paths_without_config_dir_uses_current_dir() {
    let paths = llama_chat::memory::default_paths(None, "/work/proj/");
    assert_eq!(paths.global_db, "./llama-chat/memory.db");
    assert_eq!(paths.project_db, "/work/proj/.llama-chat/memory.db");
    let rel = llama_chat::memory::default_paths(None, "");
    assert_eq!(rel.project_db, ".llama-chat/memory.db");
}

#[test]
fn tool_command_shows_file_paths_and_sizes() {
    assert_eq!(format_tool_command("read_file", r#"{"path":"src/main.rs"}"#), "src/main.rs");
    assert_eq!(format_tool_command("edit_file", r#"{"path":"a.txt","old":"x"}"#), "a.txt");
    assert_eq!(format_tool_command("list_files", r#"{"path":"."}"#), ".");
    assert_eq!(
        format_tool_command("write_file", r#"{"path":"/tmp/hello.rs","content":"fn main() {}\n"}"#),
        "/tmp/hello.rs (13 bytes)"
    );
    assert_eq!(format_tool_command("write_file", r#"{"path":"e.txt"}"#), "e.txt (0 bytes)");
    assert_eq!(format_tool_command("write_file", r#"{"path":"u.txt","content":"é"}"#), "u.txt (2 bytes)");
}

#[test]
fn tool_command_counts_todo_items() {
    assert_eq!(format_tool_command("todo", r#"{"items":["a","b","c"]}"#), "3 items");
    assert_eq!(format_tool_command("todo", r#"{"items":"none"}"#), r#"{"items":"none"}"#);
}

#[test]
fn tool_command_falls_back_to_cut_arguments() {
    assert_eq!(format_tool_command("read_file", "not json"), "not json");
    assert_eq!(format_tool_command("mcp_x_y", r#"{"q":1}"#), r#"{"q":1}"#);
    let long = "x".repeat(130);
    assert_eq!(format_tool_command("shell", &long), format!("{}...", "x".repeat(120)));
    let cut_inside = format!("{}é{}", "a".repeat(119), "b".repeat(10));
    assert_eq!(tool_command_display("shell", &cut_inside), None);
    assert_eq!(tool_command_display("shell", "ls"), Some("ls".to_string()));
}

#[test]
fn sse_endpoint_path_is_relative_to_stream_url() {
    assert_eq!(
        endpoint_of_line("http://host:3001/sse", "data: /messages?session=1\r"),
        Some("http://host:3001/messages?session=1".to_string())
    );
    assert_eq!(endpoint_of_line("nohost", "data: /m"), Some("nohost/m".to_string()));
}

#[test]
fn sse_endpoint_absolute_url_is_taken_as_is() {
    assert_eq!(
        endpoint_of_line("http://a/sse", "data: http://b/messages"),
        Some("http://b/messages".to_string())
    );
    assert_eq!(endpoint_of_line("http://a/sse", "event: endpoint"), None);
    assert_eq!(endpoint_of_line("http://a/sse", "data: {\"jsonrpc\":\"2.0\"}"), None);
    assert_eq!(endpoint_of_line("http://a/sse", "data: "), None);
}

#[test]
fn data_payloads_of_streamed_reply() {
    let body = "event: message\r\ndata: {\"id\":1}\r\n\r\ndata: second\n: comment\n";
    assert_eq!(data_payloads(body), vec!["{\"id\":1}".to_string(), "second".to_string()]);
    assert!(data_payloads("no data here").is_empty());
}

#[test]
fn rpc_error_report() {
    let e = JsonRpcError { code: -32601, message: "Method not found".into() };
    assert_eq!(e.report(), "MCP error -32601: Method not found");
}

#[test]
fn cancelled_task_cannot_be_cancelled_again_but_label_is_reusable() {
    let mut mgr = BackgroundTaskManager::new();
    mgr.insert(make_task("job")).unwrap();
    assert_eq!(mgr.insert(make_task("job")).unwrap_err(), "task with label 'job' is already running");
    mgr.cancel("job", 1_500).unwrap();
    assert_eq!(mgr.cancel("job", 1_600).unwrap_err(), "task 'job' is not running");
    assert!(mgr.insert(make_task("job")).is_ok());
    assert_eq!(mgr.active_count(), 1);
}

#[test]
fn thinking_colors_can_be_overridden() {
    let overrides = vec![
        ("thinking_header".to_string(), "#fbbf24".to_string()),
        ("thinking_text".to_string(), "b4b4b4".to_string()),
        ("thinking_border".to_string(), "#010203".to_string()),
    ];
    let theme = Theme::from_config("light", &overrides);
    assert_eq!(theme.thinking_header, Rgb { r: 251, g: 191, b: 36 });
    assert_eq!(theme.thinking_text, Rgb { r: 180, g: 180, b: 180 });
    assert_eq!(theme.thinking_border, Rgb { r: 1, g: 2, b: 3 });
    assert_eq!(theme.accent, Theme::light().accent);
    let single = Theme::from_config("dark", &vec![("thinking_header".to_string(), "#fbbf24".to_string())]);
    assert_eq!(single.thinking_header, Rgb { r: 251, g: 191, b: 36 });
}
