use llama_chat::bg_agent::{background_route, combine_results, direct_route, progress_line, BackgroundAgent, DirectRoute, TurnEnd};
use llama_chat::chat::McpRoute;
use llama_chat::types::{DeltaFunctionCall, DeltaToolCall, ToolDefinition};
use llama_chat::shell::{exit_report, ShellTool};

fn routes() -> Vec<McpRoute> {
    vec![
        McpRoute { tool: "mcp_fs_read".into(), server: "fs".into(), real_name: "read".into() },
        McpRoute { tool: "mcp_gone_x".into(), server: "gone".into(), real_name: "x".into() },
    ]
}

fn refused(r: DirectRoute) -> String {
    match r {
        DirectRoute::Refused(m) => m,
        _ => panic!("expected a refusal"),
    }
}

#[test]
fn direct_route_builtin_tools() {
    let servers = vec!["fs".to_string()];
    assert!(matches!(direct_route("shell", &routes(), &servers), DirectRoute::Shell));
    assert!(matches!(direct_route("read_file", &routes(), &servers), DirectRoute::ReadFile));
    assert!(matches!(direct_route("write_file", &routes(), &servers), DirectRoute::WriteFile));
    assert!(matches!(direct_route("edit_file", &routes(), &servers), DirectRoute::EditFile));
    assert!(matches!(direct_route("list_files", &routes(), &servers), DirectRoute::ListFiles));
}

#[test]
fn direct_route_mcp_tools() {
    let servers = vec!["fs".to_string()];
    match direct_route("mcp_fs_read", &routes(), &servers) {
        DirectRoute::Mcp { server, tool } => {
            assert_eq!(server, "fs");
            assert_eq!(tool, "read");
        }
        _ => panic!("expected an MCP route"),
    }
    assert_eq!(refused(direct_route("mcp_gone_x", &routes(), &servers)), "MCP server not found: gone");
    assert_eq!(refused(direct_route("mcp_nothing", &routes(), &servers)), "Unknown MCP tool: mcp_nothing");
}

#[test]
fn direct_route_refuses_session_tools() {
    let servers: Vec<String> = vec![];
    assert_eq!(
        refused(direct_route("todo", &routes(), &servers)),
        "(todo tools not available in background subagents)"
    );
    assert_eq!(
        refused(direct_route("wipe_todo", &routes(), &servers)),
        "(todo tools not available in background subagents)"
    );
    assert_eq!(
        refused(direct_route("bg_run", &routes(), &servers)),
        "Tool 'bg_run' cannot be used inside background subagents"
    );
    assert_eq!(
        refused(direct_route("subagent", &routes(), &servers)),
        "Tool 'subagent' cannot be used inside background subagents"
    );
    assert_eq!(refused(direct_route("frobnicate", &routes(), &servers)), "Unknown tool: frobnicate");
}

#[test]
fn progress_line_cuts_long_arguments() {
    assert_eq!(progress_line("shell", "{\"command\":\"ls\"}"), "\u{2699} shell: {\"command\":\"ls\"}\n");
    let long = "a".repeat(130);
    let expected = format!("\u{2699} read_file: {}...\n", "a".repeat(120));
    assert_eq!(progress_line("read_file", &long), expected);
}

#[test]
fn combine_results_sorts_by_agent_index() {
    let results = vec![
        (2usize, vec!["third".to_string()]),
        (0usize, vec!["first".to_string(), "more".to_string()]),
        (1usize, vec![]),
    ];
    assert_eq!(
        combine_results(results),
        "[agent-0 result]\nfirst\nmore\n\n[agent-1 result]\n\n\n[agent-2 result]\nthird"
    );
}

#[test]
fn combine_results_empty_is_empty() {
    assert_eq!(combine_results(vec![]), "");
}

#[test]
fn background_agent_conversation_starts_with_system_and_task() {
    let agent = BackgroundAgent::new(3, Some("be brief"), "count files");
    assert_eq!(agent.index, 3);
    assert_eq!(agent.conversation.len(), 2);
    assert_eq!(agent.conversation[0].role, "system");
    assert_eq!(agent.conversation[0].content.as_deref(), Some("be brief"));
    assert_eq!(agent.conversation[1].role, "user");
    assert_eq!(agent.conversation[1].content.as_deref(), Some("count files"));

    let bare = BackgroundAgent::new(0, None, "task");
    assert_eq!(bare.conversation.len(), 1);
    assert_eq!(bare.conversation[0].role, "user");
}

#[test]
fn background_agent_request_omits_empty_tools() {
    let agent = BackgroundAgent::new(0, None, "task");
    let r = agent.request("m1", &vec![]);
    assert_eq!(r.model, "m1");
    assert!(r.stream);
    assert!(r.think);
    assert!(r.tools.is_none());
    let defs: Vec<ToolDefinition> = vec![ShellTool.definition()];
    let r2 = agent.request("m1", &defs);
    assert_eq!(r2.tools.map(|t| t.len()), Some(1));
}

#[test]
fn background_agent_turn_with_text_only_finishes() {
    let mut agent = BackgroundAgent::new(0, None, "task");
    assert_eq!(agent.on_token("Hello ".into()), "Hello ");
    agent.on_token("world".into());
    assert!(matches!(agent.finish_turn(), TurnEnd::Finished));
    assert_eq!(agent.result_parts, vec!["Hello world".to_string()]);
    assert_eq!(agent.conversation.len(), 2);
    assert_eq!(agent.conversation[1].role, "assistant");
    assert_eq!(agent.conversation[1].content.as_deref(), Some("Hello world"));
    assert!(agent.streaming_buffer.is_empty());
}

#[test]
fn background_agent_turn_with_calls_returns_them_in_index_order() {
    let mut agent = BackgroundAgent::new(0, None, "task");
    agent.on_delta(DeltaToolCall {
        index: 1,
        id: Some("b".into()),
        call_type: None,
        function: Some(DeltaFunctionCall { name: Some("read_file".into()), arguments: Some("{}".into()) }),
    });
    agent.on_delta(DeltaToolCall {
        index: 0,
        id: Some("a".into()),
        call_type: None,
        function: Some(DeltaFunctionCall { name: Some("shell".into()), arguments: Some("{\"comm".into()) }),
    });
    agent.on_delta(DeltaToolCall {
        index: 0,
        id: None,
        call_type: None,
        function: Some(DeltaFunctionCall { name: None, arguments: Some("and\":\"ls\"}".into()) }),
    });
    match agent.finish_turn() {
        TurnEnd::Calls(calls) => {
            assert_eq!(calls.len(), 2);
            assert_eq!(calls[0].id, "a");
            assert_eq!(calls[0].function.name, "shell");
            assert_eq!(calls[0].function.arguments, "{\"command\":\"ls\"}");
            assert_eq!(calls[1].id, "b");
            assert_eq!(calls[1].function.name, "read_file");
        }
        TurnEnd::Finished => panic!("expected tool calls"),
    }
    assert!(agent.result_parts.is_empty());
    let last = agent.conversation.last().unwrap();
    assert_eq!(last.role, "assistant");
    assert!(last.content.is_none());
    assert_eq!(last.tool_calls.as_ref().map(|c| c.len()), Some(2));

    agent.add_tool_output("a".into(), "file.txt".into());
    let last = agent.conversation.last().unwrap();
    assert_eq!(last.role, "tool");
    assert_eq!(last.content.as_deref(), Some("file.txt"));
    assert_eq!(last.tool_call_id.as_deref(), Some("a"));
    assert!(matches!(agent.finish_turn(), TurnEnd::Finished));
}

#[test]
fn background_route_of_tools() {
    let servers = vec!["fs".to_string()];
    assert!(matches!(background_route("shell", &routes(), &servers), DirectRoute::Shell));
    assert!(matches!(background_route("list_files", &routes(), &servers), DirectRoute::ListFiles));
    assert!(matches!(background_route("mcp_fs_read", &routes(), &servers), DirectRoute::Mcp { .. }));
    assert_eq!(
        refused(background_route("mcp_gone_x", &routes(), &servers)),
        "MCP server not found for tool: mcp_gone_x"
    );
    assert_eq!(refused(background_route("mcp_zz", &routes(), &servers)), "Unknown MCP tool: mcp_zz");
    assert_eq!(
        refused(background_route("todo", &routes(), &servers)),
        "Unknown tool 'todo' for background execution"
    );
}

#[test]
fn exit_reports() {
    assert_eq!(exit_report(true, false, None), "(command timed out after 120s)");
    assert_eq!(exit_report(false, true, Some(0)), "(command completed)");
    assert_eq!(exit_report(false, false, Some(2)), "(command exited with Some(2))");
    assert_eq!(exit_report(false, false, Some(-1)), "(command exited with Some(-1))");
    assert_eq!(exit_report(false, false, None), "(command exited with None)");
}

#[test]
fn combine_results_keeps_order_of_equal_indices() {
    let results = vec![
        (usize::MAX, vec!["Agent panicked: boom".to_string()]),
        (1usize, vec!["b".to_string()]),
        (1usize, vec!["c".to_string()]),
        (0usize, vec!["a".to_string()]),
    ];
    assert_eq!(
        combine_results(results),
        "[agent-0 result]\na\n\n[agent-1 result]\nb\n\n[agent-2 result]\nc\n\n[agent-3 result]\nAgent panicked: boom"
    );
}
