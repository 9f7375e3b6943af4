use llama_chat::chat::{App, ChatEntry, Effect, Key, McpTool, ParsedArgs, PendingPermission};
use llama_chat::config::AppConfig;
use llama_chat::permissions::{PermissionManager, PermissionsConfig};
use llama_chat::shell::ShellTool;
use llama_chat::skills::{load_all_skills, Skill, SkillSet};
use llama_chat::tools::{ListFilesTool, ReadFileTool, WriteFileTool};
use llama_chat::types::{DeltaFunctionCall, DeltaToolCall, FunctionCall, Message, StreamEvent, ToolCall, ToolDefinition, Usage};

fn builtin_defs() -> Vec<ToolDefinition> {
    vec![ShellTool.definition(), ReadFileTool.definition(), WriteFileTool.definition(), ListFilesTool.definition()]
}

fn test_app() -> App {
    App::new(
        AppConfig::default(),
        builtin_defs(),
        8,
        PermissionManager::new(PermissionsConfig { allow: vec![] }),
        SkillSet::new(),
        "/tmp/project",
        vec![],
        vec![],
        false,
    )
}

fn call(id: &str, name: &str, args: &str) -> ToolCall {
    ToolCall {
        id: id.into(),
        call_type: "function".into(),
        function: FunctionCall { name: name.into(), arguments: args.into() },
    }
}

// ───── submit_message ─────

#[test]
fn submit_empty_input_does_nothing() {
    let mut app = test_app();
    app.input_buffer = "   ".into();
    app.submit_message(None);
    assert!(app.messages.is_empty());
}

#[test]
fn submit_truly_empty_input_does_nothing() {
    let mut app = test_app();
    app.input_buffer = "".into();
    app.submit_message(None);
    assert!(app.messages.is_empty());
}

#[test]
fn submit_slash_command_routes_to_handler() {
    let mut app = test_app();
    app.input_buffer = "/help".into();
    app.submit_message(None);
    assert!(app.input_buffer.is_empty());
    assert!(matches!(app.messages.last(), Some(ChatEntry::System(s)) if s.contains("Commands:")));
}

#[test]
fn submit_regular_message() {
    let mut app = test_app();
    app.input_buffer = "Hello, how are you?".into();
    let effects = app.submit_message(None);
    assert!(app.input_buffer.is_empty());
    assert!(matches!(&app.messages[0], ChatEntry::User(s) if s == "Hello, how are you?"));
    let last_conv = app.conversation.last().unwrap();
    assert_eq!(last_conv.role, "user");
    assert_eq!(last_conv.content.as_deref(), Some("Hello, how are you?"));
    assert!(app.waiting_for_response);
    assert!(matches!(effects.last(), Some(Effect::StartStream(req)) if req.model == "llama3:8b" && req.stream && req.think));
}

// ───── slash commands ─────

#[test]
fn slash_help() {
    let mut app = test_app();
    app.handle_slash_command("/help");
    match &app.messages[0] {
        ChatEntry::System(s) => {
            assert!(s.contains("/model"));
            assert!(s.contains("/server"));
            assert!(s.contains("/tools"));
            assert!(s.contains("/exit"));
            assert!(s.contains("/clear"));
        }
        _ => panic!("Expected System message"),
    }
}

#[test]
fn slash_exit() {
    let mut app = test_app();
    app.handle_slash_command("/exit");
    assert!(app.should_quit);
}

#[test]
fn slash_quit() {
    let mut app = test_app();
    app.handle_slash_command("/quit");
    assert!(app.should_quit);
}

#[test]
fn slash_clear() {
    let mut app = test_app();
    app.messages.push(ChatEntry::User("hello".into()));
    app.messages.push(ChatEntry::Assistant("hi".into()));
    app.conversation.push(Message::text("system", "system prompt".into()));
    app.conversation.push(Message::text("user", "hello".into()));
    app.handle_slash_command("/clear");
    assert_eq!(app.messages.len(), 1);
    assert!(matches!(&app.messages[0], ChatEntry::System(s) if s.contains("cleared")));
    assert!(app.conversation.iter().all(|m| m.role == "system"));
}

#[test]
fn slash_model_with_arg() {
    let mut app = test_app();
    app.handle_slash_command("/model codellama:13b");
    assert_eq!(app.active_model, "codellama:13b");
    assert!(matches!(&app.messages[0], ChatEntry::System(s) if s.contains("codellama:13b")));
}

#[test]
fn slash_model_without_arg() {
    let mut app = test_app();
    let effects = app.handle_slash_command("/model");
    assert!(matches!(&app.messages[0], ChatEntry::System(s) if s.contains("Current model:")));
    assert!(matches!(effects.as_slice(), [Effect::ListModels]));
}

#[test]
fn slash_server_with_known_name() {
    let mut app = test_app();
    app.handle_slash_command("/server local");
    assert_eq!(app.active_server_name, "Local Ollama");
    assert!(matches!(&app.messages[0], ChatEntry::System(s) if s.contains("Local Ollama")));
}

#[test]
fn slash_server_with_unknown_name() {
    let mut app = test_app();
    app.handle_slash_command("/server nonexistent");
    assert!(matches!(&app.messages[0], ChatEntry::System(s) if s.contains("Unknown server")));
}

#[test]
fn slash_server_without_arg() {
    let mut app = test_app();
    app.handle_slash_command("/server");
    assert!(matches!(&app.messages[0], ChatEntry::System(s) if s.contains("Servers:")));
}

#[test]
fn server_switch_resets_health() {
    let mut app = test_app();
    app.server_healthy = Some(true);
    app.handle_slash_command("/server local");
    assert!(app.server_healthy.is_none());
}

#[test]
fn slash_tools() {
    let mut app = test_app();
    app.handle_slash_command("/tools");
    assert!(matches!(&app.messages[0], ChatEntry::System(s) if s.contains("Built-in tools: 8") && s.contains("Todo tools:")));
}

#[test]
fn slash_tools_with_mcp() {
    let mut app = test_app();
    app.mcp_tool_defs.push(ToolDefinition::function("mcp_test", "test", "{}"));
    app.handle_slash_command("/tools");
    match &app.messages[0] {
        ChatEntry::System(s) => {
            assert!(s.contains("Built-in tools:"));
            assert!(s.contains("MCP tools: 1"));
        }
        _ => panic!("Expected System message"),
    }
}

#[test]
fn slash_skills_empty() {
    let mut app = test_app();
    app.skills = SkillSet::new();
    app.handle_slash_command("/skills");
    assert!(matches!(&app.messages[0], ChatEntry::System(s) if s.contains("No skills loaded")));
}

#[test]
fn slash_skills_with_entries() {
    let mut app = test_app();
    app.skills.insert(Skill { name: "review".into(), description: "Review code".into(), content: "Review content".into() });
    app.handle_slash_command("/skills");
    match &app.messages[0] {
        ChatEntry::System(s) => {
            assert!(s.contains("Skills:"));
            assert!(s.contains("/review"));
        }
        _ => panic!("Expected System message"),
    }
}

#[test]
fn slash_unknown_command() {
    let mut app = test_app();
    app.handle_slash_command("/foobar");
    assert!(matches!(&app.messages[0], ChatEntry::System(s) if s.contains("Unknown command: /foobar")));
}

#[test]
fn slash_skill_activation() {
    let mut app = test_app();
    app.skills.insert(Skill {
        name: "review".into(),
        description: "Review code".into(),
        content: "Review the code carefully.".into(),
    });
    app.handle_slash_command("/review");
    let last_conv = app.conversation.last().unwrap();
    assert_eq!(last_conv.role, "system");
    assert_eq!(last_conv.content.as_deref(), Some("Review the code carefully."));
    assert!(matches!(&app.messages.last().unwrap(), ChatEntry::System(s) if s.contains("activated")));
}

#[test]
fn slash_init_agents_already_exists() {
    let mut app = test_app();
    let effects = app.handle_slash_command("/init");
    assert!(matches!(effects.as_slice(), [Effect::CheckAgentsFile]));
    app.init_agents(true);
    assert!(app.messages.iter().any(|m| matches!(m, ChatEntry::System(s) if s.contains("AGENTS.md already exists"))));
}

#[test]
fn init_agents_generates_when_missing() {
    let mut app = test_app();
    let effects = app.init_agents(false);
    assert!(matches!(&app.messages[0], ChatEntry::System(s) if s.contains("Generating")));
    assert!(matches!(&app.messages[1], ChatEntry::User(s) if s.contains("Examine this project")));
    assert!(matches!(effects.as_slice(), [Effect::StartStream(_)]));
}

// ───── new sessions ─────

#[test]
fn app_new_health_and_usage_defaults() {
    let app = test_app();
    assert!(app.server_healthy.is_none());
    assert!(app.last_token_usage.is_none());
}

#[test]
fn app_new_with_missing_server_config() {
    let mut config = AppConfig::default();
    config.servers.clear();
    config.defaults.server = "nonexistent".into();
    let app = App::new(
        config,
        builtin_defs(),
        8,
        PermissionManager::new(PermissionsConfig { allow: vec![] }),
        SkillSet::new(),
        "/tmp/project",
        vec![],
        vec![],
        false,
    );
    assert_eq!(app.active_server_name, "Local Ollama");
}

#[test]
fn app_new_default_state() {
    let app = test_app();
    assert!(app.messages.is_empty());
    assert!(app.input_buffer.is_empty());
    assert!(app.streaming_buffer.is_empty());
    assert_eq!(app.active_model, "llama3:8b");
    assert_eq!(app.active_server_name, "Local Ollama");
    assert_eq!(app.tool_count, 12);
    assert!(!app.should_quit);
    assert!(!app.yolo);
    assert!(app.pending_permission.is_none());
    assert!(app.pattern_input.is_none());
    assert!(app.pending_tool_calls.is_empty());
}

#[test]
fn app_new_session_allow_defaults() {
    let app = test_app();
    let has = |n: &str| app.session_allow.iter().any(|s| s == n);
    assert!(has("read_file"));
    assert!(has("write_file"));
    assert!(has("edit_file"));
    assert!(has("list_files"));
    assert!(!has("shell"));
}

#[test]
fn app_new_conversation_holds_prompt_and_rules() {
    let app = App::new(
        AppConfig::default(),
        builtin_defs(),
        8,
        PermissionManager::new(PermissionsConfig { allow: vec![] }),
        SkillSet::new(),
        "/work/dir",
        vec!["Project rules.".into(), "   ".into()],
        vec!["rule a".into(), "rule b".into()],
        false,
    );
    assert_eq!(app.conversation.len(), 3);
    let prompt = app.conversation[0].content.as_deref().unwrap();
    assert!(prompt.contains("The working directory is: /work/dir\n"));
    assert!(prompt.contains("subprocess from /work/dir."));
    assert_eq!(app.conversation[1].content.as_deref(), Some("Project rules."));
    assert_eq!(app.conversation[2].content.as_deref(), Some("rule a\n\n---\n\nrule b"));
    assert!(app.show_thinking);
}

#[test]
fn todo_items_start_empty() {
    let app = test_app();
    assert!(app.todo_items.is_empty());
}

#[test]
fn todo_tool_definitions_are_present() {
    let app = test_app();
    let defs = app.todo_tool_definitions();
    let names: Vec<&str> = defs.iter().map(|d| d.function.name.as_str()).collect();
    assert!(names.contains(&"todo"));
    assert!(names.contains(&"todo_complete"));
    assert!(names.contains(&"wipe_todo"));
    assert_eq!(defs.len(), 3);
}

#[test]
fn subagent_state_defaults() {
    let app = test_app();
    assert!(app.subagent_states.is_empty());
    assert_eq!(app.subagents_pending, 0);
    assert!(app.subagent_call_id.is_none());
}

// ───── stream events ─────

#[test]
fn handle_stream_usage_sets_last_token_usage() {
    let mut app = test_app();
    let usage = Usage { prompt_tokens: 100, completion_tokens: 50, total_tokens: 150 };
    app.handle_stream_event(StreamEvent::Usage(usage));
    let u = app.last_token_usage.as_ref().unwrap();
    assert_eq!(u.prompt_tokens, 100);
    assert_eq!(u.completion_tokens, 50);
    assert_eq!(u.total_tokens, 150);
}

#[test]
fn stream_event_token_appends() {
    let mut app = test_app();
    app.handle_stream_event(StreamEvent::Token("Hello".into()));
    assert_eq!(app.streaming_buffer, "Hello");
    app.handle_stream_event(StreamEvent::Token(" World".into()));
    assert_eq!(app.streaming_buffer, "Hello World");
}

#[test]
fn waiting_for_response_cleared_by_token() {
    let mut app = test_app();
    app.waiting_for_response = true;
    app.handle_stream_event(StreamEvent::Token("hi".into()));
    assert!(!app.waiting_for_response);
}

#[test]
fn waiting_for_response_cleared_by_tool_call_delta() {
    let mut app = test_app();
    app.waiting_for_response = true;
    let delta = DeltaToolCall {
        index: 0,
        id: Some("call_1".into()),
        call_type: Some("function".into()),
        function: Some(DeltaFunctionCall { name: Some("shell".into()), arguments: Some("{}".into()) }),
    };
    app.handle_stream_event(StreamEvent::ToolCallDelta(delta));
    assert!(!app.waiting_for_response);
}

#[test]
fn waiting_for_response_cleared_by_finalize() {
    let mut app = test_app();
    app.waiting_for_response = true;
    app.streaming_buffer = "answer".into();
    app.handle_stream_event(StreamEvent::Done);
    assert!(!app.waiting_for_response);
}

#[test]
fn stream_event_tool_call_delta_assembles() {
    let mut app = test_app();
    let delta = DeltaToolCall {
        index: 0,
        id: Some("call_123".into()),
        call_type: Some("function".into()),
        function: Some(DeltaFunctionCall { name: Some("shell".into()), arguments: Some(r#"{"comm"#.into()) }),
    };
    app.handle_stream_event(StreamEvent::ToolCallDelta(delta));
    let delta2 = DeltaToolCall {
        index: 0,
        id: None,
        call_type: None,
        function: Some(DeltaFunctionCall { name: None, arguments: Some(r#"and":"ls"}"#.into()) }),
    };
    app.handle_stream_event(StreamEvent::ToolCallDelta(delta2));
    let assembled = &app.assembling_tool_calls.entries[0].1;
    assert_eq!(app.assembling_tool_calls.entries[0].0, 0);
    assert_eq!(assembled.id, "call_123");
    assert_eq!(assembled.function.name, "shell");
    assert_eq!(assembled.function.arguments, r#"{"command":"ls"}"#);
}

#[test]
fn deltas_of_several_calls_come_out_in_index_order() {
    let mut app = test_app();
    app.yolo = true;
    for (index, name) in [(2u32, "list_files"), (0, "read_file"), (1, "write_file")] {
        app.handle_stream_event(StreamEvent::ToolCallDelta(DeltaToolCall {
            index,
            id: Some(format!("c{index}")),
            call_type: None,
            function: Some(DeltaFunctionCall { name: Some(name.into()), arguments: Some("{}".into()) }),
        }));
    }
    let effects = app.handle_stream_event(StreamEvent::Done);
    let msg = app.conversation.iter().find(|m| m.tool_calls.is_some()).unwrap();
    let names: Vec<&str> = msg.tool_calls.as_ref().unwrap().iter().map(|c| c.function.name.as_str()).collect();
    assert_eq!(names, vec!["read_file", "write_file", "list_files"]);
    assert!(matches!(effects.as_slice(), [Effect::RunTool { call_id, tool_name, .. }] if call_id == "c0" && tool_name == "read_file"));
}

// ───── finishing an answer ─────

#[test]
fn finalize_simple_text() {
    let mut app = test_app();
    app.streaming_buffer = "Hello there!".into();
    app.finalize_response();
    assert!(app.streaming_buffer.is_empty());
    assert!(matches!(&app.messages[0], ChatEntry::Assistant(s) if s == "Hello there!"));
    let last = app.conversation.last().unwrap();
    assert_eq!(last.role, "assistant");
}

#[test]
fn finalize_with_think_tags() {
    let mut app = test_app();
    app.streaming_buffer = "<think>Let me reason about this.</think>Here is my answer.".into();
    app.finalize_response();
    let mut has_thinking = false;
    let mut has_assistant = false;
    for entry in &app.messages {
        match entry {
            ChatEntry::Thinking { content, .. } => {
                assert_eq!(content, "Let me reason about this.");
                has_thinking = true;
            }
            ChatEntry::Assistant(s) => {
                assert_eq!(s, "Here is my answer.");
                has_assistant = true;
            }
            _ => {}
        }
    }
    assert!(has_thinking);
    assert!(has_assistant);
}

#[test]
fn finalize_with_unclosed_think_tag() {
    let mut app = test_app();
    app.streaming_buffer = "<think>Still thinking...".into();
    app.finalize_response();
    assert!(matches!(&app.messages[0], ChatEntry::Thinking { content, .. } if content == "Still thinking..."));
}

#[test]
fn finalize_empty_streaming_buffer() {
    let mut app = test_app();
    app.streaming_buffer.clear();
    let msg_count = app.messages.len();
    app.finalize_response();
    assert_eq!(app.messages.len(), msg_count);
}

#[test]
fn finalize_only_whitespace_think_tag() {
    let mut app = test_app();
    app.streaming_buffer = "<think>   </think>Actual answer.".into();
    app.finalize_response();
    for entry in &app.messages {
        assert!(!matches!(entry, ChatEntry::Thinking { .. }));
    }
    assert!(matches!(app.messages.last(), Some(ChatEntry::Assistant(s)) if s == "Actual answer."));
}

#[test]
fn finalize_text_before_and_after_think() {
    let mut app = test_app();
    app.streaming_buffer = "Prefix <think>reasoning</think> Suffix".into();
    app.finalize_response();
    let mut found_thinking = false;
    let mut found_assistant = false;
    for entry in &app.messages {
        match entry {
            ChatEntry::Thinking { content, .. } if content == "reasoning" => found_thinking = true,
            ChatEntry::Assistant(s) if s.contains("Prefix") && s.contains("Suffix") => found_assistant = true,
            _ => {}
        }
    }
    assert!(found_thinking);
    assert!(found_assistant);
}

#[test]
fn finalize_resets_thinking_state() {
    let mut app = test_app();
    app.in_thinking = true;
    app.thinking_buffer = "leftover".into();
    app.streaming_buffer = "response".into();
    app.finalize_response();
    assert!(!app.in_thinking);
    assert!(app.thinking_buffer.is_empty());
}

#[test]
fn finalize_keeps_full_text_in_conversation() {
    let mut app = test_app();
    app.streaming_buffer = "<think>why</think>because".into();
    app.finalize_response();
    assert_eq!(app.conversation.last().unwrap().content.as_deref(), Some("<think>why</think>because"));
}

#[test]
fn finalize_estimates_usage_when_server_gave_none() {
    let mut app = test_app();
    app.conversation = vec![Message::text("user", "12345678".into())];
    app.streaming_token_count = 3;
    app.streaming_buffer = "ok".into();
    app.finalize_response();
    assert_eq!(app.last_token_usage, Some(Usage { prompt_tokens: 2, completion_tokens: 3, total_tokens: 5 }));
}

#[test]
fn finalize_response_with_assembled_tool_calls() {
    let mut app = test_app();
    app.handle_stream_event(StreamEvent::ToolCallDelta(DeltaToolCall {
        index: 0,
        id: Some("call_assembled".into()),
        call_type: Some("function".into()),
        function: Some(DeltaFunctionCall { name: Some("read_file".into()), arguments: Some(r#"{"path": "/tmp/test"}"#.into()) }),
    }));
    app.finalize_response();
    let assistant_msg = app.conversation.iter().find(|m| m.role == "assistant" && m.tool_calls.is_some());
    assert!(assistant_msg.is_some());
    let tool_calls = assistant_msg.unwrap().tool_calls.as_ref().unwrap();
    assert_eq!(tool_calls.len(), 1);
    assert_eq!(tool_calls[0].function.name, "read_file");
}

#[test]
fn stream_event_done_triggers_finalize() {
    let mut app = test_app();
    app.streaming_buffer = "final answer".into();
    app.handle_stream_event(StreamEvent::Done);
    assert!(app.streaming_buffer.is_empty());
    assert!(matches!(&app.messages[0], ChatEntry::Assistant(s) if s == "final answer"));
}

#[test]
fn abort_streaming_keeps_partial_answer() {
    let mut app = test_app();
    app.waiting_for_response = true;
    app.streaming_buffer = "partial".into();
    let effects = app.abort_streaming();
    assert!(matches!(effects.first(), Some(Effect::AbortStream)));
    assert!(!app.waiting_for_response);
    assert!(matches!(&app.messages[0], ChatEntry::Assistant(s) if s == "partial"));
    assert!(matches!(app.messages.last(), Some(ChatEntry::System(s)) if s == "Generation stopped."));
}

// ───── tool results ─────

#[test]
fn handle_tool_result_success() {
    let mut app = test_app();
    app.handle_tool_result("call_1".into(), "output text".into(), true);
    assert!(matches!(&app.messages[0], ChatEntry::ToolOutput(s) if s == "output text"));
    let conv_last = app.conversation.last().unwrap();
    assert_eq!(conv_last.role, "tool");
    assert_eq!(conv_last.tool_call_id.as_deref(), Some("call_1"));
    assert_eq!(conv_last.content.as_deref(), Some("output text"));
}

#[test]
fn handle_tool_result_failure() {
    let mut app = test_app();
    app.handle_tool_result("call_2".into(), "some error".into(), false);
    assert!(matches!(&app.messages[0], ChatEntry::ToolOutput(s) if s.contains("Error:")));
    let conv_last = app.conversation.last().unwrap();
    assert!(conv_last.content.as_deref().unwrap().contains("Error:"));
}

#[test]
fn handle_tool_result_with_buffered_output() {
    let mut app = test_app();
    app.tool_output_buffer = "line1\nline2\n".into();
    app.handle_tool_result("call_3".into(), "(command completed)".into(), true);
    assert!(matches!(&app.messages[0], ChatEntry::ToolOutput(s) if s.contains("line1")));
}

#[test]
fn handle_tool_result_buffer_plus_extra() {
    let mut app = test_app();
    app.tool_output_buffer = "buffered".into();
    app.handle_tool_result("call_4".into(), "extra output".into(), true);
    assert!(matches!(&app.messages[0], ChatEntry::ToolOutput(s) if s.contains("buffered") && s.contains("extra output")));
}

#[test]
fn third_error_in_a_row_nudges_the_model() {
    let mut app = test_app();
    for i in 0..3 {
        app.handle_tool_result(format!("e{i}"), "boom".into(), false);
    }
    assert_eq!(app.consecutive_errors, 3);
    let content = app.conversation.last().unwrap().content.clone().unwrap();
    assert_eq!(
        content,
        "Error: boom\n\n[SYSTEM: 3 consecutive tool errors. Stop repeating the same approach \u{2014} analyze the error messages and try a fundamentally different strategy.]"
    );
    app.handle_tool_result("ok".into(), "fine".into(), true);
    assert_eq!(app.consecutive_errors, 0);
}

// ───── permissions ─────

#[test]
fn permission_response_deny() {
    let mut app = test_app();
    app.messages.push(ChatEntry::ToolCall { name: "shell".into(), command: "rm -rf /".into(), status: "pending".into() });
    app.pending_permission = Some(PendingPermission {
        tool_name: "shell".into(),
        command: "rm -rf /".into(),
        tool_call_id: "call_deny".into(),
        arguments: r#"{"command":"rm -rf /"}"#.into(),
    });
    app.handle_permission_response(false, false);
    assert!(app.pending_permission.is_none());
    let denied = app.messages.iter().any(|m| matches!(m, ChatEntry::ToolCall { status, .. } if status == "denied"));
    assert!(denied);
    let tool_msg = app.conversation.iter().find(|m| m.role == "tool").unwrap();
    assert!(tool_msg.content.as_deref().unwrap().contains("Permission denied"));
}

#[test]
fn permission_response_no_pending() {
    let mut app = test_app();
    let msg_count = app.messages.len();
    app.handle_permission_response(true, false);
    assert_eq!(app.messages.len(), msg_count);
}

#[test]
fn pattern_submit_empty_pattern() {
    let mut app = test_app();
    app.pattern_input = Some(String::new());
    app.messages.push(ChatEntry::ToolCall { name: "shell".into(), command: "echo hi".into(), status: "pending".into() });
    app.pending_tool_calls.push(call("call_p", "shell", r#"{"command":"echo hi"}"#));
    app.pending_permission = Some(PendingPermission {
        tool_name: "shell".into(),
        command: "echo hi".into(),
        tool_call_id: "call_p".into(),
        arguments: r#"{"command":"echo hi"}"#.into(),
    });
    app.handle_pattern_submit();
    assert!(app.pattern_input.is_none());
}

#[test]
fn pattern_submit_with_pattern() {
    let mut app = test_app();
    app.pattern_input = Some("echo *".into());
    app.messages.push(ChatEntry::ToolCall { name: "shell".into(), command: "echo hi".into(), status: "pending".into() });
    app.pending_tool_calls.push(call("call_pp", "shell", r#"{"command":"echo hi"}"#));
    app.pending_permission = Some(PendingPermission {
        tool_name: "shell".into(),
        command: "echo hi".into(),
        tool_call_id: "call_pp".into(),
        arguments: r#"{"command":"echo hi"}"#.into(),
    });
    let effects = app.handle_pattern_submit();
    assert!(app.pattern_input.is_none());
    assert!(app.permissions.is_allowed("echo hello"));
    assert!(matches!(effects.first(), Some(Effect::SavePermissions)));
    assert!(effects.iter().any(|e| matches!(e, Effect::RunShell { command, subagent: None, .. } if command == "echo hi")));
}

#[test]
fn process_next_tool_call_session_allowed() {
    let mut app = test_app();
    app.pending_tool_calls.push(call("call_read", "read_file", r#"{"path": "/nonexistent"}"#));
    app.process_next_tool_call();
    let has_allowed = app.messages.iter().any(|m| matches!(m, ChatEntry::ToolCall { status, .. } if status == "allowed"));
    assert!(has_allowed);
}

#[test]
fn process_next_tool_call_shell_needs_permission() {
    let mut app = test_app();
    app.pending_tool_calls.push(call("call_shell", "shell", r#"{"command": "rm -rf /"}"#));
    app.process_next_tool_call();
    assert!(app.pending_permission.is_some());
    assert_eq!(app.pending_permission.as_ref().unwrap().command, "rm -rf /");
    let has_pending = app.messages.iter().any(|m| matches!(m, ChatEntry::ToolCall { status, .. } if status == "pending"));
    assert!(has_pending);
}

#[test]
fn process_next_tool_call_yolo_bypasses_permission() {
    let mut app = test_app();
    app.yolo = true;
    app.pending_tool_calls.push(call("call_yolo", "shell", r#"{"command": "echo yolo"}"#));
    app.process_next_tool_call();
    let has_allowed = app.messages.iter().any(|m| matches!(m, ChatEntry::ToolCall { status, .. } if status == "allowed"));
    assert!(has_allowed);
    assert!(app.pending_permission.is_none());
}

#[test]
fn saved_rule_lets_shell_command_run() {
    let mut app = test_app();
    app.permissions.add_pattern("cargo *");
    app.pending_tool_calls.push(call("c1", "shell", r#"{"command":"cargo test"}"#));
    let effects = app.process_next_tool_call();
    assert!(app.pending_permission.is_none());
    assert!(matches!(effects.as_slice(), [Effect::RunShell { call_id, command, subagent: None }] if call_id == "c1" && command == "cargo test"));
}

#[test]
fn permission_response_allow_with_save() {
    let mut app = test_app();
    app.messages.push(ChatEntry::ToolCall { name: "shell".into(), command: "git status".into(), status: "pending".into() });
    app.pending_tool_calls.push(call("call_save", "shell", r#"{"command":"git status"}"#));
    app.pending_permission = Some(PendingPermission {
        tool_name: "shell".into(),
        command: "git status".into(),
        tool_call_id: "call_save".into(),
        arguments: r#"{"command":"git status"}"#.into(),
    });
    app.handle_permission_response(true, true);
    assert!(app.permissions.is_allowed("git status"));
    assert!(matches!(&app.messages[0], ChatEntry::ToolCall { status, .. } if status == "allowed"));
}

#[test]
fn permission_response_deny_removes_from_pending() {
    let mut app = test_app();
    app.messages.push(ChatEntry::ToolCall { name: "shell".into(), command: "rm -rf".into(), status: "pending".into() });
    app.pending_tool_calls.push(call("call_deny2", "shell", r#"{"command":"rm -rf"}"#));
    app.pending_permission = Some(PendingPermission {
        tool_name: "shell".into(),
        command: "rm -rf".into(),
        tool_call_id: "call_deny2".into(),
        arguments: r#"{"command":"rm -rf"}"#.into(),
    });
    app.handle_permission_response(false, false);
    assert!(app.pending_tool_calls.is_empty());
}

// ───── tool calls ─────

#[test]
fn unknown_mcp_tool_is_reported() {
    let mut app = test_app();
    app.yolo = true;
    app.pending_tool_calls.push(call("m1", "mcp_x_y", "{}"));
    let effects = app.process_next_tool_call();
    assert!(matches!(effects.as_slice(), [Effect::ToolResult { result, success: false, .. }] if result == "Unknown MCP tool: mcp_x_y"));
}

#[test]
fn todo_calls_are_decoded_by_the_runner() {
    let mut app = test_app();
    app.pending_tool_calls.push(call("t1", "todo", r#"{"items":["a"]}"#));
    let effects = app.process_next_tool_call();
    assert!(matches!(effects.as_slice(), [Effect::ParseArgs { subagent: None, call_id, arguments, .. }] if call_id == "t1" && arguments == r#"{"items":["a"]}"#));
    let effects = app.finish_tool_call(None, "t1".into(), ParsedArgs::Todo(Ok(vec!["a".into()])), 0);
    assert!(matches!(effects.as_slice(), [Effect::ToolResult { result, success: true, .. }] if result == "Added 1 items"));
}

#[test]
fn handle_todo_tool_sets_items() {
    let mut app = test_app();
    app.handle_todo_tool(Ok(vec!["first".into(), "second".into(), "third".into()]));
    assert_eq!(app.todo_items.len(), 3);
    assert_eq!(app.todo_items[0].text, "first");
    assert_eq!(app.todo_items[1].text, "second");
    assert_eq!(app.todo_items[2].text, "third");
    assert!(app.todo_items.iter().all(|t| !t.done));
}

#[test]
fn handle_todo_tool_replaces_existing() {
    let mut app = test_app();
    app.handle_todo_tool(Ok(vec!["old".into()]));
    app.handle_todo_tool(Ok(vec!["new1".into(), "new2".into()]));
    assert_eq!(app.todo_items.len(), 2);
    assert_eq!(app.todo_items[0].text, "new1");
}

#[test]
fn handle_todo_complete_marks_done() {
    let mut app = test_app();
    app.handle_todo_tool(Ok(vec!["a".into(), "b".into(), "c".into()]));
    let result = app.handle_todo_complete(Ok(1));
    assert!(app.todo_items[1].done);
    assert!(!app.todo_items[0].done);
    assert!(result.unwrap().contains("Completed"));
}

#[test]
fn handle_todo_complete_out_of_bounds() {
    let mut app = test_app();
    app.handle_todo_tool(Ok(vec!["a".into()]));
    let result = app.handle_todo_complete(Ok(5));
    assert!(result.unwrap_err().contains("Invalid"));
}

#[test]
fn handle_todo_tool_invalid_json() {
    let mut app = test_app();
    let result = app.handle_todo_tool(Err("expected value at line 1 column 1".into()));
    assert!(result.contains("Invalid todo arguments"));
    assert!(app.todo_items.is_empty());
}

#[test]
fn handle_todo_complete_invalid_json() {
    let mut app = test_app();
    let result = app.handle_todo_complete(Err("invalid type: string".into()));
    assert!(result.unwrap_err().contains("Invalid todo_complete arguments"));
}

#[test]
fn handle_wipe_todo_clears_list() {
    let mut app = test_app();
    app.handle_todo_tool(Ok(vec!["a".into(), "b".into()]));
    app.handle_wipe_todo();
    assert!(app.todo_items.is_empty());
}

// ───── subagents ─────

#[test]
fn handle_subagent_token_appends_to_buffer() {
    let mut app = test_app();
    app.subagent_states.push(llama_chat::subagent::SubagentState::new(0, None, "test"));
    app.subagents_pending = 1;
    app.handle_subagent_stream(0, StreamEvent::Token("hello".into()));
    assert_eq!(app.subagent_states[0].streaming_buffer, "hello");
}

#[test]
fn handle_subagent_token_adds_chat_entry() {
    let mut app = test_app();
    app.subagent_states.push(llama_chat::subagent::SubagentState::new(0, None, "test"));
    app.subagents_pending = 1;
    app.handle_subagent_stream(0, StreamEvent::Token("hello".into()));
    assert!(matches!(app.messages.last(), Some(ChatEntry::SubagentOutput { index: 0, text }) if text == "hello"));
}

#[test]
fn handle_subagent_tool_result_adds_to_conversation() {
    let mut app = test_app();
    let mut state = llama_chat::subagent::SubagentState::new(0, None, "test");
    state.pending_tool_calls.push(call("tc_1", "read_file", "{}"));
    app.subagent_states.push(state);
    app.subagents_pending = 1;
    app.subagent_call_id = Some("parent_call".into());
    app.handle_subagent_tool_result(0, "tc_1".into(), "file contents".into(), true);
    let last_msg = app.subagent_states[0].conversation.last().unwrap();
    assert_eq!(last_msg.role, "tool");
    assert_eq!(last_msg.content.as_deref(), Some("file contents"));
    assert_eq!(last_msg.tool_call_id.as_deref(), Some("tc_1"));
}

#[test]
fn subagent_done_without_tools_marks_complete() {
    let mut app = test_app();
    app.subagent_states.push(llama_chat::subagent::SubagentState::new(0, None, "test"));
    app.subagents_pending = 1;
    app.subagent_call_id = Some("call_1".into());
    app.subagent_states[0].streaming_buffer = "result text".into();
    let effects = app.handle_subagent_stream(0, StreamEvent::Done);
    assert!(app.subagent_states[0].done);
    assert_eq!(app.subagents_pending, 0);
    assert!(matches!(effects.as_slice(), [Effect::ToolResult { tool_call_id, result, success: true }]
        if tool_call_id == "call_1" && result == "[agent-0 result]\nresult text"));
}

#[test]
fn subagent_call_starts_each_agent() {
    let mut app = test_app();
    let agents = vec![
        llama_chat::subagent::AgentSpec { prompt: "task A".into(), system: Some("you are A".into()) },
        llama_chat::subagent::AgentSpec { prompt: "task B".into(), system: None },
    ];
    let effects = app.finish_tool_call(None, "sub".into(), ParsedArgs::Subagent(Ok(agents)), 0);
    assert_eq!(app.subagents_pending, 2);
    assert_eq!(app.subagent_call_id.as_deref(), Some("sub"));
    assert_eq!(effects.len(), 2);
    assert!(matches!(&effects[1], Effect::StartSubagentStream { index: 1, request } if request.messages.len() == 1));
    assert!(matches!(&app.messages[0], ChatEntry::SubagentOutput { index: 0, text } if text == "Started (task A)"));
}

// ───── keys ─────

#[test]
fn keys_type_and_send_input() {
    let mut app = test_app();
    for c in "hi".chars() {
        app.handle_key(Key::Char { c, ctrl: false });
    }
    assert_eq!(app.input_buffer, "hi");
    app.handle_key(Key::Backspace);
    assert_eq!(app.input_buffer, "h");
    let effects = app.handle_key(Key::Enter);
    assert!(matches!(&app.messages[0], ChatEntry::User(s) if s == "h"));
    assert!(matches!(effects.last(), Some(Effect::StartStream(_))));
}

#[test]
fn keys_answer_permission_questions() {
    let mut app = test_app();
    app.pending_tool_calls.push(call("k1", "shell", r#"{"command":"ls"}"#));
    app.process_next_tool_call();
    let effects = app.handle_key(Key::Char { c: 'a', ctrl: false });
    assert!(app.pending_permission.is_none());
    assert!(matches!(effects.as_slice(), [Effect::RunShell { command, .. }] if command == "ls"));
}

#[test]
fn ctrl_c_quits_when_idle() {
    let mut app = test_app();
    app.handle_key(Key::Char { c: 'c', ctrl: true });
    assert!(app.should_quit);
}

#[test]
fn ctrl_c_stops_streaming_answer() {
    let mut app = test_app();
    app.waiting_for_response = true;
    let effects = app.handle_key(Key::Char { c: 'c', ctrl: true });
    assert!(matches!(effects.first(), Some(Effect::AbortStream)));
    assert!(!app.should_quit);
    assert!(matches!(app.messages.last(), Some(ChatEntry::System(s)) if s == "Generation stopped."));
}

#[test]
fn thinking_key_twice_restores_display() {
    let mut app = test_app();
    app.waiting_for_response = true;
    let before = app.show_thinking;
    app.handle_key(Key::Char { c: 't', ctrl: false });
    assert_eq!(app.show_thinking, !before);
    app.handle_key(Key::Char { c: 't', ctrl: false });
    assert_eq!(app.show_thinking, before);
    assert!(app.input_buffer.is_empty());
}

#[test]
fn clear_twice_keeps_same_system_messages() {
    let mut app = test_app();
    app.conversation.push(Message::text("user", "hello".into()));
    app.conversation.push(Message::text("system", "skill body".into()));
    app.handle_slash_command("/clear");
    let kept: Vec<String> = app.conversation.iter().map(|m| m.content.clone().unwrap_or_default()).collect();
    assert!(app.conversation.iter().all(|m| m.role == "system"));
    assert_eq!(kept.last().map(|s| s.as_str()), Some("skill body"));
    app.handle_slash_command("/clear");
    let again: Vec<String> = app.conversation.iter().map(|m| m.content.clone().unwrap_or_default()).collect();
    assert_eq!(kept, again);
}

#[test]
fn saved_command_runs_without_asking_next_time() {
    let mut app = test_app();
    app.pending_tool_calls.push(call("s1", "shell", r#"{"command":"make build"}"#));
    app.process_next_tool_call();
    assert!(app.pending_permission.is_some());
    let effects = app.handle_permission_response(true, true);
    assert!(effects.iter().any(|e| matches!(e, Effect::SavePermissions)));
    app.pending_tool_calls.push(call("s2", "shell", r#"{"command":"make build"}"#));
    let effects = app.process_next_tool_call();
    assert!(app.pending_permission.is_none());
    assert!(matches!(effects.as_slice(), [Effect::RunShell { call_id, .. }] if call_id == "s2"));
}

#[test]
fn denied_call_is_answered_with_refusal() {
    let mut app = test_app();
    app.pending_tool_calls.push(call("d1", "shell", r#"{"command":"rm -rf /"}"#));
    app.process_next_tool_call();
    let before = app.conversation.len();
    let effects = app.handle_permission_response(false, false);
    assert_eq!(app.conversation.len(), before + 1);
    let last = app.conversation.last().unwrap();
    assert_eq!(last.role, "tool");
    assert_eq!(last.content.as_deref(), Some("Permission denied by user."));
    assert_eq!(last.tool_call_id.as_deref(), Some("d1"));
    assert!(!effects.iter().any(|e| matches!(e, Effect::RunShell { .. })));
}

#[test]
fn connected_mcp_tool_routes_to_its_server() {
    let mut app = test_app();
    app.yolo = true;
    let tools = vec![McpTool { name: "search".into(), description: "Search".into(), input_schema: "{}".into() }];
    app.mcp_connected("docs", &tools);
    assert_eq!(app.mcp_tool_defs[0].function.name, "mcp_docs_search");
    app.pending_tool_calls.push(call("m2", "mcp_docs_search", r#"{"q":"x"}"#));
    let effects = app.process_next_tool_call();
    assert!(matches!(effects.as_slice(), [Effect::CallMcp { call_id, server, tool, arguments }]
        if call_id == "m2" && server == "docs" && tool == "search" && arguments == r#"{"q":"x"}"#));
}

#[test]
fn reconnected_tool_keeps_one_route() {
    let mut app = test_app();
    let tools = vec![McpTool { name: "search".into(), description: "Search".into(), input_schema: "{}".into() }];
    app.mcp_connected("docs", &tools);
    app.mcp_connected("docs", &tools);
    assert_eq!(app.mcp_tool_map.len(), 1);
    assert_eq!(app.mcp_tool_map[0].tool, "mcp_docs_search");
}

#[test]
fn untagged_answer_is_shown_whole() {
    let mut app = test_app();
    app.streaming_buffer = "Plain answer, no tags.".into();
    app.finalize_response();
    assert!(!app.messages.iter().any(|m| matches!(m, ChatEntry::Thinking { .. })));
    assert!(matches!(app.messages.last(), Some(ChatEntry::Assistant(t)) if t == "Plain answer, no tags."));
}

#[test]
fn thinking_command_twice_restores_display() {
    let mut app = test_app();
    let before = app.show_thinking;
    app.handle_slash_command("/thinking");
    assert_eq!(app.show_thinking, !before);
    app.handle_slash_command("/thinking");
    assert_eq!(app.show_thinking, before);
}

fn skill(name: &str, content: &str) -> Skill {
    Skill { name: name.into(), description: String::new(), content: content.into() }
}

#[test]
fn merged_skills_hold_both_sets_project_first() {
    let mut global = SkillSet::new();
    global.insert(skill("a", "ga"));
    global.insert(skill("b", "gb"));
    let mut project = SkillSet::new();
    project.insert(skill("b", "pb"));
    project.insert(skill("c", "pc"));
    let merged = load_all_skills(global, project);
    assert_eq!(merged.len(), 3);
    let content = |n: &str| merged.position(n).map(|i| merged.skills[i].content.clone());
    assert_eq!(content("a"), Some("ga".to_string()));
    assert_eq!(content("b"), Some("pb".to_string()));
    assert_eq!(content("c"), Some("pc".to_string()));
    assert_eq!(content("d"), None);
}
