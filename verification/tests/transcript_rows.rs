use llama_chat::chat::{App, ChatEntry};
use llama_chat::config::AppConfig;
use llama_chat::permissions::{PermissionManager, PermissionsConfig};
use llama_chat::skills::SkillSet;
use llama_chat::transcript::{transcript, Tone};

fn app() -> App {
    let mut a = App::new(
        AppConfig::default(),
        vec![],
        0,
        PermissionManager::new(PermissionsConfig { allow: vec![] }),
        SkillSet::new(),
        "/tmp/p",
        vec![],
        vec![],
        false,
    );
    a.active_model = "m1".into();
    a.show_thinking = true;
    a
}

fn row(parts: &[(&str, Tone)]) -> Vec<(String, Tone)> {
    parts.iter().map(|(t, k)| (t.to_string(), *k)).collect()
}

#[test]
fn user_and_assistant_rows() {
    let mut a = app();
    a.messages.push(ChatEntry::User("hi\nthere".into()));
    a.messages.push(ChatEntry::Assistant("ok\nmore".into()));
    let rows = transcript(&a).unwrap();
    assert_eq!(rows, vec![
        row(&[("you: ", Tone::User), ("hi", Tone::Plain)]),
        row(&[("      there", Tone::Plain)]),
        vec![],
        row(&[("m1: ", Tone::Assistant), ("ok", Tone::Plain)]),
        row(&[("    more", Tone::Plain)]),
        vec![],
    ]);
}

#[test]
fn tool_call_rows_show_status_and_path() {
    let mut a = app();
    a.messages.push(ChatEntry::ToolCall { name: "read_file".into(), command: r#"{"path":"a.rs"}"#.into(), status: "allowed".into() });
    a.messages.push(ChatEntry::ToolCall { name: "shell".into(), command: "ls".into(), status: "denied".into() });
    a.messages.push(ChatEntry::ToolCall { name: "shell".into(), command: "pwd".into(), status: "pending".into() });
    let rows = transcript(&a).unwrap();
    assert_eq!(rows, vec![
        row(&[("\u{2699} read_file ", Tone::ToolName), ("\u{2713} allowed", Tone::ToolOk)]),
        row(&[("  a.rs", Tone::Muted)]),
        row(&[("\u{2699} shell ", Tone::ToolName), ("\u{2717} denied", Tone::ToolDenied)]),
        row(&[("  ls", Tone::Muted)]),
        row(&[("\u{2699} shell ", Tone::ToolName), ("\u{23f3} pending", Tone::Muted)]),
        row(&[("  pwd", Tone::Muted)]),
    ]);
}

#[test]
fn tool_output_is_capped_at_thirty_lines() {
    let mut a = app();
    let text: Vec<String> = (0..35).map(|i| format!("l{i}")).collect();
    a.messages.push(ChatEntry::ToolOutput(text.join("\n")));
    let rows = transcript(&a).unwrap();
    assert_eq!(rows.len(), 32);
    assert_eq!(rows[0], row(&[("  l0", Tone::Muted)]));
    assert_eq!(rows[29], row(&[("  l29", Tone::Muted)]));
    assert_eq!(rows[30], row(&[("  ... (5 more lines)", Tone::MutedItalic)]));
    assert!(rows[31].is_empty());
}

#[test]
fn thinking_blocks_collapsed_expanded_and_hidden() {
    let mut a = app();
    a.messages.push(ChatEntry::Thinking { content: "first\nsecond".into(), collapsed: true });
    a.messages.push(ChatEntry::Thinking { content: "x".into(), collapsed: false });
    let rows = transcript(&a).unwrap();
    assert_eq!(rows, vec![
        row(&[("Reasoning [+] ", Tone::ThinkingHeader), ("\u{2500}", Tone::ThinkingBar)]),
        row(&[("  \u{2026} first (2 lines)", Tone::MutedItalic)]),
        row(&[("  \u{2514}\u{2500}\u{2500}", Tone::ThinkingBorder)]),
        vec![],
        row(&[("Reasoning [-] ", Tone::ThinkingHeader), ("\u{2500}", Tone::ThinkingBar)]),
        row(&[("  \u{2502} x", Tone::ThinkingText)]),
        row(&[("  \u{2514}\u{2500}\u{2500}", Tone::ThinkingBorder)]),
        vec![],
    ]);
    a.show_thinking = false;
    assert!(transcript(&a).unwrap().is_empty());
}

#[test]
fn system_and_subagent_rows() {
    let mut a = app();
    a.messages.push(ChatEntry::System("note".into()));
    a.messages.push(ChatEntry::SubagentOutput { index: 2, text: "a\nb".into() });
    let rows = transcript(&a).unwrap();
    assert_eq!(rows, vec![
        row(&[("note", Tone::MutedItalic)]),
        vec![],
        row(&[("[agent-2] ", Tone::Muted), ("a", Tone::Plain)]),
        row(&[("[agent-2] ", Tone::Muted), ("b", Tone::Plain)]),
    ]);
}

#[test]
fn waiting_dots_and_streaming_answer() {
    let mut a = app();
    a.waiting_for_response = true;
    a.anim_frame = 2;
    a.tool_output_buffer = "out1\n".into();
    assert_eq!(transcript(&a).unwrap(), vec![
        row(&[("out1", Tone::Muted)]),
        row(&[("Thinking \u{2022}\u{2022}\u{2022}", Tone::ThinkingWaiting)]),
    ]);
    a.tool_output_buffer.clear();
    a.streaming_buffer = "<think>hmm</think>Hello".into();
    assert_eq!(transcript(&a).unwrap(), vec![
        row(&[("Reasoning [-] \u{2500}", Tone::ThinkingHeader)]),
        row(&[("  \u{2502} hmm", Tone::ThinkingText)]),
        row(&[("  \u{2514}\u{2500}\u{2500}", Tone::ThinkingBorder)]),
        row(&[("m1: ", Tone::Assistant), ("Hello", Tone::Plain)]),
    ]);
    a.streaming_buffer = "<think>still".into();
    assert_eq!(transcript(&a).unwrap(), vec![
        row(&[("Reasoning ... \u{2500}", Tone::ThinkingHeader)]),
        row(&[("  \u{2502} still", Tone::ThinkingText)]),
    ]);
}

#[test]
fn entry_that_cannot_be_cut_gives_none() {
    let mut a = app();
    let cut_inside = format!("{}é{}", "a".repeat(119), "b".repeat(10));
    a.messages.push(ChatEntry::ToolCall { name: "shell".into(), command: cut_inside, status: "ok".into() });
    assert!(transcript(&a).is_none());
}
