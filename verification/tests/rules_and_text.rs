use llama_chat::chunk::{split, OVERLAP_TOKENS, WINDOW_TOKENS};
use llama_chat::config::AppConfig;
use llama_chat::mdc::extract_mdc_globs;
use llama_chat::memory::{parse, Command, Kind, Scope};
use llama_chat::permissions::glob_match;
use llama_chat::retrieval::fts_safe;
use llama_chat::skills::{extract_field, parse_mdc_frontmatter, split_frontmatter};
use llama_chat::subagent::SubagentState;
use llama_chat::background::truncate_args;

// ───── editor rule files ─────

#[test]
fn parse_always_apply_mdc() {
    let text = "---\nalwaysApply: true\n---\n\n# Rust Standards\n\nUse edition 2024.";
    let (fm, content) = parse_mdc_frontmatter(text).unwrap();
    assert!(fm.contains("alwaysApply: true"));
    assert!(content.contains("Rust Standards"));
}

#[test]
fn extract_list_globs() {
    let fm = "description: test\nglobs:\n  - src/**/*.rs\n  - tests/*.rs\nalwaysApply: false";
    let globs = extract_mdc_globs(fm);
    assert_eq!(globs, vec!["src/**/*.rs", "tests/*.rs"]);
}

#[test]
fn extract_inline_globs() {
    let fm = "globs: \"*.ts\", \"*.tsx\"\nalwaysApply: false";
    let globs = extract_mdc_globs(fm);
    assert_eq!(globs, vec!["*.ts", "*.tsx"]);
}

#[test]
fn no_globs_no_always_apply_skipped() {
    let fm = "description: manual rule\nalwaysApply: false";
    let globs = extract_mdc_globs(fm);
    assert!(globs.is_empty());
}

#[test]
fn parse_mdc_no_frontmatter() {
    let text = "Just content, no frontmatter.";
    let (fm, content) = parse_mdc_frontmatter(text).unwrap();
    assert!(fm.is_empty());
    assert_eq!(content, text);
}

#[test]
fn parse_mdc_unclosed_frontmatter() {
    let text = "---\nalwaysApply: true\nContent without closing.";
    let result = parse_mdc_frontmatter(text);
    assert!(result.is_none());
}

#[test]
fn extract_mdc_globs_comment_in_list() {
    let fm = "globs:\n  - src/**/*.rs\n  # comment\n  - tests/*.rs";
    let globs = extract_mdc_globs(fm);
    assert_eq!(globs, vec!["src/**/*.rs", "tests/*.rs"]);
}

#[test]
fn extract_mdc_globs_ends_on_non_list_line() {
    let fm = "globs:\n  - *.rs\ndescription: some rule";
    let globs = extract_mdc_globs(fm);
    assert_eq!(globs, vec!["*.rs"]);
}

#[test]
fn extract_mdc_globs_single_inline_glob() {
    let fm = "globs: *.py\nalwaysApply: false";
    let globs = extract_mdc_globs(fm);
    assert_eq!(globs, vec!["*.py"]);
}

#[test]
fn extract_mdc_globs_empty_inline() {
    let fm = "globs:\nalwaysApply: false";
    let globs = extract_mdc_globs(fm);
    assert!(globs.is_empty());
}

// ───── settings ─────

#[test]
fn default_config_has_local_server() {
    let config = AppConfig::default();
    assert!(config.contains_server("local"));
    assert_eq!(config.defaults.server, "local");
    assert_eq!(config.defaults.model, "llama3:8b");
}

#[test]
fn default_config_theme_is_dark() {
    let config = AppConfig::default();
    assert_eq!(config.theme.preset, "dark");
    assert!(config.theme.colors.is_empty());
}

#[test]
fn server_config_api_key_is_optional() {
    let config = AppConfig::default();
    let local = config.server("local").unwrap();
    assert!(local.api_key.is_none());
    assert_eq!(local.url, "http://localhost:11434/v1");
}

// ───── chunking ─────

#[test]
fn empty_input_produces_nothing() {
    assert!(split("").is_empty());
    assert!(split("   \t\n").is_empty());
}

#[test]
fn short_input_one_chunk() {
    let chunks = split("hello world this is short");
    assert_eq!(chunks.len(), 1);
    assert_eq!(chunks[0].token_count, 5);
}

#[test]
fn exactly_window_one_chunk() {
    let text: String = (0..WINDOW_TOKENS).map(|i| format!("w{i} ")).collect();
    let chunks = split(text.trim());
    assert_eq!(chunks.len(), 1);
    assert_eq!(chunks[0].token_count, WINDOW_TOKENS);
}

#[test]
fn longer_than_window_overlaps() {
    let text: String = (0..WINDOW_TOKENS + 100).map(|i| format!("w{i} ")).collect();
    let chunks = split(text.trim());
    assert!(chunks.len() >= 2);
    let c0: Vec<&str> = chunks[0].text.split_whitespace().collect();
    let c1: Vec<&str> = chunks[1].text.split_whitespace().collect();
    let tail = &c0[c0.len() - OVERLAP_TOKENS..];
    let head = &c1[..OVERLAP_TOKENS];
    assert_eq!(tail, head);
}

#[test]
fn utf8_safe() {
    let text = "αβγ δεζ ηθι κλμ";
    let chunks = split(text);
    assert_eq!(chunks.len(), 1);
    assert_eq!(chunks[0].token_count, 4);
}

// ───── memory commands ─────

#[test]
fn parse_non_memory_returns_none() {
    assert!(parse("/exit").is_none());
    assert!(parse("hello").is_none());
}

#[test]
fn parse_remember_defaults() {
    let cmd = parse("/remember I prefer terse replies").unwrap().unwrap();
    match cmd {
        Command::Remember { content, scope, kind } => {
            assert_eq!(content, "I prefer terse replies");
            assert_eq!(scope, Scope::Project);
            assert_eq!(kind, Kind::Project);
        }
        _ => panic!(),
    }
}

#[test]
fn parse_remember_global_feedback() {
    let cmd = parse("/remember --global --kind=feedback no emojis").unwrap().unwrap();
    match cmd {
        Command::Remember { scope, kind, content } => {
            assert_eq!(scope, Scope::Global);
            assert_eq!(kind, Kind::Feedback);
            assert_eq!(content, "no emojis");
        }
        _ => panic!(),
    }
}

#[test]
fn parse_remember_empty_errors() {
    let err = parse("/remember").unwrap().unwrap_err();
    assert!(err.contains("usage"));
}

#[test]
fn parse_forget_needs_id() {
    assert!(parse("/forget").unwrap().is_err());
    assert_eq!(parse("/forget 42").unwrap().unwrap(), Command::Forget { id: 42, scope: Scope::Project });
    assert_eq!(parse("/forget --global 7").unwrap().unwrap(), Command::Forget { id: 7, scope: Scope::Global });
}

#[test]
fn parse_memory_subs() {
    assert_eq!(parse("/memory reindex").unwrap().unwrap(), Command::Reindex);
    assert_eq!(parse("/memory accept").unwrap().unwrap(), Command::Accept);
    assert_eq!(parse("/memory disable").unwrap().unwrap(), Command::Disable);
    match parse("/memory list --scope=global").unwrap().unwrap() {
        Command::List { scope, .. } => assert_eq!(scope, Some(Scope::Global)),
        _ => panic!(),
    }
}

#[test]
fn fts_safe_escapes_quotes_and_joins() {
    let q = fts_safe(r#"hello "world" foo"#);
    assert!(q.contains("OR"));
    assert!(!q.contains(r#""""#));
}

// ───── skills ─────

#[test]
fn parse_frontmatter() {
    let text = "---\nname: review\ndescription: Review code\n---\n\nCheck the code for bugs.";
    let (fm, content) = split_frontmatter(text);
    assert!(fm.contains("name: review"));
    assert_eq!(content.trim(), "Check the code for bugs.");
}

#[test]
fn extract_fields() {
    let fm = "name: review\ndescription: Review code for bugs";
    assert_eq!(extract_field(fm, "name"), Some("review".into()));
    assert_eq!(extract_field(fm, "description"), Some("Review code for bugs".into()));
    assert_eq!(extract_field(fm, "missing"), None);
}

#[test]
fn no_frontmatter() {
    let text = "Just some content without frontmatter.";
    let (fm, content) = split_frontmatter(text);
    assert!(fm.is_empty());
    assert_eq!(content, text);
}

#[test]
fn extract_field_with_quotes() {
    let fm = "name: \"quoted-name\"\ndescription: 'single-quoted'";
    assert_eq!(extract_field(fm, "name"), Some("quoted-name".into()));
    assert_eq!(extract_field(fm, "description"), Some("single-quoted".into()));
}

#[test]
fn split_frontmatter_unclosed_delimiters() {
    let text = "---\nname: test\nContent without closing delimiter.";
    let (fm, content) = split_frontmatter(text);
    assert!(fm.is_empty());
    assert!(content.starts_with("---"));
}

// ───── subagents ─────

#[test]
fn subagent_state_new_with_system() {
    let state = SubagentState::new(0, Some("be helpful"), "do X");
    assert_eq!(state.index, 0);
    assert_eq!(state.conversation.len(), 2);
    assert_eq!(state.conversation[0].role, "system");
    assert_eq!(state.conversation[0].content.as_deref(), Some("be helpful"));
    assert_eq!(state.conversation[1].role, "user");
    assert_eq!(state.conversation[1].content.as_deref(), Some("do X"));
    assert!(!state.done);
}

#[test]
fn subagent_state_new_without_system() {
    let state = SubagentState::new(1, None, "do Y");
    assert_eq!(state.conversation.len(), 1);
    assert_eq!(state.conversation[0].role, "user");
}

// ───── background progress ─────

#[test]
fn truncate_args_short_string() {
    assert_eq!(truncate_args("hello", 10), "hello");
}

#[test]
fn truncate_args_exact_length() {
    assert_eq!(truncate_args("12345", 5), "12345");
}

#[test]
fn truncate_args_long_string() {
    let result = truncate_args("hello world", 5);
    assert_eq!(result, "hello...");
}

// ───── permission patterns ─────

#[test]
fn exact_match() {
    assert!(glob_match("git status", "git status"));
    assert!(!glob_match("git status", "git diff"));
}

#[test]
fn wildcard_suffix() {
    assert!(glob_match("git *", "git status"));
    assert!(glob_match("git *", "git diff --cached"));
    assert!(!glob_match("git *", "cargo build"));
}

#[test]
fn wildcard_middle() {
    assert!(glob_match("ls * src/", "ls -la src/"));
    assert!(!glob_match("ls * src/", "ls -la tests/"));
}

#[test]
fn wildcard_prefix() {
    assert!(glob_match("* --help", "cargo --help"));
    assert!(!glob_match("* --help", "cargo build"));
}

#[test]
fn bare_star() {
    assert!(glob_match("*", "anything at all"));
}

#[test]
fn multiple_wildcards() {
    assert!(glob_match("a*b*c", "axbxc"));
    assert!(glob_match("a*b*c", "abbbc"));
    assert!(!glob_match("a*b*c", "axbxd"));
    assert!(!glob_match("a*b*c", "xbxc"));
}

#[test]
fn middle_part_not_found() {
    assert!(!glob_match("a*xyz*c", "abc"));
}

#[test]
fn double_wildcard() {
    assert!(glob_match("**", "anything"));
    assert!(glob_match("a**b", "aXb"));
}

#[test]
fn chunker_losslessness() {
    let long = "word ".repeat(1200);
    let inputs = ["short one", "a b c d e f g h i j", long.as_str()];
    for input in inputs {
        let chunks = split(input);
        if chunks.is_empty() {
            assert!(input.trim().is_empty());
            continue;
        }
        let mut reconstructed: Vec<String> = chunks[0].text.split_whitespace().map(|s| s.to_string()).collect();
        for c in &chunks[1..] {
            let tail: Vec<&str> = c.text.split_whitespace().skip(OVERLAP_TOKENS).collect();
            for t in tail {
                reconstructed.push(t.to_string());
            }
        }
        let expected: Vec<String> = input.split_whitespace().map(|s| s.to_string()).collect();
        assert_eq!(reconstructed, expected);
    }
}

#[test]
fn memory_with_optional_limit_lists() {
    assert_eq!(parse("/memory").unwrap().unwrap(), Command::List { scope: None, limit: 50 });
    assert_eq!(parse("/memory 10").unwrap().unwrap(), Command::List { scope: None, limit: 10 });
    assert_eq!(parse("/memory list").unwrap().unwrap(), Command::List { scope: None, limit: 50 });
    assert_eq!(parse("/memory 5 --scope=project").unwrap().unwrap(), Command::List { scope: Some(Scope::Project), limit: 5 });
    assert!(parse("/memory -3").unwrap().is_err());
    assert!(parse("/memory frob").unwrap().is_err());
}

#[test]
fn rule_matches_pieces_between_stars_in_order() {
    assert!(glob_match("a*b*c", "aXXbYc"));
    assert!(glob_match("a*b*c", "abc"));
    assert!(!glob_match("a*b*c", "acb"));
    assert!(glob_match("*", ""));
    assert!(!glob_match("ab", "abc"));
}

#[test]
fn thousand_words_make_three_windows() {
    let input: Vec<String> = (0..1000).map(|i| format!("w{i}")).collect();
    let chunks = split(&input.join(" "));
    assert_eq!(chunks.len(), 3);
    let counts: Vec<usize> = chunks.iter().map(|c| c.token_count).collect();
    assert_eq!(counts, vec![500, 500, 100]);
    for c in &chunks {
        assert_eq!(c.text.split_whitespace().count(), c.token_count);
    }
    assert!(chunks[2].text.starts_with("w900 "));
    assert!(chunks[1].text.starts_with("w450 "));
}
