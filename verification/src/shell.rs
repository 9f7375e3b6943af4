//! The shell tool: reading the command out of its JSON arguments, and
//! putting its output together.
use vstd::prelude::*;
use crate::text::{append_str, opt_view};
use crate::types::{DefSpec, ToolDefinition};

verus! {

/// What `serde_json` reads as the string under `key` of the JSON object
/// in `text`: `None` when `text` is not JSON, not an object, or has no
/// string under `key`.
pub uninterp spec fn json_string_field(text: Seq<char>, key: Seq<char>) -> Option<Seq<char>>;

/// `serde_json::from_str::<serde_json::Value>`, then `Value::get(key)` and
/// `Value::as_str`. Its result is named by `json_string_field`; nothing
/// more is claimed of it.
#[verifier::external_body]
pub(crate) fn json_str_field(text: &str, key: &str) -> (r: Option<String>)
    ensures
        opt_view(r) == json_string_field(text@, key@),
{
    match serde_json::from_str::<serde_json::Value>(text) {
        Ok(v) => v.get(key).and_then(|c| c.as_str()).map(|c| c.to_owned()),
        Err(_) => None,
    }
}

/// What `serde_json` reads as the length of the array under `key` of the
/// JSON object in `text`: `None` when `text` is not JSON, not an object,
/// or has no array under `key`.
pub uninterp spec fn json_array_field_len(text: Seq<char>, key: Seq<char>) -> Option<usize>;

/// `serde_json::from_str::<serde_json::Value>`, then `Value::get(key)`,
/// `Value::as_array` and the array's `len`. Its result is named by
/// `json_array_field_len`; nothing more is claimed of it.
#[verifier::external_body]
pub(crate) fn json_array_len(text: &str, key: &str) -> (r: Option<usize>)
    ensures
        r == json_array_field_len(text@, key@),
{
    match serde_json::from_str::<serde_json::Value>(text) {
        Ok(v) => v.get(key).and_then(|c| c.as_array()).map(|a| a.len()),
        Err(_) => None,
    }
}

/// The `command` of the shell tool's JSON arguments.
pub fn extract_command(arguments: &str) -> (r: Option<String>)
    ensures
        opt_view(r) == json_string_field(arguments@, "command"@),
{
    json_str_field(arguments, "command")
}

/// The command to run or show for shell arguments: their `command`, or
/// the arguments themselves when they hold none.
pub open spec fn shell_command(arguments: Seq<char>) -> Seq<char> {
    match json_string_field(arguments, "command"@) {
        Some(c) => c,
        None => arguments,
    }
}

/// The command to run or show for shell arguments.
pub fn command_or_arguments(arguments: &str) -> (r: String)
    ensures
        r@ == shell_command(arguments@),
{
    match extract_command(arguments) {
        Some(c) => c,
        None => arguments.to_owned(),
    }
}

/// The text a finished shell command reports: its standard output, then
/// `stderr: ` and its error output (after a newline when both are there),
/// or `(no output)`.
pub open spec fn shell_output_spec(stdout: Seq<char>, stderr: Seq<char>) -> Seq<char> {
    let a = if stderr.len() == 0 {
        stdout
    } else if stdout.len() == 0 {
        "stderr: "@ + stderr
    } else {
        stdout + "\n"@ + "stderr: "@ + stderr
    };
    if a.len() == 0 {
        "(no output)"@
    } else {
        a
    }
}

/// Puts a finished command's output together.
pub fn shell_output(stdout: &str, stderr: &str) -> (r: String)
    ensures
        r@ == shell_output_spec(stdout@, stderr@),
{
    let mut r = String::new();
    if !stdout.is_empty() {
        append_str(&mut r, stdout);
    }
    if !stderr.is_empty() {
        if !r.as_str().is_empty() {
            append_str(&mut r, "\n");
        }
        append_str(&mut r, "stderr: ");
        append_str(&mut r, stderr);
    }
    proof {
        reveal_strlit("stderr: ");
    }
    if r.as_str().is_empty() {
        append_str(&mut r, "(no output)");
    }
    assert(r@ =~= shell_output_spec(stdout@, stderr@));
    r
}

/// How a command's end is reported: a timeout after 120 s, plain
/// completion, or the exit code as `Option` debug text (`Some(2)`, or
/// `None` when a signal ended it).
pub open spec fn exit_report_spec(timed_out: bool, success: bool, code: Option<i32>) -> Seq<char> {
    if timed_out {
        "(command timed out after 120s)"@
    } else if success {
        "(command completed)"@
    } else {
        "(command exited with "@ + match code {
            Some(c) => "Some("@ + crate::num::dec_int(c as int) + ")"@,
            None => "None"@,
        } + ")"@
    }
}

/// The report of a command's end.
pub fn exit_report(timed_out: bool, success: bool, code: Option<i32>) -> (r: String)
    ensures
        r@ == exit_report_spec(timed_out, success, code),
{
    if timed_out {
        "(command timed out after 120s)".to_owned()
    } else if success {
        "(command completed)".to_owned()
    } else {
        let mut s = "(command exited with ".to_owned();
        match code {
            Some(c) => {
                append_str(&mut s, "Some(");
                crate::num::push_i64(&mut s, c as i64);
                append_str(&mut s, ")");
            },
            None => append_str(&mut s, "None"),
        }
        append_str(&mut s, ")");
        s
    }
}

/// Runs shell commands.
pub struct ShellTool;

pub open spec fn shell_def() -> DefSpec {
    DefSpec {
        tool_type: "function"@,
        name: "shell"@,
        description: "Execute a shell command and return its output. Use for running programs, checking files, git operations, etc."@,
        parameters: "{\"type\":\"object\",\"properties\":{\"command\":{\"type\":\"string\",\"description\":\"The shell command to execute\"}},\"required\":[\"command\"]}"@,
    }
}

impl ShellTool {
    pub fn definition(&self) -> (r: ToolDefinition)
        ensures
            r.view() == shell_def(),
    {
        ToolDefinition::function(
            "shell",
            "Execute a shell command and return its output. Use for running programs, checking files, git operations, etc.",
            "{\"type\":\"object\",\"properties\":{\"command\":{\"type\":\"string\",\"description\":\"The shell command to execute\"}},\"required\":[\"command\"]}",
        )
    }
}

} // verus!
