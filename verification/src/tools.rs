//! The file tools offered to the model: their definitions, and the text
//! they report.
use vstd::prelude::*;
use crate::num::dec;
use crate::text::append_str;
use crate::types::{DefSpec, ToolDefinition};

verus! {

/// Reads a file.
pub struct ReadFileTool;

/// Writes a file.
pub struct WriteFileTool;

/// Lists a directory.
pub struct ListFilesTool;

pub open spec fn read_file_def() -> DefSpec {
    DefSpec {
        tool_type: "function"@,
        name: "read_file"@,
        description: "Read the contents of a file at the given path."@,
        parameters: "{\"type\":\"object\",\"properties\":{\"path\":{\"type\":\"string\",\"description\":\"File path to read\"}},\"required\":[\"path\"]}"@,
    }
}

pub open spec fn write_file_def() -> DefSpec {
    DefSpec {
        tool_type: "function"@,
        name: "write_file"@,
        description: "Write content to a file at the given path. Creates the file if it doesn't exist, overwrites if it does."@,
        parameters: "{\"type\":\"object\",\"properties\":{\"path\":{\"type\":\"string\",\"description\":\"File path to write\"},\"content\":{\"type\":\"string\",\"description\":\"Content to write\"}},\"required\":[\"path\",\"content\"]}"@,
    }
}

pub open spec fn list_files_def() -> DefSpec {
    DefSpec {
        tool_type: "function"@,
        name: "list_files"@,
        description: "List files in a directory. Optionally filter with a glob pattern."@,
        parameters: "{\"type\":\"object\",\"properties\":{\"path\":{\"type\":\"string\",\"description\":\"Directory path to list\"},\"pattern\":{\"type\":\"string\",\"description\":\"Optional glob pattern (e.g. '*.rs')\"}},\"required\":[\"path\"]}"@,
    }
}

impl ReadFileTool {
    pub fn definition(&self) -> (r: ToolDefinition)
        ensures
            r.view() == read_file_def(),
    {
        ToolDefinition::function(
            "read_file",
            "Read the contents of a file at the given path.",
            "{\"type\":\"object\",\"properties\":{\"path\":{\"type\":\"string\",\"description\":\"File path to read\"}},\"required\":[\"path\"]}",
        )
    }
}

impl WriteFileTool {
    pub fn definition(&self) -> (r: ToolDefinition)
        ensures
            r.view() == write_file_def(),
    {
        ToolDefinition::function(
            "write_file",
            "Write content to a file at the given path. Creates the file if it doesn't exist, overwrites if it does.",
            "{\"type\":\"object\",\"properties\":{\"path\":{\"type\":\"string\",\"description\":\"File path to write\"},\"content\":{\"type\":\"string\",\"description\":\"Content to write\"}},\"required\":[\"path\",\"content\"]}",
        )
    }

    /// The report of a write of `bytes` bytes to `path`.
    pub fn report(bytes: u64, path: &str) -> (r: String)
        ensures
            r@ == "Wrote "@ + dec(bytes as nat) + " bytes to "@ + path@,
    {
        let mut s = "Wrote ".to_owned();
        crate::num::push_u64(&mut s, bytes);
        append_str(&mut s, " bytes to ");
        append_str(&mut s, path);
        proof {
            reveal_strlit("Wrote ");
        }
        s
    }
}

/// The glob a listing uses: `<path>/<pattern>`, or `<path>/*`.
pub open spec fn list_glob_spec(path: Seq<char>, pattern: Option<Seq<char>>) -> Seq<char> {
    match pattern {
        Some(p) => path + "/"@ + p,
        None => path + "/*"@,
    }
}

impl ListFilesTool {
    pub fn definition(&self) -> (r: ToolDefinition)
        ensures
            r.view() == list_files_def(),
    {
        ToolDefinition::function(
            "list_files",
            "List files in a directory. Optionally filter with a glob pattern.",
            "{\"type\":\"object\",\"properties\":{\"path\":{\"type\":\"string\",\"description\":\"Directory path to list\"},\"pattern\":{\"type\":\"string\",\"description\":\"Optional glob pattern (e.g. '*.rs')\"}},\"required\":[\"path\"]}",
        )
    }

    /// The glob pattern of a listing.
    pub fn glob_pattern(path: &str, pattern: Option<&str>) -> (r: String)
        ensures
            r@ == list_glob_spec(path@, match pattern {
                Some(p) => Some(p@),
                None => None,
            }),
    {
        let mut s = path.to_owned();
        match pattern {
            Some(p) => {
                append_str(&mut s, "/");
                append_str(&mut s, p);
            },
            None => append_str(&mut s, "/*"),
        }
        s
    }
}

} // verus!
