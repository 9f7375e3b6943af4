//! Subagents: parallel workers, each with its own conversation.
use vstd::prelude::*;
use crate::calls::PartialCalls;
use crate::types::{DefSpec, Message, MessageSpec, ToolCall, ToolDefinition, message_views};

verus! {

/// The state of one subagent.
pub struct SubagentState {
    pub index: usize,
    pub conversation: Vec<Message>,
    pub streaming_buffer: String,
    pub assembling_tool_calls: PartialCalls,
    pub pending_tool_calls: Vec<ToolCall>,
    pub result_parts: Vec<String>,
    pub done: bool,
}

/// The arguments of the `subagent` tool.
pub struct SubagentArgs {
    pub agents: Vec<AgentSpec>,
}

/// One subagent to start: its task and an optional system instruction.
pub struct AgentSpec {
    pub prompt: String,
    pub system: Option<String>,
}

/// The conversation a subagent starts with.
pub open spec fn start_conversation(system: Option<Seq<char>>, prompt: Seq<char>) -> Seq<MessageSpec> {
    let user = MessageSpec { role: "user"@, content: Some(prompt), tool_calls: None, tool_call_id: None };
    match system {
        Some(s) => seq![MessageSpec { role: "system"@, content: Some(s), tool_calls: None, tool_call_id: None }, user],
        None => seq![user],
    }
}

impl SubagentState {
    pub open spec fn wf(&self) -> bool {
        self.assembling_tool_calls.wf()
    }

    /// A fresh subagent: the system instruction, if any, then the task.
    pub fn new(index: usize, system: Option<&str>, prompt: &str) -> (r: SubagentState)
        ensures
            r.index == index,
            message_views(r.conversation@) == start_conversation(
                match system {
                    Some(s) => Some(s@),
                    None => None,
                },
                prompt@,
            ),
            r.streaming_buffer@.len() == 0,
            r.assembling_tool_calls@.len() == 0,
            r.pending_tool_calls@.len() == 0,
            r.result_parts@.len() == 0,
            !r.done,
            r.wf(),
    {
        let mut conversation: Vec<Message> = Vec::new();
        match system {
            Some(sys) => {
                conversation.push(Message::text("system", sys.to_owned()));
            },
            None => {},
        }
        conversation.push(Message::text("user", prompt.to_owned()));
        let r = SubagentState {
            index,
            conversation,
            streaming_buffer: String::new(),
            assembling_tool_calls: PartialCalls::new(),
            pending_tool_calls: Vec::new(),
            result_parts: Vec::new(),
            done: false,
        };
        proof {
            reveal_strlit("system");
            reveal_strlit("user");
        }
        assert(message_views(r.conversation@) =~= start_conversation(
            match system {
                Some(s) => Some(s@),
                None => None,
            },
            prompt@,
        ));
        r
    }
}

/// The JSON schema of the `subagent` tool's arguments.
pub open spec fn subagent_schema() -> Seq<char> {
    "{\"type\":\"object\",\"properties\":{\"agents\":{\"type\":\"array\",\"items\":{\"type\":\"object\",\"properties\":{\"prompt\":{\"type\":\"string\",\"description\":\"The task prompt for this subagent\"},\"system\":{\"type\":\"string\",\"description\":\"Optional system instruction for this subagent\"}},\"required\":[\"prompt\"]},\"description\":\"List of subagents to spawn. All run concurrently.\"}},\"required\":[\"agents\"]}"@
}

/// The definition of the `subagent` tool.
pub open spec fn subagent_def() -> DefSpec {
    DefSpec {
        tool_type: "function"@,
        name: "subagent"@,
        description: "Spawn one or more subagents to handle tasks concurrently. Each subagent gets its own conversation and can use all available tools."@,
        parameters: subagent_schema(),
    }
}

/// The definition of the `subagent` tool offered to the model.
pub fn tool_definition() -> (r: ToolDefinition)
    ensures
        r.view() == subagent_def(),
        r.tool_type@ == "function"@,
        r.function.name@ == "subagent"@,
{
    ToolDefinition::function(
        "subagent",
        "Spawn one or more subagents to handle tasks concurrently. Each subagent gets its own conversation and can use all available tools.",
        "{\"type\":\"object\",\"properties\":{\"agents\":{\"type\":\"array\",\"items\":{\"type\":\"object\",\"properties\":{\"prompt\":{\"type\":\"string\",\"description\":\"The task prompt for this subagent\"},\"system\":{\"type\":\"string\",\"description\":\"Optional system instruction for this subagent\"}},\"required\":[\"prompt\"]},\"description\":\"List of subagents to spawn. All run concurrently.\"}},\"required\":[\"agents\"]}",
    )
}

} // verus!
