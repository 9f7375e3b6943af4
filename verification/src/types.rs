//! Messages, tool calls and streamed deltas of the OpenAI-compatible chat
//! API.
use vstd::prelude::*;
use crate::text::opt_view;

verus! {

/// One message of a conversation.
pub struct Message {
    pub role: String,
    pub content: Option<String>,
    pub tool_calls: Option<Vec<ToolCall>>,
    pub tool_call_id: Option<String>,
}

/// A tool definition offered to the model. `parameters` is the JSON
/// schema, as JSON text.
pub struct ToolDefinition {
    pub tool_type: String,
    pub function: FunctionDefinition,
}

pub struct FunctionDefinition {
    pub name: String,
    pub description: String,
    pub parameters: String,
}

/// A tool call requested by the model.
pub struct ToolCall {
    pub id: String,
    pub call_type: String,
    pub function: FunctionCall,
}

pub struct FunctionCall {
    pub name: String,
    pub arguments: String,
}

/// Token counts reported by the server.
#[derive(Debug, Clone, Copy, PartialEq, Eq, Structural)]
pub struct Usage {
    pub prompt_tokens: u32,
    pub completion_tokens: u32,
    pub total_tokens: u32,
}

/// One streamed chunk of a chat completion.
pub struct ChatResponse {
    pub id: String,
    pub choices: Vec<Choice>,
    pub usage: Option<Usage>,
}

pub struct Choice {
    pub index: u32,
    pub message: Option<Message>,
    pub delta: Option<DeltaMessage>,
    pub finish_reason: Option<String>,
}

pub struct DeltaMessage {
    pub role: Option<String>,
    pub content: Option<String>,
    pub tool_calls: Option<Vec<DeltaToolCall>>,
}

/// A piece of a tool call; pieces with the same `index` belong to one call.
pub struct DeltaToolCall {
    pub index: u32,
    pub id: Option<String>,
    pub call_type: Option<String>,
    pub function: Option<DeltaFunctionCall>,
}

pub struct DeltaFunctionCall {
    pub name: Option<String>,
    pub arguments: Option<String>,
}

pub struct ModelsResponse {
    pub data: Vec<ModelInfo>,
}

pub struct ModelInfo {
    pub id: String,
}

/// A request for a streamed chat completion.
pub struct ChatRequest {
    pub model: String,
    pub messages: Vec<Message>,
    pub stream: bool,
    pub tools: Option<Vec<ToolDefinition>>,
    pub think: bool,
}

/// What the streaming client reports.
pub enum StreamEvent {
    Token(String),
    ToolCallDelta(DeltaToolCall),
    Usage(Usage),
    Done,
}

// ───────────────────────── views ─────────────────────────

pub struct ToolCallSpec {
    pub id: Seq<char>,
    pub call_type: Seq<char>,
    pub name: Seq<char>,
    pub arguments: Seq<char>,
}

pub struct MessageSpec {
    pub role: Seq<char>,
    pub content: Option<Seq<char>>,
    pub tool_calls: Option<Seq<ToolCallSpec>>,
    pub tool_call_id: Option<Seq<char>>,
}

pub struct DeltaSpec {
    pub index: u32,
    pub id: Option<Seq<char>>,
    pub name: Option<Seq<char>>,
    pub arguments: Option<Seq<char>>,
}

impl ToolCall {
    pub open spec fn view(&self) -> ToolCallSpec {
        ToolCallSpec {
            id: self.id@,
            call_type: self.call_type@,
            name: self.function.name@,
            arguments: self.function.arguments@,
        }
    }

    /// A copy of this call.
    pub fn duplicate(&self) -> (r: ToolCall)
        ensures
            r.view() == self.view(),
    {
        ToolCall {
            id: self.id.clone(),
            call_type: self.call_type.clone(),
            function: FunctionCall {
                name: self.function.name.clone(),
                arguments: self.function.arguments.clone(),
            },
        }
    }
}

pub open spec fn call_views(s: Seq<ToolCall>) -> Seq<ToolCallSpec> {
    s.map_values(|c: ToolCall| c.view())
}

pub fn duplicate_calls(v: &Vec<ToolCall>) -> (r: Vec<ToolCall>)
    ensures
        call_views(r@) == call_views(v@),
{
    let mut out: Vec<ToolCall> = Vec::new();
    let mut i: usize = 0;
    while i < v.len()
        invariant
            i <= v.len(),
            call_views(out@) == call_views(v@).take(i as int),
        decreases v.len() - i,
    {
        let ghost before = call_views(out@);
        let c = v[i].duplicate();
        out.push(c);
        assert(call_views(out@) =~= before.push(v@[i as int].view()));
        i = i + 1;
        assert(call_views(out@) =~= call_views(v@).take(i as int));
    }
    assert(call_views(v@).take(v.len() as int) =~= call_views(v@));
    out
}

impl Message {
    pub open spec fn view(&self) -> MessageSpec {
        MessageSpec {
            role: self.role@,
            content: opt_view(self.content),
            tool_calls: match self.tool_calls {
                Some(v) => Some(call_views(v@)),
                None => None,
            },
            tool_call_id: opt_view(self.tool_call_id),
        }
    }

    /// A message with a role and text only.
    pub fn text(role: &str, content: String) -> (r: Message)
        ensures
            r.view() == (MessageSpec { role: role@, content: Some(content@), tool_calls: None, tool_call_id: None }),
    {
        Message { role: role.to_owned(), content: Some(content), tool_calls: None, tool_call_id: None }
    }

    /// A copy of this message.
    pub fn duplicate(&self) -> (r: Message)
        ensures
            r.view() == self.view(),
    {
        Message {
            role: self.role.clone(),
            content: match &self.content {
                Some(c) => Some(c.clone()),
                None => None,
            },
            tool_calls: match &self.tool_calls {
                Some(v) => Some(duplicate_calls(v)),
                None => None,
            },
            tool_call_id: match &self.tool_call_id {
                Some(c) => Some(c.clone()),
                None => None,
            },
        }
    }
}

pub open spec fn message_views(s: Seq<Message>) -> Seq<MessageSpec> {
    s.map_values(|m: Message| m.view())
}

pub fn duplicate_messages(v: &Vec<Message>) -> (r: Vec<Message>)
    ensures
        message_views(r@) == message_views(v@),
{
    let mut out: Vec<Message> = Vec::new();
    let mut i: usize = 0;
    while i < v.len()
        invariant
            i <= v.len(),
            message_views(out@) == message_views(v@).take(i as int),
        decreases v.len() - i,
    {
        let ghost before = message_views(out@);
        let c = v[i].duplicate();
        out.push(c);
        assert(message_views(out@) =~= before.push(v@[i as int].view()));
        i = i + 1;
        assert(message_views(out@) =~= message_views(v@).take(i as int));
    }
    assert(message_views(v@).take(v.len() as int) =~= message_views(v@));
    out
}

impl DeltaToolCall {
    pub open spec fn view(&self) -> DeltaSpec {
        DeltaSpec {
            index: self.index,
            id: opt_view(self.id),
            name: match self.function {
                Some(f) => opt_view(f.name),
                None => None,
            },
            arguments: match self.function {
                Some(f) => opt_view(f.arguments),
                None => None,
            },
        }
    }

    /// A copy of this delta.
    pub fn duplicate(&self) -> (r: DeltaToolCall)
        ensures
            r.view() == self.view(),
            r.call_type == self.call_type,
    {
        DeltaToolCall {
            index: self.index,
            id: match &self.id {
                Some(c) => Some(c.clone()),
                None => None,
            },
            call_type: match &self.call_type {
                Some(c) => Some(c.clone()),
                None => None,
            },
            function: match &self.function {
                Some(f) => Some(DeltaFunctionCall {
                    name: match &f.name {
                        Some(c) => Some(c.clone()),
                        None => None,
                    },
                    arguments: match &f.arguments {
                        Some(c) => Some(c.clone()),
                        None => None,
                    },
                }),
                None => None,
            },
        }
    }
}

/// The text of a tool definition.
pub struct DefSpec {
    pub tool_type: Seq<char>,
    pub name: Seq<char>,
    pub description: Seq<char>,
    pub parameters: Seq<char>,
}

pub open spec fn def_views(s: Seq<ToolDefinition>) -> Seq<DefSpec> {
    s.map_values(|d: ToolDefinition| d.view())
}

/// The text of a request.
pub struct RequestSpec {
    pub model: Seq<char>,
    pub messages: Seq<MessageSpec>,
    pub stream: bool,
    pub tools: Option<Seq<DefSpec>>,
    pub think: bool,
}

impl ChatRequest {
    pub open spec fn view(&self) -> RequestSpec {
        RequestSpec {
            model: self.model@,
            messages: message_views(self.messages@),
            stream: self.stream,
            tools: match self.tools {
                Some(t) => Some(def_views(t@)),
                None => None,
            },
            think: self.think,
        }
    }
}

impl ToolDefinition {
    pub open spec fn name(&self) -> Seq<char> {
        self.function.name@
    }

    pub open spec fn view(&self) -> DefSpec {
        DefSpec {
            tool_type: self.tool_type@,
            name: self.function.name@,
            description: self.function.description@,
            parameters: self.function.parameters@,
        }
    }

    /// A `function` tool definition.
    pub fn function(name: &str, description: &str, parameters: &str) -> (r: ToolDefinition)
        ensures
            r.view() == (DefSpec { tool_type: "function"@, name: name@, description: description@, parameters: parameters@ }),
            r.tool_type@ == "function"@,
            r.function.name@ == name@,
            r.function.description@ == description@,
            r.function.parameters@ == parameters@,
    {
        ToolDefinition {
            tool_type: "function".to_owned(),
            function: FunctionDefinition {
                name: name.to_owned(),
                description: description.to_owned(),
                parameters: parameters.to_owned(),
            },
        }
    }

    /// A copy of this definition.
    pub fn duplicate(&self) -> (r: ToolDefinition)
        ensures
            r == *self,
    {
        ToolDefinition {
            tool_type: self.tool_type.clone(),
            function: FunctionDefinition {
                name: self.function.name.clone(),
                description: self.function.description.clone(),
                parameters: self.function.parameters.clone(),
            },
        }
    }
}

pub fn duplicate_defs(v: &Vec<ToolDefinition>) -> (r: Vec<ToolDefinition>)
    ensures
        r@ == v@,
{
    let mut out: Vec<ToolDefinition> = Vec::new();
    let mut i: usize = 0;
    while i < v.len()
        invariant
            i <= v.len(),
            out@ == v@.take(i as int),
        decreases v.len() - i,
    {
        out.push(v[i].duplicate());
        i = i + 1;
        assert(out@ =~= v@.take(i as int));
    }
    assert(v@.take(v.len() as int) =~= v@);
    out
}

} // verus!
