//! The chat session: the transcript, the conversation sent to the model,
//! the tool calls that wait, and the permission decisions. Each step takes
//! the session and an event and returns what its runner has to do next
//! (start a stream, run a tool, hand a result back); the runner performs
//! that work and feeds the outcome back as the next event.
use vstd::prelude::*;
use crate::background::{BackgroundTaskManager, DoneSpec, TaskSpec};
use crate::calls::{PartialCalls, entry_calls};
use crate::config::{AppConfig, ServerConfig};
use crate::memory::{Kind, Scope};
use crate::num::dec;
use crate::permissions::{PermissionManager, wild};
use crate::skills::SkillSet;
use crate::subagent::{AgentSpec, SubagentState};
use crate::text::{append_str, join, opt_view, string_views, trim};
use crate::theme::Theme;
use crate::types::{
    ChatRequest, DefSpec, Message, MessageSpec, RequestSpec, ToolCall, ToolCallSpec, ToolDefinition,
    Usage, call_views, def_views, message_views,
};

verus! {

// ───────────────────────── transcript entries ─────────────────────────

/// One entry of the transcript shown to the user.
#[allow(inconsistent_fields)]
pub enum ChatEntry {
    User(String),
    Assistant(String),
    Thinking { content: String, collapsed: bool },
    ToolCall { name: String, command: String, status: String },
    ToolOutput(String),
    System(String),
    SubagentOutput { index: usize, text: String },
}

#[allow(inconsistent_fields)]
pub enum EntrySpec {
    User(Seq<char>),
    Assistant(Seq<char>),
    Thinking { content: Seq<char>, collapsed: bool },
    ToolCall { name: Seq<char>, command: Seq<char>, status: Seq<char> },
    ToolOutput(Seq<char>),
    System(Seq<char>),
    SubagentOutput { index: usize, text: Seq<char> },
}

impl ChatEntry {
    pub open spec fn view(&self) -> EntrySpec {
        match self {
            ChatEntry::User(s) => EntrySpec::User(s@),
            ChatEntry::Assistant(s) => EntrySpec::Assistant(s@),
            ChatEntry::Thinking { content, collapsed } => EntrySpec::Thinking { content: content@, collapsed: *collapsed },
            ChatEntry::ToolCall { name, command, status } => EntrySpec::ToolCall {
                name: name@,
                command: command@,
                status: status@,
            },
            ChatEntry::ToolOutput(s) => EntrySpec::ToolOutput(s@),
            ChatEntry::System(s) => EntrySpec::System(s@),
            ChatEntry::SubagentOutput { index, text } => EntrySpec::SubagentOutput { index: *index, text: text@ },
        }
    }
}

pub open spec fn entry_views(s: Seq<ChatEntry>) -> Seq<EntrySpec> {
    s.map_values(|e: ChatEntry| e.view())
}

/// A tool call that waits for the user's permission.
pub struct PendingPermission {
    pub tool_name: String,
    pub command: String,
    pub tool_call_id: String,
    pub arguments: String,
}

pub struct PermSpec {
    pub tool_name: Seq<char>,
    pub command: Seq<char>,
    pub tool_call_id: Seq<char>,
    pub arguments: Seq<char>,
}

impl PendingPermission {
    pub open spec fn view(&self) -> PermSpec {
        PermSpec {
            tool_name: self.tool_name@,
            command: self.command@,
            tool_call_id: self.tool_call_id@,
            arguments: self.arguments@,
        }
    }
}

pub open spec fn perm_view(p: Option<PendingPermission>) -> Option<PermSpec> {
    match p {
        Some(x) => Some(x.view()),
        None => None,
    }
}

/// One item of the model's todo list.
pub struct TodoItem {
    pub text: String,
    pub done: bool,
}

pub open spec fn todo_views(s: Seq<TodoItem>) -> Seq<(Seq<char>, bool)> {
    s.map_values(|t: TodoItem| (t.text@, t.done))
}

/// A tool of an MCP server: the name offered to the model, the server,
/// and the tool's own name there.
pub struct McpRoute {
    pub tool: String,
    pub server: String,
    pub real_name: String,
}

pub open spec fn route_views(s: Seq<McpRoute>) -> Seq<(Seq<char>, Seq<char>, Seq<char>)> {
    s.map_values(|r: McpRoute| (r.tool@, r.server@, r.real_name@))
}

// ───────────────────────── what the runner does ─────────────────────────

/// Tools whose arguments the runner decodes into their own shapes.
#[derive(PartialEq, Eq, Structural, Clone, Copy, Debug)]
pub enum ArgsKind {
    Todo,
    TodoComplete,
    BgStatus,
    BgCancel,
    BgRun,
    Subagent,
}

/// The arguments of `bg_run`: the inner tool, its arguments as JSON text,
/// and the task's label.
pub struct BgRunArgs {
    pub tool: String,
    pub arguments: String,
    pub label: String,
}

/// Decoded tool arguments, or the decoder's error message.
pub enum ParsedArgs {
    Todo(Result<Vec<String>, String>),
    TodoComplete(Result<usize, String>),
    BgStatus(Option<String>),
    BgCancel(Result<String, String>),
    BgRun(Result<BgRunArgs, String>),
    Subagent(Result<Vec<AgentSpec>, String>),
}

/// Work for the runner.
#[allow(inconsistent_fields)]
pub enum Effect {
    /// Stream a completion of the main conversation.
    StartStream(ChatRequest),
    /// Stream a completion of a subagent's conversation.
    StartSubagentStream { index: usize, request: ChatRequest },
    /// Hand a tool's result back to the main conversation.
    ToolResult { tool_call_id: String, result: String, success: bool },
    /// Hand a tool's result back to a subagent.
    SubagentToolResult { index: usize, tool_call_id: String, result: String, success: bool },
    /// Decode a tool's arguments and come back with `finish_tool_call`.
    ParseArgs { subagent: Option<usize>, call_id: String, kind: ArgsKind, arguments: String },
    /// Run a shell command for the main conversation (output streamed)
    /// or for a subagent (output captured).
    RunShell { subagent: Option<usize>, call_id: String, command: String },
    /// Run a file tool.
    RunTool { subagent: Option<usize>, call_id: String, tool_name: String, arguments: String },
    /// Call a tool of an MCP server.
    CallMcp { call_id: String, server: String, tool: String, arguments: String },
    /// Start a background task that was registered under `label`.
    SpawnBackground { label: String, tool_name: String, arguments: String },
    /// Signal the runner of a background task to stop.
    AbortBackground(String),
    /// Signal every background runner to stop.
    AbortAllBackground,
    /// Stop the running completion stream.
    AbortStream,
    /// Fetch the server's model list.
    ListModels,
    /// Check whether the project has an `AGENTS.md`, and come back with
    /// `init_agents`.
    CheckAgentsFile,
    /// Save the permission rules.
    SavePermissions,
    /// Recall memories for `query`, and come back with `submit_message`.
    RecallMemory { query: String },
    BeginMemorySession { server: String, model: String },
    ArchiveTurn { role: String, content: String },
    ExtractMemories { model: String },
    MemorySave { content: String, kind: Kind, scope: Scope },
    MemoryForget { id: i64, scope: Scope },
    MemoryList { scopes: Vec<Scope>, limit: u64 },
}

#[allow(inconsistent_fields)]
pub enum EffectSpec {
    StartStream(RequestSpec),
    StartSubagentStream { index: usize, request: RequestSpec },
    ToolResult { tool_call_id: Seq<char>, result: Seq<char>, success: bool },
    SubagentToolResult { index: usize, tool_call_id: Seq<char>, result: Seq<char>, success: bool },
    ParseArgs { subagent: Option<usize>, call_id: Seq<char>, kind: ArgsKind, arguments: Seq<char> },
    RunShell { subagent: Option<usize>, call_id: Seq<char>, command: Seq<char> },
    RunTool { subagent: Option<usize>, call_id: Seq<char>, tool_name: Seq<char>, arguments: Seq<char> },
    CallMcp { call_id: Seq<char>, server: Seq<char>, tool: Seq<char>, arguments: Seq<char> },
    SpawnBackground { label: Seq<char>, tool_name: Seq<char>, arguments: Seq<char> },
    AbortBackground(Seq<char>),
    AbortAllBackground,
    AbortStream,
    ListModels,
    CheckAgentsFile,
    SavePermissions,
    RecallMemory { query: Seq<char> },
    BeginMemorySession { server: Seq<char>, model: Seq<char> },
    ArchiveTurn { role: Seq<char>, content: Seq<char> },
    ExtractMemories { model: Seq<char> },
    MemorySave { content: Seq<char>, kind: Kind, scope: Scope },
    MemoryForget { id: i64, scope: Scope },
    MemoryList { scopes: Seq<Scope>, limit: u64 },
}

impl Effect {
    pub open spec fn view(&self) -> EffectSpec {
        match self {
            Effect::StartStream(r) => EffectSpec::StartStream(r.view()),
            Effect::StartSubagentStream { index, request } => EffectSpec::StartSubagentStream {
                index: *index,
                request: request.view(),
            },
            Effect::ToolResult { tool_call_id, result, success } => EffectSpec::ToolResult {
                tool_call_id: tool_call_id@,
                result: result@,
                success: *success,
            },
            Effect::SubagentToolResult { index, tool_call_id, result, success } => EffectSpec::SubagentToolResult {
                index: *index,
                tool_call_id: tool_call_id@,
                result: result@,
                success: *success,
            },
            Effect::ParseArgs { subagent, call_id, kind, arguments } => EffectSpec::ParseArgs {
                subagent: *subagent,
                call_id: call_id@,
                kind: *kind,
                arguments: arguments@,
            },
            Effect::RunShell { subagent, call_id, command } => EffectSpec::RunShell {
                subagent: *subagent,
                call_id: call_id@,
                command: command@,
            },
            Effect::RunTool { subagent, call_id, tool_name, arguments } => EffectSpec::RunTool {
                subagent: *subagent,
                call_id: call_id@,
                tool_name: tool_name@,
                arguments: arguments@,
            },
            Effect::CallMcp { call_id, server, tool, arguments } => EffectSpec::CallMcp {
                call_id: call_id@,
                server: server@,
                tool: tool@,
                arguments: arguments@,
            },
            Effect::SpawnBackground { label, tool_name, arguments } => EffectSpec::SpawnBackground {
                label: label@,
                tool_name: tool_name@,
                arguments: arguments@,
            },
            Effect::AbortBackground(l) => EffectSpec::AbortBackground(l@),
            Effect::AbortAllBackground => EffectSpec::AbortAllBackground,
            Effect::AbortStream => EffectSpec::AbortStream,
            Effect::ListModels => EffectSpec::ListModels,
            Effect::CheckAgentsFile => EffectSpec::CheckAgentsFile,
            Effect::SavePermissions => EffectSpec::SavePermissions,
            Effect::RecallMemory { query } => EffectSpec::RecallMemory { query: query@ },
            Effect::BeginMemorySession { server, model } => EffectSpec::BeginMemorySession {
                server: server@,
                model: model@,
            },
            Effect::ArchiveTurn { role, content } => EffectSpec::ArchiveTurn { role: role@, content: content@ },
            Effect::ExtractMemories { model } => EffectSpec::ExtractMemories { model: model@ },
            Effect::MemorySave { content, kind, scope } => EffectSpec::MemorySave {
                content: content@,
                kind: *kind,
                scope: *scope,
            },
            Effect::MemoryForget { id, scope } => EffectSpec::MemoryForget { id: *id, scope: *scope },
            Effect::MemoryList { scopes, limit } => EffectSpec::MemoryList { scopes: scopes@, limit: *limit },
        }
    }
}

pub open spec fn effect_views(s: Seq<Effect>) -> Seq<EffectSpec> {
    s.map_values(|e: Effect| e.view())
}

// ───────────────────────── the session ─────────────────────────

/// The state of a subagent as seen by the session.
pub struct SubagentView {
    pub index: usize,
    pub conversation: Seq<MessageSpec>,
    pub streaming_buffer: Seq<char>,
    pub assembling: Seq<(u32, ToolCallSpec)>,
    pub pending: Seq<ToolCallSpec>,
    pub result_parts: Seq<Seq<char>>,
    pub done: bool,
}

pub open spec fn subagent_view(s: SubagentState) -> SubagentView {
    SubagentView {
        index: s.index,
        conversation: message_views(s.conversation@),
        streaming_buffer: s.streaming_buffer@,
        assembling: s.assembling_tool_calls@,
        pending: call_views(s.pending_tool_calls@),
        result_parts: string_views(s.result_parts@),
        done: s.done,
    }
}

pub open spec fn subagent_views(s: Seq<SubagentState>) -> Seq<SubagentView> {
    s.map_values(|x: SubagentState| subagent_view(x))
}

/// The session.
pub struct App {
    pub messages: Vec<ChatEntry>,
    pub conversation: Vec<Message>,
    pub input_buffer: String,
    pub streaming_buffer: String,
    pub active_model: String,
    pub active_server_name: String,
    pub tool_count: usize,
    pub pending_permission: Option<PendingPermission>,
    pub pattern_input: Option<String>,
    pub yolo: bool,
    pub should_quit: bool,
    pub show_thinking: bool,
    pub config: AppConfig,
    pub theme: Theme,
    /// The server the completions go to.
    pub server: ServerConfig,
    /// The definitions of the built-in tools, and how many there are.
    pub builtin_tool_defs: Vec<ToolDefinition>,
    pub builtin_tool_count: usize,
    pub permissions: PermissionManager,
    pub skills: SkillSet,
    pub mcp_tool_defs: Vec<ToolDefinition>,
    pub mcp_tool_map: Vec<McpRoute>,
    pub mcp_server_names: Vec<String>,
    pub pending_tool_calls: Vec<ToolCall>,
    pub assembling_tool_calls: PartialCalls,
    pub session_allow: Vec<String>,
    pub tool_output_buffer: String,
    pub thinking_buffer: String,
    pub in_thinking: bool,
    pub waiting_for_response: bool,
    pub anim_frame: u8,
    pub todo_items: Vec<TodoItem>,
    pub server_healthy: Option<bool>,
    pub last_token_usage: Option<Usage>,
    pub streaming_token_count: u32,
    pub subagent_states: Vec<SubagentState>,
    pub subagents_pending: usize,
    pub consecutive_errors: u32,
    pub subagent_call_id: Option<String>,
    pub bg_tasks: BackgroundTaskManager,
    pub memory_enabled: bool,
    pub memory_session_id: Option<i64>,
    pub memory_disabled_reason: Option<String>,
}

/// The invariants of a session: tool-call pieces kept in index order,
/// background labels, skill names, server keys and MCP tool names each
/// used once.
pub open spec fn view_wf(v: AppView) -> bool {
    &&& crate::calls::sorted(v.assembling)
    &&& crate::background::labels_unique(v.bg_tasks)
    &&& crate::skills::names_unique(v.skills)
    &&& v.config.wf()
    &&& routes_unique(v.mcp_tool_map)
    &&& forall|i: int| 0 <= i < v.subagents.len() ==> crate::calls::sorted(#[trigger] v.subagents[i].assembling)
}

/// The session's state as values.
#[verifier::ext_equal]
pub struct AppView {
    pub messages: Seq<EntrySpec>,
    pub conversation: Seq<MessageSpec>,
    pub input_buffer: Seq<char>,
    pub streaming_buffer: Seq<char>,
    pub active_model: Seq<char>,
    pub active_server_name: Seq<char>,
    pub tool_count: usize,
    pub pending_permission: Option<PermSpec>,
    pub pattern_input: Option<Seq<char>>,
    pub yolo: bool,
    pub should_quit: bool,
    pub show_thinking: bool,
    pub config: AppConfig,
    pub theme: Theme,
    pub server: ServerConfig,
    pub builtin_tool_defs: Seq<DefSpec>,
    pub builtin_tool_count: usize,
    pub permissions: Seq<Seq<char>>,
    pub skills: Seq<(Seq<char>, Seq<char>, Seq<char>)>,
    pub mcp_tool_defs: Seq<DefSpec>,
    pub mcp_tool_map: Seq<(Seq<char>, Seq<char>, Seq<char>)>,
    pub mcp_server_names: Seq<Seq<char>>,
    pub pending_tool_calls: Seq<ToolCallSpec>,
    pub assembling: Seq<(u32, ToolCallSpec)>,
    pub session_allow: Seq<Seq<char>>,
    pub tool_output_buffer: Seq<char>,
    pub thinking_buffer: Seq<char>,
    pub in_thinking: bool,
    pub waiting_for_response: bool,
    pub anim_frame: u8,
    pub todo_items: Seq<(Seq<char>, bool)>,
    pub server_healthy: Option<bool>,
    pub last_token_usage: Option<Usage>,
    pub streaming_token_count: u32,
    pub subagents: Seq<SubagentView>,
    pub subagents_pending: usize,
    pub consecutive_errors: u32,
    pub subagent_call_id: Option<Seq<char>>,
    pub bg_tasks: Seq<TaskSpec>,
    pub bg_queue: Seq<DoneSpec>,
    pub memory_enabled: bool,
    pub memory_session_id: Option<i64>,
    pub memory_disabled_reason: Option<Seq<char>>,
}

impl App {
    pub open spec fn view(&self) -> AppView {
        AppView {
            messages: entry_views(self.messages@),
            conversation: message_views(self.conversation@),
            input_buffer: self.input_buffer@,
            streaming_buffer: self.streaming_buffer@,
            active_model: self.active_model@,
            active_server_name: self.active_server_name@,
            tool_count: self.tool_count,
            pending_permission: perm_view(self.pending_permission),
            pattern_input: opt_view(self.pattern_input),
            yolo: self.yolo,
            should_quit: self.should_quit,
            show_thinking: self.show_thinking,
            config: self.config,
            theme: self.theme,
            server: self.server,
            builtin_tool_defs: def_views(self.builtin_tool_defs@),
            builtin_tool_count: self.builtin_tool_count,
            permissions: self.permissions.rules(),
            skills: self.skills@,
            mcp_tool_defs: def_views(self.mcp_tool_defs@),
            mcp_tool_map: route_views(self.mcp_tool_map@),
            mcp_server_names: string_views(self.mcp_server_names@),
            pending_tool_calls: call_views(self.pending_tool_calls@),
            assembling: self.assembling_tool_calls@,
            session_allow: string_views(self.session_allow@),
            tool_output_buffer: self.tool_output_buffer@,
            thinking_buffer: self.thinking_buffer@,
            in_thinking: self.in_thinking,
            waiting_for_response: self.waiting_for_response,
            anim_frame: self.anim_frame,
            todo_items: todo_views(self.todo_items@),
            server_healthy: self.server_healthy,
            last_token_usage: self.last_token_usage,
            streaming_token_count: self.streaming_token_count,
            subagents: subagent_views(self.subagent_states@),
            subagents_pending: self.subagents_pending,
            consecutive_errors: self.consecutive_errors,
            subagent_call_id: opt_view(self.subagent_call_id),
            bg_tasks: self.bg_tasks.tasks_view(),
            bg_queue: self.bg_tasks.queue_view(),
            memory_enabled: self.memory_enabled,
            memory_session_id: self.memory_session_id,
            memory_disabled_reason: opt_view(self.memory_disabled_reason),
        }
    }

    /// The invariants every step keeps.
    pub open spec fn wf(&self) -> bool {
        view_wf(self@)
    }
}


// ───────────────────────── tool definitions ─────────────────────────

pub open spec fn todo_schema() -> Seq<char> {
    "{\"type\":\"object\",\"properties\":{\"items\":{\"type\":\"array\",\"items\":{\"type\":\"string\"},\"description\":\"List of todo item descriptions\"}},\"required\":[\"items\"]}"@
}

pub open spec fn todo_complete_schema() -> Seq<char> {
    "{\"type\":\"object\",\"properties\":{\"index\":{\"type\":\"integer\",\"description\":\"Zero-based index of the todo item to mark complete\"}},\"required\":[\"index\"]}"@
}

pub open spec fn wipe_todo_schema() -> Seq<char> {
    "{\"type\":\"object\",\"properties\":{}}"@
}

/// The definitions of the todo tools.
pub open spec fn todo_defs_spec() -> Seq<DefSpec> {
    seq![
        DefSpec {
            tool_type: "function"@,
            name: "todo"@,
            description: "Create a todo list for tracking task progress. Replaces any existing list."@,
            parameters: todo_schema(),
        },
        DefSpec {
            tool_type: "function"@,
            name: "todo_complete"@,
            description: "Mark a todo item as completed by its zero-based index."@,
            parameters: todo_complete_schema(),
        },
        DefSpec {
            tool_type: "function"@,
            name: "wipe_todo"@,
            description: "Clear the entire todo list to start fresh."@,
            parameters: wipe_todo_schema(),
        },
    ]
}

/// Every tool offered to the model: the built-in ones, the MCP ones, the
/// todo tools and `subagent`.
pub open spec fn all_tool_defs(v: AppView) -> Seq<DefSpec> {
    v.builtin_tool_defs + v.mcp_tool_defs + todo_defs_spec() + seq![crate::subagent::subagent_def()]
}

/// A streamed request for `messages` with every tool offered.
pub open spec fn request_for(v: AppView, messages: Seq<MessageSpec>) -> RequestSpec {
    RequestSpec { model: v.active_model, messages, stream: true, tools: Some(all_tool_defs(v)), think: true }
}

/// The transcript with one more entry.
pub open spec fn say(v: AppView, e: EntrySpec) -> AppView {
    AppView { messages: v.messages.push(e), ..v }
}

pub open spec fn system_msg(content: Seq<char>) -> MessageSpec {
    MessageSpec { role: "system"@, content: Some(content), tool_calls: None, tool_call_id: None }
}

pub open spec fn user_msg(content: Seq<char>) -> MessageSpec {
    MessageSpec { role: "user"@, content: Some(content), tool_calls: None, tool_call_id: None }
}

pub open spec fn assistant_msg(content: Seq<char>) -> MessageSpec {
    MessageSpec { role: "assistant"@, content: Some(content), tool_calls: None, tool_call_id: None }
}

pub open spec fn tool_msg(content: Seq<char>, id: Seq<char>) -> MessageSpec {
    MessageSpec { role: "tool"@, content: Some(content), tool_calls: None, tool_call_id: Some(id) }
}

/// The state after a stream was started: waiting, no token counted yet.
pub open spec fn streaming_started(v: AppView) -> AppView {
    AppView { waiting_for_response: true, streaming_token_count: 0, ..v }
}

impl App {
    /// Shows or hides the thinking blocks.
    pub fn toggle_thinking(&mut self)
        ensures
            final(self)@ == (AppView { show_thinking: !old(self)@.show_thinking, ..old(self)@ }),
    {
        self.show_thinking = !self.show_thinking;
    }

    /// The definitions of the todo tools.
    pub fn todo_tool_definitions(&self) -> (r: Vec<ToolDefinition>)
        ensures
            def_views(r@) == todo_defs_spec(),
    {
        let mut v: Vec<ToolDefinition> = Vec::new();
        v.push(ToolDefinition::function(
            "todo",
            "Create a todo list for tracking task progress. Replaces any existing list.",
            "{\"type\":\"object\",\"properties\":{\"items\":{\"type\":\"array\",\"items\":{\"type\":\"string\"},\"description\":\"List of todo item descriptions\"}},\"required\":[\"items\"]}",
        ));
        v.push(ToolDefinition::function(
            "todo_complete",
            "Mark a todo item as completed by its zero-based index.",
            "{\"type\":\"object\",\"properties\":{\"index\":{\"type\":\"integer\",\"description\":\"Zero-based index of the todo item to mark complete\"}},\"required\":[\"index\"]}",
        ));
        v.push(ToolDefinition::function(
            "wipe_todo",
            "Clear the entire todo list to start fresh.",
            "{\"type\":\"object\",\"properties\":{}}",
        ));
        assert(def_views(v@) =~= todo_defs_spec());
        v
    }

    /// Every tool offered to the model.
    pub fn tool_definitions(&self) -> (r: Vec<ToolDefinition>)
        ensures
            def_views(r@) == all_tool_defs(self@),
    {
        let mut v = crate::types::duplicate_defs(&self.builtin_tool_defs);
        let mut m = crate::types::duplicate_defs(&self.mcp_tool_defs);
        v.append(&mut m);
        assert(def_views(v@) =~= def_views(self.builtin_tool_defs@) + def_views(self.mcp_tool_defs@));
        let mut t = self.todo_tool_definitions();
        let ghost tv = def_views(t@);
        let ghost pre = def_views(v@);
        v.append(&mut t);
        assert(def_views(v@) =~= pre + tv);
        let ghost b = def_views(v@);
        v.push(crate::subagent::tool_definition());
        assert(def_views(v@) =~= b.push(crate::subagent::subagent_def()));
        v
    }

    /// Starts streaming the model's answer to the conversation.
    pub fn start_streaming(&mut self) -> (r: Effect)
        ensures
            final(self)@ == streaming_started(old(self)@),
            r.view() == EffectSpec::StartStream(request_for(old(self)@, old(self)@.conversation)),
    {
        self.waiting_for_response = true;
        self.streaming_token_count = 0;
        let tools = self.tool_definitions();
        let request = ChatRequest {
            model: self.active_model.clone(),
            messages: crate::types::duplicate_messages(&self.conversation),
            stream: true,
            tools: Some(tools),
            think: true,
        };
        Effect::StartStream(request)
    }

    /// Clears the todo list.
    pub fn handle_wipe_todo(&mut self) -> (r: String)
        ensures
            final(self)@ == (AppView { todo_items: seq![], ..old(self)@ }),
            r@ == "Todo list cleared"@,
    {
        self.todo_items.clear();
        assert(todo_views(self.todo_items@) =~= Seq::<(Seq<char>, bool)>::empty());
        "Todo list cleared".to_owned()
    }

    /// Replaces the todo list with the decoded items (none done), or
    /// reports why the arguments could not be decoded.
    pub fn handle_todo_tool(&mut self, parsed: Result<Vec<String>, String>) -> (r: String)
        ensures
            match parsed {
                Ok(items) => {
                    &&& final(self)@ == (AppView {
                        todo_items: string_views(items@).map_values(|t: Seq<char>| (t, false)),
                        ..old(self)@
                    })
                    &&& r@ == "Added "@ + dec(items@.len()) + " items"@
                },
                Err(e) => final(self)@ == old(self)@ && r@ == "Invalid todo arguments: "@ + e@,
            },
    {
        match parsed {
            Ok(items) => {
                let n = items.len();
                let mut list: Vec<TodoItem> = Vec::new();
                let mut i: usize = 0;
                while i < items.len()
                    invariant
                        i <= items.len(),
                        todo_views(list@) == string_views(items@).take(i as int).map_values(|t: Seq<char>| (t, false)),
                    decreases items.len() - i,
                {
                    let ghost before = todo_views(list@);
                    list.push(TodoItem { text: items[i].clone(), done: false });
                    assert(todo_views(list@) =~= before.push((items@[i as int]@, false)));
                    i = i + 1;
                    assert(todo_views(list@) =~= string_views(items@).take(i as int).map_values(|t: Seq<char>| (t, false)));
                }
                assert(string_views(items@).take(items.len() as int) =~= string_views(items@));
                self.todo_items = list;
                let mut s = "Added ".to_owned();
                crate::num::push_u64(&mut s, n as u64);
                append_str(&mut s, " items");
                proof {
                    reveal_strlit("Added ");
                }
                s
            },
            Err(e) => {
                let mut s = "Invalid todo arguments: ".to_owned();
                append_str(&mut s, e.as_str());
                s
            },
        }
    }

    /// Marks the item at the decoded index done.
    pub fn handle_todo_complete(&mut self, parsed: Result<usize, String>) -> (r: Result<String, String>)
        ensures
            match parsed {
                Ok(i) => if i < old(self)@.todo_items.len() {
                    &&& final(self)@ == (AppView {
                        todo_items: old(self)@.todo_items.update(i as int, (old(self)@.todo_items[i as int].0, true)),
                        ..old(self)@
                    })
                    &&& r matches Ok(s) && s@ == "Completed: "@ + old(self)@.todo_items[i as int].0
                } else {
                    &&& final(self)@ == old(self)@
                    &&& r matches Err(s) && s@ == "Invalid todo index: "@ + dec(i as nat)
                },
                Err(e) => final(self)@ == old(self)@ && (r matches Err(s) && s@ == "Invalid todo_complete arguments: "@ + e@),
            },
    {
        match parsed {
            Ok(i) => {
                if i < self.todo_items.len() {
                    let mut item = self.todo_items.remove(i);
                    item.done = true;
                    let mut s = "Completed: ".to_owned();
                    append_str(&mut s, item.text.as_str());
                    self.todo_items.insert(i, item);
                    assert(todo_views(self.todo_items@) =~= todo_views(old(self).todo_items@).update(
                        i as int,
                        (old(self)@.todo_items[i as int].0, true),
                    ));
                    Ok(s)
                } else {
                    let mut s = "Invalid todo index: ".to_owned();
                    crate::num::push_u64(&mut s, i as u64);
                    Err(s)
                }
            },
            Err(e) => {
                let mut s = "Invalid todo_complete arguments: ".to_owned();
                append_str(&mut s, e.as_str());
                Err(s)
            },
        }
    }
}


// ───────────────────────── the model's answer ─────────────────────────

pub open spec fn keep_if_text(s: Seq<char>) -> Seq<char> {
    if trim(s).len() > 0 {
        s
    } else {
        seq![]
    }
}

pub open spec fn trimmed_if_text(s: Seq<char>) -> Seq<Seq<char>> {
    if trim(s).len() > 0 {
        seq![trim(s)]
    } else {
        seq![]
    }
}

/// A finished answer split into its thinking blocks (trimmed, blank ones
/// left out) and the text around them (blank pieces before a block left
/// out). A block left open runs to the end.
pub open spec fn reply_split(r: Seq<char>) -> (Seq<Seq<char>>, Seq<char>)
    decreases r.len(),
{
    if r.len() == 0 {
        (seq![], seq![])
    } else {
        match crate::text::find(r, crate::display::open_tag()) {
            None => (seq![], r),
            Some(s) => if 0 <= s && s + 7 <= r.len() {
                let after = r.skip(s + 7);
                match crate::text::find(after, crate::display::close_tag()) {
                    Some(e) => if 0 <= e && e + 8 <= after.len() {
                        let (ts, a) = reply_split(after.skip(e + 8));
                        (trimmed_if_text(after.take(e)) + ts, keep_if_text(r.take(s)) + a)
                    } else {
                        (seq![], r)
                    },
                    None => (trimmed_if_text(after), keep_if_text(r.take(s))),
                }
            } else {
                (seq![], r)
            },
        }
    }
}

/// `len() as u32 / 4` of a message's content, as estimated tokens.
pub open spec fn content_estimate(c: Option<Seq<char>>) -> int {
    match c {
        Some(t) => ((crate::display::byte_len(t) % 0x1_0000_0000) / 4) as int,
        None => 0,
    }
}

/// The estimated prompt tokens of a conversation: about four bytes each.
pub open spec fn prompt_estimate(conv: Seq<MessageSpec>) -> int
    decreases conv.len(),
{
    if conv.len() == 0 {
        0
    } else {
        prompt_estimate(conv.drop_last()) + content_estimate(conv.last().content)
    }
}

/// Whether the usage of an answer is to be estimated.
pub open spec fn estimates_usage(v: AppView) -> bool {
    v.last_token_usage is None && v.streaming_token_count > 0
}

/// The estimate fits in the counters.
pub open spec fn usage_fits(v: AppView) -> bool {
    estimates_usage(v) ==> prompt_estimate(v.conversation) + v.streaming_token_count <= u32::MAX
}

/// The usage after an answer: the server's, else an estimate.
pub open spec fn usage_after(v: AppView) -> Option<Usage> {
    if estimates_usage(v) {
        let p = prompt_estimate(v.conversation);
        Some(Usage {
            prompt_tokens: p as u32,
            completion_tokens: v.streaming_token_count,
            total_tokens: (p + v.streaming_token_count) as u32,
        })
    } else {
        v.last_token_usage
    }
}

pub open spec fn think_entries(ts: Seq<Seq<char>>) -> Seq<EntrySpec> {
    ts.map_values(|t: Seq<char>| EntrySpec::Thinking { content: t, collapsed: false })
}

/// The streamed text turned into transcript entries and an assistant
/// message (kept whole, tags and all), and archived when a memory session
/// is open.
#[verifier::opaque]
pub open spec fn text_stage(v: AppView) -> (AppView, Seq<EffectSpec>) {
    if v.streaming_buffer.len() == 0 {
        (v, seq![])
    } else {
        let text = v.streaming_buffer;
        let (ts, a) = reply_split(text);
        let shown = if trim(a).len() > 0 {
            seq![EntrySpec::Assistant(trim(a))]
        } else {
            seq![]
        };
        (
            AppView {
                streaming_buffer: seq![],
                messages: v.messages + think_entries(ts) + shown,
                conversation: v.conversation.push(assistant_msg(text)),
                ..v
            },
            if v.memory_enabled && v.memory_session_id is Some && trim(text).len() > 0 {
                seq![EffectSpec::ArchiveTurn { role: "assistant"@, content: text }]
            } else {
                seq![]
            },
        )
    }
}

// ───────────────────────── tool calls ─────────────────────────

/// A call runs without asking: everything is allowed, or the tool is
/// allowed for the session, or a saved rule matches its key.
pub open spec fn allowed(v: AppView, name: Seq<char>, key: Seq<char>) -> bool {
    v.yolo || v.session_allow.contains(name) || exists|i: int|
        0 <= i < v.permissions.len() && wild(#[trigger] v.permissions[i], key)
}

/// What is shown of a call: a shell call's command, else its arguments.
pub open spec fn display_for(name: Seq<char>, args: Seq<char>) -> Seq<char> {
    if name == "shell"@ {
        crate::shell::shell_command(args)
    } else {
        args
    }
}

/// What saved rules are matched against: a shell call's command, else the
/// tool's name, a space and its arguments.
pub open spec fn key_for(name: Seq<char>, args: Seq<char>) -> Seq<char> {
    if name == "shell"@ {
        crate::shell::shell_command(args)
    } else {
        name + " "@ + args
    }
}

pub open spec fn is_file_tool(name: Seq<char>) -> bool {
    name == "read_file"@ || name == "write_file"@ || name == "edit_file"@ || name == "list_files"@
}

/// The tools whose arguments the runner decodes.
pub open spec fn args_kind(name: Seq<char>) -> Option<ArgsKind> {
    if name == "todo"@ {
        Some(ArgsKind::Todo)
    } else if name == "todo_complete"@ {
        Some(ArgsKind::TodoComplete)
    } else if name == "bg_status"@ {
        Some(ArgsKind::BgStatus)
    } else if name == "bg_cancel"@ {
        Some(ArgsKind::BgCancel)
    } else if name == "bg_run"@ {
        Some(ArgsKind::BgRun)
    } else if name == "subagent"@ {
        Some(ArgsKind::Subagent)
    } else {
        None
    }
}

/// No two routes share a tool name.
pub open spec fn routes_unique(m: Seq<(Seq<char>, Seq<char>, Seq<char>)>) -> bool {
    forall|i: int, j: int| 0 <= i < m.len() && 0 <= j < m.len() && i != j ==> m[i].0 != m[j].0
}

/// A route added as a map adds it: it replaces the route with the same
/// tool name, or comes last.
pub open spec fn route_insert(m: Seq<(Seq<char>, Seq<char>, Seq<char>)>, r: (Seq<char>, Seq<char>, Seq<char>)) -> Seq<(Seq<char>, Seq<char>, Seq<char>)> {
    if exists|i: int| 0 <= i < m.len() && (#[trigger] m[i]).0 == r.0 {
        m.update(choose|i: int| 0 <= i < m.len() && (#[trigger] m[i]).0 == r.0, r)
    } else {
        m.push(r)
    }
}

/// Routes added in order.
pub open spec fn route_insert_all(m: Seq<(Seq<char>, Seq<char>, Seq<char>)>, rs: Seq<(Seq<char>, Seq<char>, Seq<char>)>) -> Seq<(Seq<char>, Seq<char>, Seq<char>)>
    decreases rs.len(),
{
    if rs.len() == 0 {
        m
    } else {
        route_insert(route_insert_all(m, rs.drop_last()), rs.last())
    }
}

/// The routes of a server's tools: `mcp_<server>_<tool>` to the tool.
pub open spec fn server_routes(server: Seq<char>, tools: Seq<(Seq<char>, Seq<char>, Seq<char>)>) -> Seq<(Seq<char>, Seq<char>, Seq<char>)> {
    tools.map_values(|t: (Seq<char>, Seq<char>, Seq<char>)| ("mcp_"@ + server + "_"@ + t.0, server, t.0))
}

/// Adding a route keeps tool names unique.
pub proof fn lemma_route_insert_unique(m: Seq<(Seq<char>, Seq<char>, Seq<char>)>, r: (Seq<char>, Seq<char>, Seq<char>))
    requires
        routes_unique(m),
    ensures
        routes_unique(route_insert(m, r)),
{
    if exists|i: int| 0 <= i < m.len() && (#[trigger] m[i]).0 == r.0 {
        let k = choose|i: int| 0 <= i < m.len() && (#[trigger] m[i]).0 == r.0;
        let m2 = m.update(k, r);
        assert forall|i: int, j: int| 0 <= i < m2.len() && 0 <= j < m2.len() && i != j implies m2[i].0 != m2[j].0 by {
            if i == k {
                assert(m[j].0 != m[k].0);
            } else if j == k {
                assert(m[i].0 != m[k].0);
            }
        }
    } else {
        let m2 = m.push(r);
        assert forall|i: int, j: int| 0 <= i < m2.len() && 0 <= j < m2.len() && i != j implies m2[i].0 != m2[j].0 by {
            if i == m.len() {
                assert(m2[j] == m[j]);
            } else if j == m.len() {
                assert(m2[i] == m[i]);
            }
        }
    }
}

/// The first MCP route for a tool name: its server and the tool's own name.
pub open spec fn mcp_lookup(m: Seq<(Seq<char>, Seq<char>, Seq<char>)>, name: Seq<char>) -> Option<(Seq<char>, Seq<char>)>
    decreases m.len(),
{
    if m.len() == 0 {
        None
    } else if m[0].0 == name {
        Some((m[0].1, m[0].2))
    } else {
        mcp_lookup(m.skip(1), name)
    }
}

pub open spec fn tool_result(id: Seq<char>, result: Seq<char>, success: bool) -> EffectSpec {
    EffectSpec::ToolResult { tool_call_id: id, result, success }
}

/// Running a call of the main conversation: it leaves the queue, and its
/// work goes to the runner (or, for `wipe_todo`, is done at once).
#[verifier::opaque]
pub open spec fn execute_spec(v: AppView, tc: ToolCallSpec) -> (AppView, Seq<EffectSpec>) {
    let v1 = AppView { pending_tool_calls: v.pending_tool_calls.skip(1), ..v };
    let id = tc.id;
    let name = tc.name;
    let args = tc.arguments;
    match args_kind(name) {
        Some(k) => (v1, seq![EffectSpec::ParseArgs { subagent: None, call_id: id, kind: k, arguments: args }]),
        None => if name == "wipe_todo"@ {
            (AppView { todo_items: seq![], ..v1 }, seq![tool_result(id, "Todo list cleared"@, true)])
        } else if crate::text::starts_with(name, "mcp_"@) {
            match mcp_lookup(v.mcp_tool_map, name) {
                Some(route) => if v.mcp_server_names.contains(route.0) {
                    (v1, seq![EffectSpec::CallMcp { call_id: id, server: route.0, tool: route.1, arguments: args }])
                } else {
                    (v1, seq![tool_result(id, "MCP server not found for tool: "@ + name, false)])
                },
                None => (v1, seq![tool_result(id, "Unknown MCP tool: "@ + name, false)]),
            }
        } else if name == "shell"@ {
            (v1, seq![EffectSpec::RunShell { subagent: None, call_id: id, command: crate::shell::shell_command(args) }])
        } else if is_file_tool(name) {
            (v1, seq![EffectSpec::RunTool { subagent: None, call_id: id, tool_name: name, arguments: args }])
        } else {
            (v1, seq![tool_result(id, "unknown tool"@, false)])
        },
    }
}

/// The next queued call: run it when allowed, else ask; with none left,
/// stream the model's next answer.
#[verifier::opaque]
pub open spec fn process_next_spec(v: AppView) -> (AppView, Seq<EffectSpec>) {
    if v.pending_tool_calls.len() == 0 {
        (streaming_started(v), seq![EffectSpec::StartStream(request_for(v, v.conversation))])
    } else {
        let tc = v.pending_tool_calls[0];
        let d = display_for(tc.name, tc.arguments);
        if allowed(v, tc.name, key_for(tc.name, tc.arguments)) {
            execute_spec(say(v, EntrySpec::ToolCall { name: tc.name, command: d, status: "allowed"@ }), tc)
        } else {
            (
                AppView {
                    pending_permission: Some(
                        PermSpec { tool_name: tc.name, command: d, tool_call_id: tc.id, arguments: tc.arguments },
                    ),
                    ..say(v, EntrySpec::ToolCall { name: tc.name, command: d, status: "pending"@ })
                },
                seq![],
            )
        }
    }
}

/// The end of an answer: waiting and thinking end, usage is known, the
/// text goes to the transcript and the conversation, and the assembled
/// tool calls are queued and the first one processed.
#[verifier::opaque]
pub open spec fn finalize_spec(v: AppView) -> (AppView, Seq<EffectSpec>) {
    let v0 = AppView {
        waiting_for_response: false,
        in_thinking: false,
        thinking_buffer: seq![],
        last_token_usage: usage_after(v),
        ..v
    };
    let (v1, e1) = text_stage(v0);
    if v1.assembling.len() == 0 {
        (v1, e1)
    } else {
        let calls = entry_calls(v1.assembling);
        let v2 = AppView {
            assembling: seq![],
            conversation: v1.conversation.push(
                MessageSpec { role: "assistant"@, content: None, tool_calls: Some(calls), tool_call_id: None },
            ),
            pending_tool_calls: calls,
            ..v1
        };
        let (v3, e3) = process_next_spec(v2);
        (v3, e1 + e3)
    }
}


// ───────────────────────── executable steps ─────────────────────────

/// Whether `name` is one of `list`.
pub(crate) fn contains_str(list: &Vec<String>, name: &str) -> (r: bool)
    ensures
        r == string_views(list@).contains(name@),
{
    let n = crate::text::chars_of(name);
    let mut i: usize = 0;
    while i < list.len()
        invariant
            i <= list.len(),
            n@ == name@,
            forall|j: int| 0 <= j < i ==> string_views(list@)[j] != name@,
        decreases list.len() - i,
    {
        if crate::text::chars_eq_str(&n, list[i].as_str()) {
            assert(string_views(list@)[i as int] == name@);
            return true;
        }
        i = i + 1;
    }
    false
}

/// The route of an MCP tool.
/// The position of the route for tool `name`, if any.
fn route_index(map: &Vec<McpRoute>, name: &str) -> (r: Option<usize>)
    ensures
        match r {
            Some(k) => k < map.len() && route_views(map@)[k as int].0 == name@,
            None => forall|k: int| 0 <= k < map.len() ==> (#[trigger] route_views(map@)[k]).0 != name@,
        },
{
    let n = crate::text::chars_of(name);
    let mut i: usize = 0;
    while i < map.len()
        invariant
            i <= map.len(),
            n@ == name@,
            forall|k: int| 0 <= k < i ==> (#[trigger] route_views(map@)[k]).0 != name@,
        decreases map.len() - i,
    {
        assert(route_views(map@)[i as int].0 == map@[i as int].tool@);
        if crate::text::chars_eq_str(&n, map[i].tool.as_str()) {
            return Some(i);
        }
        i = i + 1;
    }
    None
}

pub(crate) fn find_route(map: &Vec<McpRoute>, name: &str) -> (r: Option<(String, String)>)
    ensures
        match r {
            Some(p) => mcp_lookup(route_views(map@), name@) == Some((p.0@, p.1@)),
            None => mcp_lookup(route_views(map@), name@) is None,
        },
{
    let n = crate::text::chars_of(name);
    let mut i: usize = 0;
    assert(route_views(map@).skip(0) =~= route_views(map@));
    while i < map.len()
        invariant
            i <= map.len(),
            n@ == name@,
            mcp_lookup(route_views(map@), name@) == mcp_lookup(route_views(map@).skip(i as int), name@),
        decreases map.len() - i,
    {
        let ghost rest = route_views(map@).skip(i as int);
        assert(rest[0] == (map@[i as int].tool@, map@[i as int].server@, map@[i as int].real_name@));
        if crate::text::chars_eq_str(&n, map[i].tool.as_str()) {
            return Some((map[i].server.clone(), map[i].real_name.clone()));
        }
        assert(rest.skip(1) =~= route_views(map@).skip(i + 1));
        i = i + 1;
    }
    None
}

/// The byte length of `s`, modulo 2^32 (`s.len() as u32`).
fn byte_len_u32(s: &str) -> (r: u32)
    ensures
        r as int == crate::display::byte_len(s@) % 0x1_0000_0000,
{
    let v = crate::text::chars_of(s);
    let mut b: u32 = 0;
    let mut i: usize = 0;
    assert(v@.take(0) =~= Seq::<char>::empty());
    while i < v.len()
        invariant
            i <= v.len(),
            v@ == s@,
            b as int == crate::display::byte_len(v@.take(i as int)) % 0x1_0000_0000,
        decreases v.len() - i,
    {
        let w = crate::display::utf8_len_exec(v[i]) as u32;
        assert(v@.take(i + 1).drop_last() =~= v@.take(i as int));
        let ghost x = crate::display::byte_len(v@.take(i as int)) as int;
        proof {
            vstd::arithmetic::div_mod::lemma_add_mod_noop(x, w as int, 0x1_0000_0000);
            assert((w as int) % 0x1_0000_0000 == w as int);
        }
        b = if b > u32::MAX - w { w - (u32::MAX - b) - 1 } else { b + w };
        i = i + 1;
    }
    assert(v@.take(v.len() as int) =~= v@);
    b
}

/// Thinking blocks and surrounding text of a finished answer.
fn reply_split_exec(text: &Vec<char>) -> (r: (Vec<String>, Vec<char>))
    ensures
        (string_views(r.0@), r.1@) == reply_split(text@),
{
    let open = crate::text::chars_of("<think>");
    let close = crate::text::chars_of("</think>");
    proof {
        reveal_strlit("<think>");
        reveal_strlit("</think>");
    }
    let mut thinks: Vec<String> = Vec::new();
    let mut said: Vec<char> = Vec::new();
    let mut rem: Vec<char> = crate::text::slice_of(text, 0, text.len());
    assert(rem@ =~= text@);
    while rem.len() > 0
        invariant
            open@ == crate::display::open_tag(),
            close@ == crate::display::close_tag(),
            (string_views(thinks@) + reply_split(rem@).0, said@ + reply_split(rem@).1) == reply_split(text@),
        decreases rem.len(),
    {
        proof {
            reveal_strlit("<think>");
            reveal_strlit("</think>");
        }
        let ghost r0 = rem@;
        let ghost t0 = string_views(thinks@);
        let ghost a0 = said@;
        match crate::text::find_exec(&rem, &open) {
            None => {
                crate::text::append_chars(&mut said, &rem);
                rem = Vec::new();
                assert(reply_split(rem@) == (Seq::<Seq<char>>::empty(), Seq::<char>::empty()));
                assert(string_views(thinks@) + reply_split(rem@).0 =~= t0 + reply_split(r0).0);
                assert(said@ + reply_split(rem@).1 =~= a0 + reply_split(r0).1);
            },
            Some(s) => {
                let before = crate::text::slice_of(&rem, 0, s);
                let after = crate::text::slice_of(&rem, s + 7, rem.len());
                assert(before@ =~= r0.take(s as int));
                assert(after@ =~= r0.skip(s + 7));
                let keep_before = crate::text::trim_chars(&before).len() > 0;
                match crate::text::find_exec(&after, &close) {
                    Some(e) => {
                        let th = crate::text::slice_of(&after, 0, e);
                        assert(th@ =~= after@.take(e as int));
                        let tt = crate::text::trim_string(&th);
                        let ghost tb = string_views(thinks@);
                        if !tt.as_str().is_empty() {
                            thinks.push(tt);
                        }
                        assert(string_views(thinks@) =~= tb + trimmed_if_text(after@.take(e as int))) by {
                            if trim(th@).len() > 0 {
                                assert(string_views(thinks@) =~= tb.push(trim(th@)));
                            }
                        }
                        if keep_before {
                            crate::text::append_chars(&mut said, &before);
                        }
                        assert(said@ =~= a0 + keep_if_text(r0.take(s as int)));
                        let next = crate::text::slice_of(&after, e + 8, after.len());
                        assert(next@ =~= after@.skip(e + 8));
                        rem = next;
                        assert(string_views(thinks@) + reply_split(rem@).0 =~= t0 + reply_split(r0).0);
                        assert(said@ + reply_split(rem@).1 =~= a0 + reply_split(r0).1);
                    },
                    None => {
                        let tt = crate::text::trim_string(&after);
                        let ghost tb = string_views(thinks@);
                        if !tt.as_str().is_empty() {
                            thinks.push(tt);
                        }
                        assert(string_views(thinks@) =~= tb + trimmed_if_text(after@)) by {
                            if trim(after@).len() > 0 {
                                assert(string_views(thinks@) =~= tb.push(trim(after@)));
                            }
                        }
                        if keep_before {
                            crate::text::append_chars(&mut said, &before);
                        }
                        rem = Vec::new();
                        assert(reply_split(rem@) == (Seq::<Seq<char>>::empty(), Seq::<char>::empty()));
                        assert(string_views(thinks@) + reply_split(rem@).0 =~= t0 + reply_split(r0).0);
                        assert(said@ + reply_split(rem@).1 =~= a0 + reply_split(r0).1);
                    },
                }
            },
        }
    }
    assert(reply_split(rem@) == (Seq::<Seq<char>>::empty(), Seq::<char>::empty()));
    assert(string_views(thinks@) =~= string_views(thinks@) + reply_split(rem@).0);
    assert(said@ =~= said@ + reply_split(rem@).1);
    (thinks, said)
}


/// The prompt estimate of a prefix is at most that of the whole.
proof fn lemma_estimate_prefix(conv: Seq<MessageSpec>, i: int)
    requires
        0 <= i <= conv.len(),
    ensures
        0 <= prompt_estimate(conv.take(i)) <= prompt_estimate(conv),
    decreases conv.len() - i,
{
    if i < conv.len() {
        lemma_estimate_prefix(conv, i + 1);
        assert(conv.take(i + 1).drop_last() =~= conv.take(i));
        lemma_estimate_nonneg(conv.take(i));
    } else {
        assert(conv.take(i) =~= conv);
        lemma_estimate_nonneg(conv);
    }
}

proof fn lemma_estimate_nonneg(conv: Seq<MessageSpec>)
    ensures
        prompt_estimate(conv) >= 0,
    decreases conv.len(),
{
    if conv.len() > 0 {
        lemma_estimate_nonneg(conv.drop_last());
    }
}

fn args_kind_exec(name: &str) -> (r: Option<ArgsKind>)
    ensures
        r == args_kind(name@),
{
    let n = crate::text::chars_of(name);
    if crate::text::chars_eq_str(&n, "todo") {
        Some(ArgsKind::Todo)
    } else if crate::text::chars_eq_str(&n, "todo_complete") {
        Some(ArgsKind::TodoComplete)
    } else if crate::text::chars_eq_str(&n, "bg_status") {
        Some(ArgsKind::BgStatus)
    } else if crate::text::chars_eq_str(&n, "bg_cancel") {
        Some(ArgsKind::BgCancel)
    } else if crate::text::chars_eq_str(&n, "bg_run") {
        Some(ArgsKind::BgRun)
    } else if crate::text::chars_eq_str(&n, "subagent") {
        Some(ArgsKind::Subagent)
    } else {
        None
    }
}

fn is_file_tool_exec(name: &str) -> (r: bool)
    ensures
        r == is_file_tool(name@),
{
    let n = crate::text::chars_of(name);
    crate::text::chars_eq_str(&n, "read_file") || crate::text::chars_eq_str(&n, "write_file")
        || crate::text::chars_eq_str(&n, "edit_file") || crate::text::chars_eq_str(&n, "list_files")
}

fn is_named(name: &str, lit: &str) -> (r: bool)
    ensures
        r == (name@ == lit@),
{
    let n = crate::text::chars_of(name);
    crate::text::chars_eq_str(&n, lit)
}

/// `a + b`.
fn concat(a: &str, b: &str) -> (r: String)
    ensures
        r@ == a@ + b@,
{
    let mut s = a.to_owned();
    append_str(&mut s, b);
    s
}

fn tool_result_effect(id: String, result: String, success: bool) -> (r: Effect)
    ensures
        r.view() == tool_result(id@, result@, success),
{
    Effect::ToolResult { tool_call_id: id, result, success }
}

impl App {
    /// What is shown of a call.
    fn display_of(name: &str, args: &str) -> (r: String)
        ensures
            r@ == display_for(name@, args@),
    {
        if is_named(name, "shell") {
            crate::shell::command_or_arguments(args)
        } else {
            args.to_owned()
        }
    }

    /// What saved rules are matched against.
    fn key_of(name: &str, args: &str) -> (r: String)
        ensures
            r@ == key_for(name@, args@),
    {
        if is_named(name, "shell") {
            crate::shell::command_or_arguments(args)
        } else {
            let mut s = name.to_owned();
            append_str(&mut s, " ");
            append_str(&mut s, args);
            s
        }
    }

    /// Whether a call runs without asking.
    fn is_allowed_call(&self, name: &str, key: &str) -> (r: bool)
        ensures
            r == allowed(self@, name@, key@),
    {
        let a = self.yolo;
        let b = contains_str(&self.session_allow, name);
        let c = self.permissions.is_allowed(key);
        assert(self@.permissions == self.permissions.rules());
        a || b || c
    }

    /// The prompt estimate of the conversation.
    fn prompt_estimate_exec(&self) -> (r: u32)
        requires
            prompt_estimate(self@.conversation) <= u32::MAX,
        ensures
            r == prompt_estimate(self@.conversation),
    {
        let ghost conv = self@.conversation;
        let mut sum: u32 = 0;
        let mut i: usize = 0;
        assert(conv.take(0) =~= Seq::<MessageSpec>::empty());
        while i < self.conversation.len()
            invariant
                i <= self.conversation.len(),
                conv == message_views(self.conversation@),
                prompt_estimate(conv) <= u32::MAX,
                sum == prompt_estimate(conv.take(i as int)),
            decreases self.conversation.len() - i,
        {
            assert(conv.take(i + 1).drop_last() =~= conv.take(i as int));
            assert(conv.take(i + 1).last() == self.conversation@[i as int].view());
            proof {
                lemma_estimate_prefix(conv, i + 1);
            }
            match &self.conversation[i].content {
                Some(c) => {
                    let b = byte_len_u32(c.as_str());
                    sum = sum + b / 4;
                },
                None => {},
            }
            i = i + 1;
        }
        assert(conv.take(self.conversation.len() as int) =~= conv);
        sum
    }

    /// Runs a call of the main conversation, taking it off the queue.
    pub fn execute_tool_call(&mut self, tc: ToolCall) -> (r: Vec<Effect>)
        requires
            old(self).wf(),
            old(self)@.pending_tool_calls.len() > 0,
        ensures
            final(self).wf(),
            (final(self)@, effect_views(r@)) == execute_spec(old(self)@, tc.view()),
    {
        proof {
            reveal(execute_spec);
        }
        self.pending_tool_calls.remove(0);
        assert(call_views(self.pending_tool_calls@) =~= call_views(old(self).pending_tool_calls@).skip(1));
        assert(self@ =~= (AppView { pending_tool_calls: old(self)@.pending_tool_calls.skip(1), ..old(self)@ }));
        let ghost v1 = self@;
        let id = tc.id;
        let name = tc.function.name;
        let args = tc.function.arguments;
        match args_kind_exec(name.as_str()) {
            Some(k) => {
                let r = vec![Effect::ParseArgs { subagent: None, call_id: id, kind: k, arguments: args }];
                assert(effect_views(r@) =~= seq![EffectSpec::ParseArgs { subagent: None, call_id: tc.id@, kind: k, arguments: tc.function.arguments@ }]);
                return r;
            },
            None => {},
        }
        if is_named(name.as_str(), "wipe_todo") {
            let result = self.handle_wipe_todo();
            let r = vec![tool_result_effect(id, result, true)];
            assert(effect_views(r@) =~= seq![tool_result(tc.id@, "Todo list cleared"@, true)]);
            return r;
        }
        if crate::text::starts_with_str(&crate::text::chars_of(name.as_str()), "mcp_") {
            let r = match find_route(&self.mcp_tool_map, name.as_str()) {
                Some((server, real_tool)) => {
                    if contains_str(&self.mcp_server_names, server.as_str()) {
                        vec![Effect::CallMcp { call_id: id, server, tool: real_tool, arguments: args }]
                    } else {
                        vec![tool_result_effect(id, concat("MCP server not found for tool: ", name.as_str()), false)]
                    }
                },
                None => vec![tool_result_effect(id, concat("Unknown MCP tool: ", name.as_str()), false)],
            };
            assert(effect_views(r@) =~= execute_spec(old(self)@, tc.view()).1);
            return r;
        }
        let r = if is_named(name.as_str(), "shell") {
            vec![Effect::RunShell { subagent: None, call_id: id, command: crate::shell::command_or_arguments(args.as_str()) }]
        } else if is_file_tool_exec(name.as_str()) {
            vec![Effect::RunTool { subagent: None, call_id: id, tool_name: name, arguments: args }]
        } else {
            vec![tool_result_effect(id, "unknown tool".to_owned(), false)]
        };
        assert(effect_views(r@) =~= execute_spec(old(self)@, tc.view()).1);
        r
    }

    /// Processes the next queued call of the main conversation.
    pub fn process_next_tool_call(&mut self) -> (r: Vec<Effect>)
        requires
            old(self).wf(),
        ensures
            final(self).wf(),
            (final(self)@, effect_views(r@)) == process_next_spec(old(self)@),
    {
        proof {
            reveal(process_next_spec);
        }
        if self.pending_tool_calls.len() == 0 {
            let e = self.start_streaming();
            let r = vec![e];
            assert(effect_views(r@) =~= seq![e.view()]);
            return r;
        }
        let tc = self.pending_tool_calls[0].duplicate();
        let d = App::display_of(tc.function.name.as_str(), tc.function.arguments.as_str());
        let key = App::key_of(tc.function.name.as_str(), tc.function.arguments.as_str());
        if self.is_allowed_call(tc.function.name.as_str(), key.as_str()) {
            self.messages.push(ChatEntry::ToolCall {
                name: tc.function.name.clone(),
                command: d,
                status: "allowed".to_owned(),
            });
            assert(self@ =~= say(old(self)@, EntrySpec::ToolCall { name: tc.view().name, command: display_for(tc.view().name, tc.view().arguments), status: "allowed"@ }));
            self.execute_tool_call(tc)
        } else {
            self.messages.push(ChatEntry::ToolCall {
                name: tc.function.name.clone(),
                command: d.clone(),
                status: "pending".to_owned(),
            });
            self.pending_permission = Some(PendingPermission {
                tool_name: tc.function.name.clone(),
                command: d,
                tool_call_id: tc.id.clone(),
                arguments: tc.function.arguments.clone(),
            });
            let r: Vec<Effect> = Vec::new();
            assert(effect_views(r@) =~= Seq::<EffectSpec>::empty());
            r
        }
    }

    /// The streamed text of an answer, put into the transcript and the
    /// conversation.
    fn text_stage_exec(&mut self) -> (r: Vec<Effect>)
        requires
            old(self).wf(),
        ensures
            final(self).wf(),
            (final(self)@, effect_views(r@)) == text_stage(old(self)@),
    {
        proof {
            reveal(text_stage);
        }
        let ghost v0 = self@;
        let mut effects: Vec<Effect> = Vec::new();
        if !self.streaming_buffer.as_str().is_empty() {
            let mut text = String::new();
            std::mem::swap(&mut text, &mut self.streaming_buffer);
            let chars = crate::text::chars_of(text.as_str());
            let (ts, a) = reply_split_exec(&chars);
            let mut i: usize = 0;
            let ghost m0 = self@.messages;
            while i < ts.len()
                invariant
                    i <= ts.len(),
                    self@ == (AppView { messages: self@.messages, ..v0 }).with_buffer_cleared(),
                    self@.messages == m0 + think_entries(string_views(ts@).take(i as int)),
                decreases ts.len() - i,
            {
                let ghost mb = self@.messages;
                self.messages.push(ChatEntry::Thinking { content: ts[i].clone(), collapsed: false });
                assert(string_views(ts@).take(i + 1) =~= string_views(ts@).take(i as int).push(ts@[i as int]@));
                assert(self@.messages =~= mb.push(EntrySpec::Thinking { content: ts@[i as int]@, collapsed: false }));
                assert(think_entries(string_views(ts@).take(i + 1)) =~= think_entries(string_views(ts@).take(i as int)).push(EntrySpec::Thinking { content: ts@[i as int]@, collapsed: false }));
                i = i + 1;
            }
            assert(string_views(ts@).take(ts.len() as int) =~= string_views(ts@));
            let at = crate::text::trim_string(&a);
            let ghost m1 = self@.messages;
            if !at.as_str().is_empty() {
                self.messages.push(ChatEntry::Assistant(at));
            }
            let ghost shown = if trim(a@).len() > 0 { seq![EntrySpec::Assistant(trim(a@))] } else { seq![] };
            assert(self@.messages =~= m1 + shown);
            let ghost c0 = self@.conversation;
            self.conversation.push(Message::text("assistant", text.clone()));
            assert(self@.conversation =~= c0.push(assistant_msg(text@)));
            if self.memory_enabled && self.memory_session_id.is_some() && !crate::text::is_blank(text.as_str()) {
                effects.push(Effect::ArchiveTurn { role: "assistant".to_owned(), content: text });
            }
            assert(effect_views(effects@) =~= text_stage(v0).1);
            assert(self@ =~= text_stage(v0).0);
        } else {
            assert(effect_views(effects@) =~= Seq::<EffectSpec>::empty());
        }
        effects
    }

    /// Ends an answer.
    pub fn finalize_response(&mut self) -> (r: Vec<Effect>)
        requires
            old(self).wf(),
            usage_fits(old(self)@),
        ensures
            final(self).wf(),
            (final(self)@, effect_views(r@)) == finalize_spec(old(self)@),
    {
        proof {
            reveal(finalize_spec);
        }
        let u = self.usage_now();
        self.waiting_for_response = false;
        self.in_thinking = false;
        self.thinking_buffer = String::new();
        self.last_token_usage = u;
        assert(self@ =~= (AppView {
            waiting_for_response: false,
            in_thinking: false,
            thinking_buffer: seq![],
            last_token_usage: usage_after(old(self)@),
            ..old(self)@
        }));
        let mut effects = self.text_stage_exec();
        let ghost e1 = effect_views(effects@);
        if !self.assembling_tool_calls.is_empty() {
            let mut e3 = self.queue_assembled_calls();
            let ghost ev3 = effect_views(e3@);
            effects.append(&mut e3);
            assert(effect_views(effects@) =~= e1 + ev3);
        }
        effects
    }

    /// The usage of the answer just ended.
    fn usage_now(&self) -> (r: Option<Usage>)
        requires
            usage_fits(self@),
        ensures
            r == usage_after(self@),
    {
        if self.last_token_usage.is_none() && self.streaming_token_count > 0 {
            proof {
                lemma_estimate_nonneg(self@.conversation);
            }
            let p = self.prompt_estimate_exec();
            let c = self.streaming_token_count;
            Some(Usage { prompt_tokens: p, completion_tokens: c, total_tokens: p + c })
        } else {
            self.last_token_usage
        }
    }

    /// Queues the assembled calls after an assistant message that names
    /// them, and processes the first.
    fn queue_assembled_calls(&mut self) -> (r: Vec<Effect>)
        requires
            old(self).wf(),
        ensures
            final(self).wf(),
            (final(self)@, effect_views(r@)) == process_next_spec(AppView {
                assembling: seq![],
                conversation: old(self)@.conversation.push(
                    MessageSpec { role: "assistant"@, content: None, tool_calls: Some(entry_calls(old(self)@.assembling)), tool_call_id: None },
                ),
                pending_tool_calls: entry_calls(old(self)@.assembling),
                ..old(self)@
            }),
    {
        let calls = self.assembling_tool_calls.take_calls();
        let copy = crate::types::duplicate_calls(&calls);
        let ghost c0 = self@.conversation;
        self.conversation.push(Message { role: "assistant".to_owned(), content: None, tool_calls: Some(copy), tool_call_id: None });
        self.pending_tool_calls = calls;
        proof {
            reveal_strlit("assistant");
        }
        assert(self@ =~= (AppView {
            assembling: seq![],
            conversation: old(self)@.conversation.push(
                MessageSpec { role: "assistant"@, content: None, tool_calls: Some(entry_calls(old(self)@.assembling)), tool_call_id: None },
            ),
            pending_tool_calls: entry_calls(old(self)@.assembling),
            ..old(self)@
        }));
        self.process_next_tool_call()
    }
}

impl AppView {
    /// This state with the streamed text taken out.
    pub open spec fn with_buffer_cleared(self) -> AppView {
        AppView { streaming_buffer: seq![], ..self }
    }
}


// ───────────────────────── stream events and tool results ─────────────────────────

/// A streamed event applied to the session.
pub open spec fn stream_event_spec(v: AppView, e: crate::sse::EventSpec) -> (AppView, Seq<EffectSpec>) {
    match e {
        crate::sse::EventSpec::Token(t) => (
            AppView {
                waiting_for_response: false,
                streaming_token_count: (v.streaming_token_count + 1) as u32,
                streaming_buffer: v.streaming_buffer + t,
                ..v
            },
            seq![],
        ),
        crate::sse::EventSpec::Delta(d) => (
            AppView { waiting_for_response: false, assembling: crate::calls::assemble(v.assembling, d), ..v },
            seq![],
        ),
        crate::sse::EventSpec::Usage(u) => (AppView { last_token_usage: Some(u), ..v }, seq![]),
        crate::sse::EventSpec::Done => finalize_spec(v),
    }
}

/// The counters an event updates have room.
pub open spec fn event_ok(v: AppView, e: crate::sse::EventSpec) -> bool {
    match e {
        crate::sse::EventSpec::Token(_) => v.streaming_token_count < u32::MAX,
        crate::sse::EventSpec::Done => usage_fits(v),
        _ => true,
    }
}

/// Seconds with one decimal, rounded half up, of a duration in
/// milliseconds.
pub open spec fn secs_text(ms: u64) -> Seq<char> {
    let t = ((ms + 50) / 100) as nat;
    dec(t / 10) + "."@ + dec(t % 10)
}

/// The note a finished background task leaves in the conversation.
pub open spec fn done_text(d: DoneSpec) -> Seq<char> {
    "[Background task '"@ + d.label + "' ("@ + d.tool_name + ") "@ + (if d.success {
        "completed"@
    } else {
        "failed"@
    }) + " after "@ + secs_text(d.elapsed_ms) + "s]\n"@ + d.result
}

/// The finished background tasks, moved into the conversation and the
/// transcript.
pub open spec fn drained(v: AppView) -> AppView {
    AppView {
        bg_queue: seq![],
        conversation: v.conversation + v.bg_queue.map_values(|d: DoneSpec| system_msg(done_text(d))),
        messages: v.messages + v.bg_queue.map_values(|d: DoneSpec| EntrySpec::System(done_text(d))),
        ..v
    }
}

pub open spec fn nudge(n: u32) -> Seq<char> {
    "\n\n[SYSTEM: "@ + dec(n as nat)
        + " consecutive tool errors. Stop repeating the same approach \u{2014} analyze the error messages and try a fundamentally different strategy.]"@
}

/// A tool's result recorded: its output (what was streamed, then the
/// final report unless it only says the command completed) is shown,
/// errors are counted, and the model gets the output (or the error) with
/// a nudge after three errors in a row.
pub open spec fn recorded_result(v: AppView, id: Seq<char>, result: Seq<char>, success: bool) -> AppView {
    let buf = v.tool_output_buffer;
    let full = if buf.len() > 0 && result != "(command completed)"@ {
        buf + "\n"@ + result
    } else if buf.len() == 0 {
        result
    } else {
        buf
    };
    let display = if success { full } else { "Error: "@ + full };
    let errs: u32 = if success { 0 } else { (v.consecutive_errors + 1) as u32 };
    let content0 = if success { full } else { "Error: "@ + result };
    let content = if errs >= 3 { content0 + nudge(errs) } else { content0 };
    AppView {
        tool_output_buffer: seq![],
        messages: v.messages.push(EntrySpec::ToolOutput(display)),
        consecutive_errors: errs,
        conversation: v.conversation.push(tool_msg(content, id)),
        ..v
    }
}

/// A tool's result handed to the model: recorded; with no call left in
/// the queue, finished background tasks reported; then the next call
/// processed.
pub open spec fn tool_result_spec(v: AppView, id: Seq<char>, result: Seq<char>, success: bool) -> (AppView, Seq<EffectSpec>) {
    let v1 = recorded_result(v, id, result, success);
    let v2 = if v1.pending_tool_calls.len() == 0 { drained(v1) } else { v1 };
    process_next_spec(v2)
}

/// The transcript's last entry, when it is a tool call, with a new status.
pub open spec fn mark_last(m: Seq<EntrySpec>, status: Seq<char>) -> Seq<EntrySpec> {
    if m.len() > 0 && m.last() is ToolCall {
        m.update(
            m.len() - 1,
            EntrySpec::ToolCall { name: m.last()->name, command: m.last()->command, status },
        )
    } else {
        m
    }
}

/// The user's answer to a permission question: allowed calls run (and
/// their command is saved as a rule when asked), denied ones leave the
/// queue with a refusal for the model, and the next call is processed.
/// An allowed call runs (its command saved as a rule when asked).
pub open spec fn allow_spec(v0: AppView, p: PermSpec, save: bool) -> (AppView, Seq<EffectSpec>) {
    let v1 = if save {
        AppView { permissions: v0.permissions.push(p.command), ..v0 }
    } else {
        v0
    };
    let v2 = AppView { messages: mark_last(v1.messages, "allowed"@), ..v1 };
    let (v3, e3) = execute_spec(
        v2,
        ToolCallSpec { id: p.tool_call_id, call_type: "function"@, name: p.tool_name, arguments: p.arguments },
    );
    (v3, (if save { seq![EffectSpec::SavePermissions] } else { seq![] }) + e3)
}

/// A denied call leaves the queue with a refusal for the model.
pub open spec fn deny_spec(v0: AppView, p: PermSpec) -> (AppView, Seq<EffectSpec>) {
    process_next_spec(AppView {
        messages: mark_last(v0.messages, "denied"@),
        pending_tool_calls: if v0.pending_tool_calls.len() > 0 {
            v0.pending_tool_calls.skip(1)
        } else {
            v0.pending_tool_calls
        },
        conversation: v0.conversation.push(tool_msg("Permission denied by user."@, p.tool_call_id)),
        ..v0
    })
}

/// The user's answer to a permission question: allowed calls run (and
/// their command is saved as a rule when asked), denied ones leave the
/// queue with a refusal for the model and the next call is processed.
pub open spec fn permission_spec(v: AppView, allow: bool, save: bool) -> (AppView, Seq<EffectSpec>) {
    match v.pending_permission {
        None => (v, seq![]),
        Some(p) => {
            let v0 = AppView { pending_permission: None, ..v };
            if allow {
                allow_spec(v0, p, save)
            } else {
                deny_spec(v0, p)
            }
        },
    }
}

/// An allowed answer runs a call of the main queue.
pub open spec fn permission_ok(v: AppView, allow: bool) -> bool {
    v.pending_permission is Some && allow ==> v.pending_tool_calls.len() > 0
}

impl App {
    /// Applies one streamed event.
    pub fn handle_stream_event(&mut self, event: crate::types::StreamEvent) -> (r: Vec<Effect>)
        requires
            old(self).wf(),
            event_ok(old(self)@, event.view()),
        ensures
            final(self).wf(),
            (final(self)@, effect_views(r@)) == stream_event_spec(old(self)@, event.view()),
    {
        proof {
        }
        match event {
            crate::types::StreamEvent::Token(text) => {
                self.waiting_for_response = false;
                self.streaming_token_count = self.streaming_token_count + 1;
                append_str(&mut self.streaming_buffer, text.as_str());
                assert(self@ =~= stream_event_spec(old(self)@, crate::sse::EventSpec::Token(text@)).0);
                assert(view_wf(self@));
                let r: Vec<Effect> = Vec::new();
                assert(effect_views(r@) =~= Seq::<EffectSpec>::empty());
                r
            },
            crate::types::StreamEvent::ToolCallDelta(delta) => {
                self.waiting_for_response = false;
                self.assembling_tool_calls.apply(delta);
                assert(self@ =~= stream_event_spec(old(self)@, crate::sse::EventSpec::Delta(delta.view())).0);
                assert(view_wf(self@));
                let r: Vec<Effect> = Vec::new();
                assert(effect_views(r@) =~= Seq::<EffectSpec>::empty());
                r
            },
            crate::types::StreamEvent::Usage(u) => {
                self.last_token_usage = Some(u);
                assert(self@ =~= stream_event_spec(old(self)@, crate::sse::EventSpec::Usage(u)).0);
                assert(view_wf(self@));
                let r: Vec<Effect> = Vec::new();
                assert(effect_views(r@) =~= Seq::<EffectSpec>::empty());
                r
            },
            crate::types::StreamEvent::Done => self.finalize_response(),
        }
    }

    /// Hands a tool's result to the model and moves on.
    pub fn handle_tool_result(&mut self, tool_call_id: String, result: String, success: bool) -> (r: Vec<Effect>)
        requires
            old(self).wf(),
            !success ==> old(self).consecutive_errors < u32::MAX,
        ensures
            final(self).wf(),
            (final(self)@, effect_views(r@)) == tool_result_spec(old(self)@, tool_call_id@, result@, success),
    {
        self.record_result(tool_call_id, result, success);
        if self.pending_tool_calls.len() == 0 {
            self.drain_background_results();
        }
        self.process_next_tool_call()
    }

    fn record_result(&mut self, tool_call_id: String, result: String, success: bool)
        requires
            old(self).wf(),
            !success ==> old(self).consecutive_errors < u32::MAX,
        ensures
            final(self).wf(),
            final(self)@ == recorded_result(old(self)@, tool_call_id@, result@, success),
    {
        let ghost buf = old(self)@.tool_output_buffer;
        let ghost sfull = if buf.len() > 0 && result@ != "(command completed)"@ {
            buf + "\n"@ + result@
        } else if buf.len() == 0 {
            result@
        } else {
            buf
        };
        let mut full = String::new();
        std::mem::swap(&mut full, &mut self.tool_output_buffer);
        let buf_empty = full.as_str().is_empty();
        if !buf_empty && !is_named(result.as_str(), "(command completed)") {
            append_str(&mut full, "\n");
            append_str(&mut full, result.as_str());
        } else if buf_empty {
            full = result.clone();
        }
        assert(full@ == sfull);
        let display = if success { full.clone() } else { concat("Error: ", full.as_str()) };
        self.messages.push(ChatEntry::ToolOutput(display));
        if success {
            self.consecutive_errors = 0;
        } else {
            self.consecutive_errors = self.consecutive_errors + 1;
        }
        let mut content = if success { full } else { concat("Error: ", result.as_str()) };
        let ghost content0 = content@;
        if self.consecutive_errors >= 3 {
            append_str(&mut content, "\n\n[SYSTEM: ");
            crate::num::push_u64(&mut content, self.consecutive_errors as u64);
            append_str(
                &mut content,
                " consecutive tool errors. Stop repeating the same approach \u{2014} analyze the error messages and try a fundamentally different strategy.]",
            );
        }
        self.conversation.push(Message {
            role: "tool".to_owned(),
            content: Some(content),
            tool_calls: None,
            tool_call_id: Some(tool_call_id),
        });
        proof {
            reveal_strlit("tool");
            reveal_strlit("\n\n[SYSTEM: ");
        }
        assert(self@.consecutive_errors >= 3 ==> content0 + nudge(self@.consecutive_errors) =~= self@.conversation.last().content.unwrap());
        assert(self@ =~= recorded_result(old(self)@, tool_call_id@, result@, success));
    }

    /// Moves the finished background tasks into the conversation.
    fn drain_background_results(&mut self)
        requires
            old(self).wf(),
        ensures
            final(self).wf(),
            final(self)@ == drained(old(self)@),
    {
        let done = self.bg_tasks.drain_completed();
        let ghost q = old(self)@.bg_queue;
        let ghost c0 = self@.conversation;
        let ghost m0 = self@.messages;
        let mut i: usize = 0;
        while i < done.len()
            invariant
                i <= done.len(),
                crate::background::done_views(done@) == q,
                self@ == (AppView { conversation: self@.conversation, messages: self@.messages, bg_queue: seq![], ..old(self)@ }),
                self@.conversation == c0 + q.take(i as int).map_values(|d: DoneSpec| system_msg(done_text(d))),
                self@.messages == m0 + q.take(i as int).map_values(|d: DoneSpec| EntrySpec::System(done_text(d))),
            decreases done.len() - i,
        {
            let text = done_text_of(&done[i]);
            let ghost cb = self@.conversation;
            let ghost mb = self@.messages;
            self.conversation.push(Message::text("system", text.clone()));
            self.messages.push(ChatEntry::System(text));
            proof {
                reveal_strlit("system");
                assert(q.take(i + 1) =~= q.take(i as int).push(q[i as int]));
            }
            assert(self@.conversation =~= cb.push(system_msg(done_text(q[i as int]))));
            assert(self@.messages =~= mb.push(EntrySpec::System(done_text(q[i as int]))));
            assert(q.take(i + 1).map_values(|d: DoneSpec| system_msg(done_text(d))) =~= q.take(i as int).map_values(|d: DoneSpec| system_msg(done_text(d))).push(system_msg(done_text(q[i as int]))));
            assert(q.take(i + 1).map_values(|d: DoneSpec| EntrySpec::System(done_text(d))) =~= q.take(i as int).map_values(|d: DoneSpec| EntrySpec::System(done_text(d))).push(EntrySpec::System(done_text(q[i as int]))));
            i = i + 1;
        }
        assert(q.take(done.len() as int) =~= q);
    }

    /// Answers the pending permission question.
    pub fn handle_permission_response(&mut self, allow: bool, save: bool) -> (r: Vec<Effect>)
        requires
            old(self).wf(),
            permission_ok(old(self)@, allow),
        ensures
            final(self).wf(),
            (final(self)@, effect_views(r@)) == permission_spec(old(self)@, allow, save),
    {
        let perm = match self.pending_permission.take() {
            Some(p) => p,
            None => {
                let r: Vec<Effect> = Vec::new();
                assert(effect_views(r@) =~= Seq::<EffectSpec>::empty());
                return r;
            },
        };
        assert(self@ =~= (AppView { pending_permission: None, ..old(self)@ }));
        if allow {
            self.allow_pending(perm, save)
        } else {
            self.deny_pending(perm)
        }
    }

    fn allow_pending(&mut self, perm: PendingPermission, save: bool) -> (r: Vec<Effect>)
        requires
            old(self).wf(),
            old(self)@.pending_tool_calls.len() > 0,
        ensures
            final(self).wf(),
            (final(self)@, effect_views(r@)) == allow_spec(old(self)@, perm.view(), save),
    {
        let mut effects: Vec<Effect> = Vec::new();
        if save {
            self.permissions.add_exact(perm.command.as_str());
            effects.push(Effect::SavePermissions);
        }
        self.mark_last_tool_call("allowed");
        proof {
            let v0 = old(self)@;
            let v1 = if save { AppView { permissions: v0.permissions.push(perm.command@), ..v0 } } else { v0 };
            assert(self@ =~= (AppView { messages: mark_last(v1.messages, "allowed"@), ..v1 }));
        }
        let tc = ToolCall {
            id: perm.tool_call_id,
            call_type: "function".to_owned(),
            function: crate::types::FunctionCall { name: perm.tool_name, arguments: perm.arguments },
        };
        let ghost e0 = effect_views(effects@);
        let mut e = self.execute_tool_call(tc);
        let ghost ev = effect_views(e@);
        effects.append(&mut e);
        assert(effect_views(effects@) =~= e0 + ev);
        effects
    }

    fn deny_pending(&mut self, perm: PendingPermission) -> (r: Vec<Effect>)
        requires
            old(self).wf(),
        ensures
            final(self).wf(),
            (final(self)@, effect_views(r@)) == deny_spec(old(self)@, perm.view()),
    {
        self.mark_last_tool_call("denied");
        if self.pending_tool_calls.len() > 0 {
            self.pending_tool_calls.remove(0);
            assert(call_views(self.pending_tool_calls@) =~= call_views(old(self).pending_tool_calls@).skip(1));
        }
        self.conversation.push(Message {
            role: "tool".to_owned(),
            content: Some("Permission denied by user.".to_owned()),
            tool_calls: None,
            tool_call_id: Some(perm.tool_call_id),
        });
        proof {
            reveal_strlit("tool");
            let v0 = old(self)@;
            assert(self@ =~= (AppView {
                messages: mark_last(v0.messages, "denied"@),
                pending_tool_calls: if v0.pending_tool_calls.len() > 0 {
                    v0.pending_tool_calls.skip(1)
                } else {
                    v0.pending_tool_calls
                },
                conversation: v0.conversation.push(tool_msg("Permission denied by user."@, perm.tool_call_id@)),
                ..v0
            }));
        }
        self.process_next_tool_call()
    }

    /// Sets the status of the last transcript entry, if it is a tool call.
    fn mark_last_tool_call(&mut self, status: &str)
        requires
            old(self).wf(),
        ensures
            final(self).wf(),
            final(self)@ == (AppView { messages: mark_last(old(self)@.messages, status@), ..old(self)@ }),
    {
        let n = self.messages.len();
        if n > 0 {
            let last = self.messages.pop().unwrap();
            let e = match last {
                ChatEntry::ToolCall { name, command, status: _ } => ChatEntry::ToolCall { name, command, status: status.to_owned() },
                other => other,
            };
            self.messages.push(e);
            assert(entry_views(self.messages@) =~= mark_last(old(self)@.messages, status@));
        }
    }

    /// Saves the typed pattern as a rule, then allows the pending call.
    pub fn handle_pattern_submit(&mut self) -> (r: Vec<Effect>)
        requires
            old(self).wf(),
            permission_ok(old(self)@, true),
        ensures
            final(self).wf(),
            match old(self)@.pattern_input {
                None => final(self)@ == old(self)@ && r@.len() == 0,
                Some(p) => {
                    let v1 = AppView {
                        pattern_input: None,
                        permissions: if p.len() > 0 { old(self)@.permissions.push(p) } else { old(self)@.permissions },
                        ..old(self)@
                    };
                    &&& final(self)@ == permission_spec(v1, true, false).0
                    &&& effect_views(r@) == (if p.len() > 0 { seq![EffectSpec::SavePermissions] } else { seq![] })
                        + permission_spec(v1, true, false).1
                },
            },
    {
        match self.pattern_input.take() {
            None => Vec::new(),
            Some(pattern) => {
                let mut effects: Vec<Effect> = Vec::new();
                if !pattern.as_str().is_empty() {
                    self.permissions.add_pattern(pattern.as_str());
                    effects.push(Effect::SavePermissions);
                }
                let ghost e0 = effect_views(effects@);
                let mut e = self.handle_permission_response(true, false);
                let ghost ev = effect_views(e@);
                effects.append(&mut e);
                assert(effect_views(effects@) =~= e0 + ev);
                effects
            },
        }
    }

    /// Stops the answer being streamed, keeping what arrived.
    pub fn abort_streaming(&mut self) -> (r: Vec<Effect>)
        requires
            old(self).wf(),
            usage_fits(old(self)@),
        ensures
            final(self).wf(),
            (final(self)@, effect_views(r@)) == abort_spec(old(self)@),
    {
        let mut effects: Vec<Effect> = vec![Effect::AbortStream];
        self.waiting_for_response = false;
        assert(self@ =~= (AppView { waiting_for_response: false, ..old(self)@ }));
        if !self.streaming_buffer.as_str().is_empty() {
            let ghost e0 = effect_views(effects@);
            assert(self@ =~= (AppView { waiting_for_response: false, ..old(self)@ }));
            let mut e = self.finalize_response();
            let ghost ev = effect_views(e@);
            effects.append(&mut e);
            assert(effect_views(effects@) =~= e0 + ev);
        }
        self.note("Generation stopped.".to_owned());
        effects
    }
}

/// The note of one finished background task.
fn done_text_of(d: &crate::background::CompletedTaskResult) -> (r: String)
    ensures
        r@ == done_text(d.view()),
{
    let mut s = "[Background task '".to_owned();
    append_str(&mut s, d.label.as_str());
    append_str(&mut s, "' (");
    append_str(&mut s, d.tool_name.as_str());
    append_str(&mut s, ") ");
    append_str(&mut s, if d.success { "completed" } else { "failed" });
    append_str(&mut s, " after ");
    let ms = d.elapsed_ms;
    let t: u64 = ms / 100 + if ms % 100 >= 50 { 1 } else { 0 };
    assert(t == (ms + 50) / 100);
    crate::num::push_u64(&mut s, t / 10);
    append_str(&mut s, ".");
    crate::num::push_u64(&mut s, t % 10);
    append_str(&mut s, "s]\n");
    append_str(&mut s, d.result.as_str());
    proof {
        reveal_strlit("[Background task '");
    }
    s
}


// ───────────────────────── decoded tool arguments ─────────────────────────

pub enum ParsedSpec {
    Todo(Result<Seq<Seq<char>>, Seq<char>>),
    TodoComplete(Result<usize, Seq<char>>),
    BgStatus(Option<Seq<char>>),
    BgCancel(Result<Seq<char>, Seq<char>>),
    BgRun(Result<(Seq<char>, Seq<char>, Seq<char>), Seq<char>>),
    Subagent(Result<Seq<(Seq<char>, Option<Seq<char>>)>, Seq<char>>),
}

pub open spec fn agent_views(s: Seq<AgentSpec>) -> Seq<(Seq<char>, Option<Seq<char>>)> {
    s.map_values(|a: AgentSpec| (a.prompt@, opt_view(a.system)))
}

impl ParsedArgs {
    pub open spec fn view(&self) -> ParsedSpec {
        match self {
            ParsedArgs::Todo(r) => ParsedSpec::Todo(match r {
                Ok(items) => Ok(string_views(items@)),
                Err(e) => Err(e@),
            }),
            ParsedArgs::TodoComplete(r) => ParsedSpec::TodoComplete(match r {
                Ok(i) => Ok(*i),
                Err(e) => Err(e@),
            }),
            ParsedArgs::BgStatus(l) => ParsedSpec::BgStatus(opt_view(*l)),
            ParsedArgs::BgCancel(r) => ParsedSpec::BgCancel(match r {
                Ok(l) => Ok(l@),
                Err(e) => Err(e@),
            }),
            ParsedArgs::BgRun(r) => ParsedSpec::BgRun(match r {
                Ok(a) => Ok((a.tool@, a.arguments@, a.label@)),
                Err(e) => Err(e@),
            }),
            ParsedArgs::Subagent(r) => ParsedSpec::Subagent(match r {
                Ok(a) => Ok(agent_views(a@)),
                Err(e) => Err(e@),
            }),
        }
    }
}

/// A tool result for the main conversation or for a subagent.
pub open spec fn result_to(target: Option<usize>, id: Seq<char>, result: Seq<char>, success: bool) -> EffectSpec {
    match target {
        Some(i) => EffectSpec::SubagentToolResult { index: i, tool_call_id: id, result, success },
        None => EffectSpec::ToolResult { tool_call_id: id, result, success },
    }
}

/// `bg_status`: the report of one task (acknowledging it when finished)
/// or the summary of all.
pub open spec fn bg_status_spec(tasks: Seq<TaskSpec>, label: Option<Seq<char>>, now: u64) -> (Seq<char>, Seq<TaskSpec>) {
    match label {
        Some(l) => match crate::background::index_of_label(tasks, l) {
            None => ("task '"@ + l + "' not found"@, tasks),
            Some(i) => {
                let t = tasks[i];
                (
                    crate::background::status_text(t, now),
                    tasks.update(
                        i,
                        TaskSpec {
                            acknowledged: t.acknowledged || t.status != crate::background::BackgroundTaskStatus::Running,
                            ..t
                        },
                    ),
                )
            },
        },
        None => {
            let sum = crate::background::summary_text(tasks, now);
            (if sum.len() == 0 { "No background tasks."@ } else { "Background tasks:\n"@ + sum }, tasks)
        },
    }
}

/// `cancel` of the task manager.
pub open spec fn bg_cancel_spec(tasks: Seq<TaskSpec>, label: Seq<char>, now: u64) -> Result<Seq<TaskSpec>, Seq<char>> {
    match crate::background::index_of_label(tasks, label) {
        None => Err("task '"@ + label + "' not found"@),
        Some(i) => if tasks[i].status != crate::background::BackgroundTaskStatus::Running {
            Err("task '"@ + label + "' is not running"@)
        } else {
            Ok(tasks.update(
                i,
                TaskSpec { status: crate::background::BackgroundTaskStatus::Cancelled, finished_at: Some(now), ..tasks[i] },
            ))
        },
    }
}

/// `insert` of the task manager.
pub open spec fn bg_insert_spec(tasks: Seq<TaskSpec>, t: TaskSpec) -> Result<Seq<TaskSpec>, Seq<char>> {
    match crate::background::index_of_label(tasks, t.label) {
        Some(i) => if tasks[i].status == crate::background::BackgroundTaskStatus::Running {
            Err("task with label '"@ + t.label + "' is already running"@)
        } else {
            Ok(tasks.update(i, t))
        },
        None => Ok(tasks.push(t)),
    }
}

/// A task that starts running now.
pub open spec fn new_task(label: Seq<char>, tool: Seq<char>, args: Seq<char>, now: u64) -> TaskSpec {
    TaskSpec {
        label,
        tool_name: tool,
        arguments: args,
        status: crate::background::BackgroundTaskStatus::Running,
        output: seq![],
        result: None,
        success: None,
        started_at: now,
        finished_at: None,
        acknowledged: false,
    }
}

/// The fresh state of the subagents for the given tasks.
pub open spec fn fresh_subagents(agents: Seq<(Seq<char>, Option<Seq<char>>)>) -> Seq<SubagentView> {
    Seq::new(
        agents.len(),
        |i: int| SubagentView {
            index: i as usize,
            conversation: crate::subagent::start_conversation(agents[i].1, agents[i].0),
            streaming_buffer: seq![],
            assembling: seq![],
            pending: seq![],
            result_parts: seq![],
            done: false,
        },
    )
}

/// Subagents started for a `subagent` call: each streams its own
/// conversation and shows that it started.
pub open spec fn subagents_started(v: AppView, id: Seq<char>, agents: Seq<(Seq<char>, Option<Seq<char>>)>) -> (AppView, Seq<EffectSpec>) {
    let states = fresh_subagents(agents);
    (
        AppView {
            subagent_call_id: Some(id),
            subagents_pending: agents.len() as usize,
            subagents: states,
            messages: v.messages + Seq::new(
                agents.len(),
                |i: int| EntrySpec::SubagentOutput { index: i as usize, text: "Started ("@ + agents[i].0 + ")"@ },
            ),
            ..v
        },
        Seq::new(
            agents.len(),
            |i: int| EffectSpec::StartSubagentStream { index: i as usize, request: request_for(v, states[i].conversation) },
        ),
    )
}

/// A tool call finished with its decoded arguments.
#[verifier::opaque]
pub open spec fn finish_spec(v: AppView, target: Option<usize>, id: Seq<char>, p: ParsedSpec, now: u64) -> (AppView, Seq<EffectSpec>) {
    match p {
        ParsedSpec::Todo(Ok(items)) => (
            AppView { todo_items: items.map_values(|t: Seq<char>| (t, false)), ..v },
            seq![result_to(target, id, "Added "@ + dec(items.len()) + " items"@, true)],
        ),
        ParsedSpec::Todo(Err(e)) => (v, seq![result_to(target, id, "Invalid todo arguments: "@ + e, true)]),
        ParsedSpec::TodoComplete(Ok(i)) => if i < v.todo_items.len() {
            (
                AppView { todo_items: v.todo_items.update(i as int, (v.todo_items[i as int].0, true)), ..v },
                seq![result_to(target, id, "Completed: "@ + v.todo_items[i as int].0, true)],
            )
        } else {
            (v, seq![result_to(target, id, "Invalid todo index: "@ + dec(i as nat), false)])
        },
        ParsedSpec::TodoComplete(Err(e)) => (v, seq![result_to(target, id, "Invalid todo_complete arguments: "@ + e, false)]),
        ParsedSpec::BgStatus(label) => {
            let (text, tasks) = bg_status_spec(v.bg_tasks, label, now);
            (AppView { bg_tasks: crate::background::keep_spec(tasks), ..v }, seq![result_to(target, id, text, true)])
        },
        ParsedSpec::BgCancel(Ok(l)) => match bg_cancel_spec(v.bg_tasks, l, now) {
            Ok(tasks) => (
                AppView { bg_tasks: tasks, ..v },
                seq![EffectSpec::AbortBackground(l), result_to(target, id, "Task '"@ + l + "' cancelled."@, true)],
            ),
            Err(e) => (v, seq![result_to(target, id, e, false)]),
        },
        ParsedSpec::BgCancel(Err(e)) => (v, seq![result_to(target, id, "Invalid bg_cancel arguments: "@ + e, false)]),
        ParsedSpec::BgRun(Err(e)) => (v, seq![result_to(target, id, e, false)]),
        ParsedSpec::BgRun(Ok((tool, args, label))) => {
            let key = key_for(tool, args);
            if !allowed(v, tool, key) {
                (v, seq![result_to(target, id, "Permission denied for "@ + tool + ": "@ + key, false)])
            } else {
                match bg_insert_spec(v.bg_tasks, new_task(label, tool, args, now)) {
                    Err(e) => (v, seq![result_to(target, id, e, false)]),
                    Ok(tasks) => (
                        AppView { bg_tasks: tasks, ..v },
                        seq![
                            EffectSpec::SpawnBackground { label, tool_name: tool, arguments: args },
                            result_to(
                                target,
                                id,
                                "Background task '"@ + label + "' started ("@ + tool + ": "@ + crate::shell::shell_command(args) + ")"@,
                                true,
                            ),
                        ],
                    ),
                }
            }
        },
        ParsedSpec::Subagent(Err(e)) => (v, seq![result_to(target, id, e, false)]),
        ParsedSpec::Subagent(Ok(agents)) => subagents_started(v, id, agents),
    }
}

fn result_to_exec(target: Option<usize>, id: String, result: String, success: bool) -> (r: Effect)
    ensures
        r.view() == result_to(target, id@, result@, success),
{
    match target {
        Some(i) => Effect::SubagentToolResult { index: i, tool_call_id: id, result, success },
        None => Effect::ToolResult { tool_call_id: id, result, success },
    }
}


impl App {
    /// Finishes a tool call whose arguments the runner decoded.
    pub fn finish_tool_call(&mut self, target: Option<usize>, call_id: String, parsed: ParsedArgs, now: u64) -> (r: Vec<Effect>)
        requires
            old(self).wf(),
        ensures
            final(self).wf(),
            (final(self)@, effect_views(r@)) == finish_spec(old(self)@, target, call_id@, parsed.view(), now),
    {
        proof {
            reveal(finish_spec);
        }
        match parsed {
            ParsedArgs::Todo(p) => {
                let ok = p.is_ok();
                let result = self.handle_todo_tool(p);
                let r = vec![result_to_exec(target, call_id, result, true)];
                assert(effect_views(r@) =~= seq![r@[0].view()]);
                r
            },
            ParsedArgs::TodoComplete(p) => {
                let (result, success) = match self.handle_todo_complete(p) {
                    Ok(m) => (m, true),
                    Err(m) => (m, false),
                };
                let r = vec![result_to_exec(target, call_id, result, success)];
                assert(effect_views(r@) =~= seq![r@[0].view()]);
                r
            },
            ParsedArgs::BgStatus(label) => self.finish_bg_status(target, call_id, label, now),
            ParsedArgs::BgCancel(p) => self.finish_bg_cancel(target, call_id, p, now),
            ParsedArgs::BgRun(p) => self.finish_bg_run(target, call_id, p, now),
            ParsedArgs::Subagent(p) => match p {
                Err(e) => {
                    let r = vec![result_to_exec(target, call_id, e, false)];
                    assert(effect_views(r@) =~= seq![r@[0].view()]);
                    r
                },
                Ok(agents) => self.start_subagents(call_id, agents),
            },
        }
    }

    fn finish_bg_status(&mut self, target: Option<usize>, call_id: String, label: Option<String>, now: u64) -> (r: Vec<Effect>)
        requires
            old(self).wf(),
        ensures
            final(self).wf(),
            ({
                let (text, tasks) = bg_status_spec(old(self)@.bg_tasks, opt_view(label), now);
                &&& final(self)@ == (AppView { bg_tasks: crate::background::keep_spec(tasks), ..old(self)@ })
                &&& effect_views(r@) == seq![result_to(target, call_id@, text, true)]
            }),
    {
        let result = match &label {
            Some(l) => match self.bg_tasks.status_one(l.as_str(), now) {
                Ok(st) => st,
                Err(e) => e,
            },
            None => {
                let sum = self.bg_tasks.summary(now);
                if sum.as_str().is_empty() {
                    "No background tasks.".to_owned()
                } else {
                    concat("Background tasks:\n", sum.as_str())
                }
            },
        };
        self.bg_tasks.clear_acknowledged();
        let r = vec![result_to_exec(target, call_id, result, true)];
        assert(effect_views(r@) =~= seq![r@[0].view()]);
        assert(self@ =~= (AppView { bg_tasks: crate::background::keep_spec(bg_status_spec(old(self)@.bg_tasks, opt_view(label), now).1), ..old(self)@ }));
        r
    }

    fn finish_bg_cancel(&mut self, target: Option<usize>, call_id: String, parsed: Result<String, String>, now: u64) -> (r: Vec<Effect>)
        requires
            old(self).wf(),
        ensures
            final(self).wf(),
            (final(self)@, effect_views(r@)) == finish_spec(old(self)@, target, call_id@, ParsedSpec::BgCancel(match parsed {
                Ok(l) => Ok(l@),
                Err(e) => Err(e@),
            }), now),
    {
        proof {
            reveal(finish_spec);
        }
        match parsed {
            Ok(label) => match self.bg_tasks.cancel(label.as_str(), now) {
                Ok(()) => {
                    let mut msg = "Task '".to_owned();
                    append_str(&mut msg, label.as_str());
                    append_str(&mut msg, "' cancelled.");
                    let r = vec![Effect::AbortBackground(label), result_to_exec(target, call_id, msg, true)];
                    assert(effect_views(r@) =~= seq![r@[0].view(), r@[1].view()]);
                    assert(self@ =~= (AppView { bg_tasks: self@.bg_tasks, ..old(self)@ }));
                    r
                },
                Err(e) => {
                    let r = vec![result_to_exec(target, call_id, e, false)];
                    assert(effect_views(r@) =~= seq![r@[0].view()]);
                    assert(self@ =~= old(self)@);
                    r
                },
            },
            Err(e) => {
                let r = vec![result_to_exec(target, call_id, concat("Invalid bg_cancel arguments: ", e.as_str()), false)];
                assert(effect_views(r@) =~= seq![r@[0].view()]);
                r
            },
        }
    }

    fn finish_bg_run(&mut self, target: Option<usize>, call_id: String, parsed: Result<BgRunArgs, String>, now: u64) -> (r: Vec<Effect>)
        requires
            old(self).wf(),
        ensures
            final(self).wf(),
            (final(self)@, effect_views(r@)) == finish_spec(old(self)@, target, call_id@, ParsedSpec::BgRun(match parsed {
                Ok(a) => Ok((a.tool@, a.arguments@, a.label@)),
                Err(e) => Err(e@),
            }), now),
    {
        proof {
            reveal(finish_spec);
        }
        let args = match parsed {
            Err(e) => {
                let r = vec![result_to_exec(target, call_id, e, false)];
                assert(effect_views(r@) =~= seq![r@[0].view()]);
                return r;
            },
            Ok(a) => a,
        };
        let key = App::key_of(args.tool.as_str(), args.arguments.as_str());
        if !self.is_allowed_call(args.tool.as_str(), key.as_str()) {
            let mut msg = "Permission denied for ".to_owned();
            append_str(&mut msg, args.tool.as_str());
            append_str(&mut msg, ": ");
            append_str(&mut msg, key.as_str());
            let r = vec![result_to_exec(target, call_id, msg, false)];
            assert(effect_views(r@) =~= seq![r@[0].view()]);
            return r;
        }
        let task = crate::background::BackgroundTask {
            label: args.label.clone(),
            tool_name: args.tool.clone(),
            arguments: args.arguments.clone(),
            status: crate::background::BackgroundTaskStatus::Running,
            output_chunks: Vec::new(),
            result: None,
            success: None,
            started_at: now,
            finished_at: None,
            acknowledged: false,
        };
        assert(task.view() == new_task(args.label@, args.tool@, args.arguments@, now)) by {
            assert(string_views(task.output_chunks@) =~= Seq::<Seq<char>>::empty());
        }
        match self.bg_tasks.insert(task) {
            Err(e) => {
                let r = vec![result_to_exec(target, call_id, e, false)];
                assert(effect_views(r@) =~= seq![r@[0].view()]);
                assert(self@ =~= old(self)@);
                r
            },
            Ok(()) => {
                let display = crate::shell::command_or_arguments(args.arguments.as_str());
                let mut msg = "Background task '".to_owned();
                append_str(&mut msg, args.label.as_str());
                append_str(&mut msg, "' started (");
                append_str(&mut msg, args.tool.as_str());
                append_str(&mut msg, ": ");
                append_str(&mut msg, display.as_str());
                append_str(&mut msg, ")");
                let r = vec![
                    Effect::SpawnBackground { label: args.label, tool_name: args.tool, arguments: args.arguments },
                    result_to_exec(target, call_id, msg, true),
                ];
                assert(effect_views(r@) =~= seq![r@[0].view(), r@[1].view()]);
                assert(self@ =~= (AppView { bg_tasks: self@.bg_tasks, ..old(self)@ }));
                r
            },
        }
    }

    /// Starts the subagents of a `subagent` call.
    fn start_subagents(&mut self, call_id: String, agents: Vec<AgentSpec>) -> (r: Vec<Effect>)
        requires
            old(self).wf(),
        ensures
            final(self).wf(),
            (final(self)@, effect_views(r@)) == subagents_started(old(self)@, call_id@, agent_views(agents@)),
    {
        let ghost av = agent_views(agents@);
        let ghost states = fresh_subagents(av);
        let tools = self.tool_definitions();
        let mut list: Vec<SubagentState> = Vec::new();
        let mut effects: Vec<Effect> = Vec::new();
        let mut notes: Vec<ChatEntry> = Vec::new();
        let mut i: usize = 0;
        while i < agents.len()
            invariant
                i <= agents.len(),
                av == agent_views(agents@),
                states == fresh_subagents(av),
                def_views(tools@) == all_tool_defs(old(self)@),
                self@ == old(self)@,
                subagent_views(list@) == states.take(i as int),
                forall|j: int| 0 <= j < list@.len() ==> crate::calls::sorted((#[trigger] list@[j]).assembling_tool_calls@),
                effect_views(effects@) == subagents_started(old(self)@, call_id@, av).1.take(i as int),
                entry_views(notes@) == Seq::new(
                    av.len(),
                    |k: int| EntrySpec::SubagentOutput { index: k as usize, text: "Started ("@ + av[k].0 + ")"@ },
                ).take(i as int),
            decreases agents.len() - i,
        {
            let sys: Option<&str> = match &agents[i].system {
                Some(t) => Some(t.as_str()),
                None => None,
            };
            let st = SubagentState::new(i, sys, agents[i].prompt.as_str());
            let request = ChatRequest {
                model: self.active_model.clone(),
                messages: crate::types::duplicate_messages(&st.conversation),
                stream: true,
                tools: Some(crate::types::duplicate_defs(&tools)),
                think: true,
            };
            let ghost eb = effect_views(effects@);
            effects.push(Effect::StartSubagentStream { index: i, request });
            let mut note = "Started (".to_owned();
            append_str(&mut note, agents[i].prompt.as_str());
            append_str(&mut note, ")");
            let ghost nb = entry_views(notes@);
            notes.push(ChatEntry::SubagentOutput { index: i, text: note });
            let ghost lb = subagent_views(list@);
            list.push(st);
            proof {
                assert(av[i as int] == (agents@[i as int].prompt@, opt_view(agents@[i as int].system)));
                assert(st.streaming_buffer@ =~= Seq::<char>::empty());
                assert(st.assembling_tool_calls@ =~= Seq::<(u32, ToolCallSpec)>::empty());
                assert(call_views(st.pending_tool_calls@) =~= Seq::<ToolCallSpec>::empty());
                assert(string_views(st.result_parts@) =~= Seq::<Seq<char>>::empty());
                assert(subagent_view(st) == states[i as int]);
                assert(subagent_views(list@) =~= lb.push(states[i as int]));
                assert(states.take(i + 1) =~= states.take(i as int).push(states[i as int]));
                assert(effect_views(effects@) =~= eb.push(subagents_started(old(self)@, call_id@, av).1[i as int]));
                assert(subagents_started(old(self)@, call_id@, av).1.take(i + 1) =~= subagents_started(old(self)@, call_id@, av).1.take(i as int).push(subagents_started(old(self)@, call_id@, av).1[i as int]));
                let ns = Seq::new(
                    av.len(),
                    |k: int| EntrySpec::SubagentOutput { index: k as usize, text: "Started ("@ + av[k].0 + ")"@ },
                );
                assert(entry_views(notes@) =~= nb.push(ns[i as int]));
                assert(ns.take(i + 1) =~= ns.take(i as int).push(ns[i as int]));
            }
            i = i + 1;
        }
        let n = agents.len();
        self.subagent_call_id = Some(call_id);
        self.subagents_pending = n;
        self.subagent_states = list;
        let ghost m0 = entry_views(self.messages@);
        self.messages.append(&mut notes);
        proof {
            let ns = Seq::new(
                av.len(),
                |k: int| EntrySpec::SubagentOutput { index: k as usize, text: "Started ("@ + av[k].0 + ")"@ },
            );
            assert(ns.take(n as int) =~= ns);
            assert(states.take(n as int) =~= states);
            assert(subagents_started(old(self)@, call_id@, av).1.take(n as int) =~= subagents_started(old(self)@, call_id@, av).1);
        }
        assert(self@ =~= subagents_started(old(self)@, call_id@, av).0);
        effects
    }
}


// ───────────────────────── subagents ─────────────────────────

/// The session with subagent `i` replaced.
pub open spec fn sub_upd(v: AppView, i: int, s: SubagentView) -> AppView {
    AppView { subagents: v.subagents.update(i, s), ..v }
}

/// Streams the next answer of subagent `i`.
pub open spec fn start_sub_stream(v: AppView, i: int) -> (AppView, Seq<EffectSpec>) {
    (v, seq![EffectSpec::StartSubagentStream { index: i as usize, request: request_for(v, v.subagents[i].conversation) }])
}

pub open spec fn sub_result(i: int, id: Seq<char>, result: Seq<char>, success: bool) -> EffectSpec {
    EffectSpec::SubagentToolResult { index: i as usize, tool_call_id: id, result, success }
}

/// Runs a call of subagent `i`, taking it off its queue.
#[verifier::opaque]
pub open spec fn sub_execute_spec(v: AppView, i: int, tc: ToolCallSpec) -> (AppView, Seq<EffectSpec>) {
    let s = v.subagents[i];
    let v1 = sub_upd(v, i, SubagentView { pending: s.pending.skip(1), ..s });
    let id = tc.id;
    let name = tc.name;
    let args = tc.arguments;
    if name == "todo"@ {
        (v1, seq![EffectSpec::ParseArgs { subagent: Some(i as usize), call_id: id, kind: ArgsKind::Todo, arguments: args }])
    } else if name == "todo_complete"@ {
        (v1, seq![EffectSpec::ParseArgs { subagent: Some(i as usize), call_id: id, kind: ArgsKind::TodoComplete, arguments: args }])
    } else if name == "wipe_todo"@ {
        (AppView { todo_items: seq![], ..v1 }, seq![sub_result(i, id, "Todo list cleared"@, true)])
    } else if name == "shell"@ {
        (v1, seq![EffectSpec::RunShell { subagent: Some(i as usize), call_id: id, command: crate::shell::shell_command(args) }])
    } else if is_file_tool(name) {
        (v1, seq![EffectSpec::RunTool { subagent: Some(i as usize), call_id: id, tool_name: name, arguments: args }])
    } else {
        (v1, seq![sub_result(i, id, "unknown tool"@, false)])
    }
}

/// The next queued call of subagent `i`: shown, then run when allowed,
/// else asked about; with none left, the subagent's next answer streams.
#[verifier::opaque]
pub open spec fn process_sub_spec(v: AppView, i: int) -> (AppView, Seq<EffectSpec>) {
    let s = v.subagents[i];
    if s.pending.len() == 0 {
        start_sub_stream(v, i)
    } else {
        let tc = s.pending[0];
        let d = display_for(tc.name, tc.arguments);
        let v1 = say(v, EntrySpec::SubagentOutput { index: i as usize, text: "\u{2699} "@ + tc.name + " "@ + d });
        if allowed(v, tc.name, key_for(tc.name, tc.arguments)) {
            sub_execute_spec(v1, i, tc)
        } else {
            (
                AppView {
                    pending_permission: Some(
                        PermSpec { tool_name: tc.name, command: d, tool_call_id: tc.id, arguments: tc.arguments },
                    ),
                    ..say(
                        v1,
                        EntrySpec::ToolCall { name: "[agent-"@ + dec(i as nat) + "] "@ + tc.name, command: d, status: "pending"@ },
                    )
                },
                seq![],
            )
        }
    }
}

/// The combined report of all subagents.
pub open spec fn all_results(ss: Seq<SubagentView>) -> Seq<char>
    decreases ss.len(),
{
    if ss.len() == 0 {
        seq![]
    } else {
        all_results(ss.drop_last()) + "[agent-"@ + dec(ss.last().index as nat) + " result]\n"@ + join(ss.last().result_parts, "\n"@)
            + "\n\n"@
    }
}

/// When no subagent is left running, their combined report answers the
/// `subagent` call.
pub open spec fn check_done_spec(v: AppView) -> (AppView, Seq<EffectSpec>) {
    if v.subagents_pending > 0 {
        (v, seq![])
    } else {
        match v.subagent_call_id {
            Some(id) => (AppView { subagent_call_id: None, ..v }, seq![tool_result(id, trim(all_results(v.subagents)), true)]),
            None => (v, seq![]),
        }
    }
}

/// The end of an answer of subagent `i`: its text becomes a result part
/// and an assistant message; its assembled calls are queued and the first
/// processed; without calls, the subagent is done.
#[verifier::opaque]
pub open spec fn finalize_sub_spec(v: AppView, i: int) -> (AppView, Seq<EffectSpec>) {
    let s = v.subagents[i];
    let s1 = if s.streaming_buffer.len() > 0 {
        SubagentView {
            streaming_buffer: seq![],
            result_parts: s.result_parts.push(s.streaming_buffer),
            conversation: s.conversation.push(assistant_msg(s.streaming_buffer)),
            ..s
        }
    } else {
        s
    };
    if s1.assembling.len() > 0 {
        let calls = entry_calls(s1.assembling);
        let s2 = SubagentView {
            assembling: seq![],
            conversation: s1.conversation.push(
                MessageSpec { role: "assistant"@, content: None, tool_calls: Some(calls), tool_call_id: None },
            ),
            pending: calls,
            ..s1
        };
        process_sub_spec(sub_upd(v, i, s2), i)
    } else {
        check_done_spec(AppView {
            subagents: v.subagents.update(i, SubagentView { done: true, ..s1 }),
            subagents_pending: if v.subagents_pending > 0 { (v.subagents_pending - 1) as usize } else { 0 },
            ..v
        })
    }
}

/// A streamed event of subagent `i` (ignored once it is done).
pub open spec fn sub_stream_spec(v: AppView, i: int, e: crate::sse::EventSpec) -> (AppView, Seq<EffectSpec>) {
    if i < 0 || i >= v.subagents.len() || v.subagents[i].done {
        (v, seq![])
    } else {
        let s = v.subagents[i];
        match e {
            crate::sse::EventSpec::Token(t) => (
                say(sub_upd(v, i, SubagentView { streaming_buffer: s.streaming_buffer + t, ..s }), EntrySpec::SubagentOutput { index: i as usize, text: t }),
                seq![],
            ),
            crate::sse::EventSpec::Delta(d) => (
                sub_upd(v, i, SubagentView { assembling: crate::calls::assemble(s.assembling, d), ..s }),
                seq![],
            ),
            crate::sse::EventSpec::Usage(_) => (v, seq![]),
            crate::sse::EventSpec::Done => finalize_sub_spec(v, i),
        }
    }
}

/// A tool's result for subagent `i`: shown, added to its conversation,
/// and its next call processed.
pub open spec fn sub_tool_result_spec(v: AppView, i: int, id: Seq<char>, result: Seq<char>, success: bool) -> (AppView, Seq<EffectSpec>) {
    if i < 0 || i >= v.subagents.len() {
        (v, seq![])
    } else {
        let shown = if success { result } else { "Error: "@ + result };
        let v1 = say(v, EntrySpec::SubagentOutput { index: i as usize, text: shown });
        let s = v1.subagents[i];
        process_sub_spec(sub_upd(v1, i, SubagentView { conversation: s.conversation.push(tool_msg(shown, id)), ..s }), i)
    }
}


impl App {
    /// Streams the next answer of subagent `index`.
    fn start_subagent_streaming(&self, index: usize) -> (r: Effect)
        requires
            index < self@.subagents.len(),
        ensures
            seq![r.view()] == start_sub_stream(self@, index as int).1,
    {
        let tools = self.tool_definitions();
        let request = ChatRequest {
            model: self.active_model.clone(),
            messages: crate::types::duplicate_messages(&self.subagent_states[index].conversation),
            stream: true,
            tools: Some(tools),
            think: true,
        };
        Effect::StartSubagentStream { index, request }
    }

    /// Runs a call of subagent `index`, taking it off its queue.
    fn execute_subagent_tool_call(&mut self, index: usize, tc: ToolCall) -> (r: Vec<Effect>)
        requires
            old(self).wf(),
            index < old(self)@.subagents.len(),
            old(self)@.subagents[index as int].pending.len() > 0,
        ensures
            final(self).wf(),
            (final(self)@, effect_views(r@)) == sub_execute_spec(old(self)@, index as int, tc.view()),
    {
        proof {
            reveal(sub_execute_spec);
        }
        let mut st = self.subagent_states.remove(index);
        st.pending_tool_calls.remove(0);
        let ghost sv = subagent_view(st);
        self.subagent_states.insert(index, st);
        proof {
            let s = old(self)@.subagents[index as int];
            assert(sv.pending =~= s.pending.skip(1));
            assert(sv == SubagentView { pending: s.pending.skip(1), ..s });
            assert(subagent_views(self.subagent_states@) =~= old(self)@.subagents.update(index as int, sv));
        }
        assert(self@ =~= sub_upd(old(self)@, index as int, SubagentView { pending: old(self)@.subagents[index as int].pending.skip(1), ..old(self)@.subagents[index as int] }));
        let ghost v1 = self@;
        assert(view_wf(self@)) by {
            assert forall|j: int| 0 <= j < v1.subagents.len() implies crate::calls::sorted(#[trigger] v1.subagents[j].assembling) by {
                assert(old(self)@.subagents[j].assembling == v1.subagents[j].assembling);
            }
        }
        let id = tc.id;
        let name = tc.function.name;
        let args = tc.function.arguments;
        let r = if is_named(name.as_str(), "todo") {
            vec![Effect::ParseArgs { subagent: Some(index), call_id: id, kind: ArgsKind::Todo, arguments: args }]
        } else if is_named(name.as_str(), "todo_complete") {
            vec![Effect::ParseArgs { subagent: Some(index), call_id: id, kind: ArgsKind::TodoComplete, arguments: args }]
        } else if is_named(name.as_str(), "wipe_todo") {
            let result = self.handle_wipe_todo();
            vec![Effect::SubagentToolResult { index, tool_call_id: id, result, success: true }]
        } else if is_named(name.as_str(), "shell") {
            vec![Effect::RunShell { subagent: Some(index), call_id: id, command: crate::shell::command_or_arguments(args.as_str()) }]
        } else if is_file_tool_exec(name.as_str()) {
            vec![Effect::RunTool { subagent: Some(index), call_id: id, tool_name: name, arguments: args }]
        } else {
            vec![Effect::SubagentToolResult { index, tool_call_id: id, result: "unknown tool".to_owned(), success: false }]
        };
        assert(effect_views(r@) =~= sub_execute_spec(old(self)@, index as int, tc.view()).1);
        r
    }

    /// Processes the next queued call of subagent `index`.
    fn process_subagent_tool_call(&mut self, index: usize) -> (r: Vec<Effect>)
        requires
            old(self).wf(),
            index < old(self)@.subagents.len(),
        ensures
            final(self).wf(),
            (final(self)@, effect_views(r@)) == process_sub_spec(old(self)@, index as int),
    {
        proof {
            reveal(process_sub_spec);
        }
        if self.subagent_states[index].pending_tool_calls.len() == 0 {
            let e = self.start_subagent_streaming(index);
            let r = vec![e];
            assert(effect_views(r@) =~= seq![e.view()]);
            return r;
        }
        let tc = self.subagent_states[index].pending_tool_calls[0].duplicate();
        let d = App::display_of(tc.function.name.as_str(), tc.function.arguments.as_str());
        let key = App::key_of(tc.function.name.as_str(), tc.function.arguments.as_str());
        let ok = self.is_allowed_call(tc.function.name.as_str(), key.as_str());
        let mut note = "\u{2699} ".to_owned();
        append_str(&mut note, tc.function.name.as_str());
        append_str(&mut note, " ");
        append_str(&mut note, d.as_str());
        self.messages.push(ChatEntry::SubagentOutput { index, text: note });
        let ghost v1 = say(old(self)@, EntrySpec::SubagentOutput { index, text: "\u{2699} "@ + tc.view().name + " "@ + display_for(tc.view().name, tc.view().arguments) });
        assert(self@ =~= v1);
        assert(view_wf(self@));
        if ok {
            self.execute_subagent_tool_call(index, tc)
        } else {
            let mut label = "[agent-".to_owned();
            crate::num::push_u64(&mut label, index as u64);
            append_str(&mut label, "] ");
            append_str(&mut label, tc.function.name.as_str());
            self.messages.push(ChatEntry::ToolCall { name: label, command: d.clone(), status: "pending".to_owned() });
            self.pending_permission = Some(PendingPermission {
                tool_name: tc.function.name.clone(),
                command: d,
                tool_call_id: tc.id.clone(),
                arguments: tc.function.arguments.clone(),
            });
            let r: Vec<Effect> = Vec::new();
            assert(effect_views(r@) =~= Seq::<EffectSpec>::empty());
            r
        }
    }

    /// Answers the `subagent` call once no subagent is left running.
    fn check_all_subagents_done(&mut self) -> (r: Vec<Effect>)
        requires
            old(self).wf(),
        ensures
            final(self).wf(),
            (final(self)@, effect_views(r@)) == check_done_spec(old(self)@),
    {
        if self.subagents_pending > 0 {
            let r: Vec<Effect> = Vec::new();
            assert(effect_views(r@) =~= Seq::<EffectSpec>::empty());
            return r;
        }
        let mut combined = String::new();
        let mut i: usize = 0;
        let ghost ss = self@.subagents;
        assert(ss.take(0) =~= Seq::<SubagentView>::empty());
        while i < self.subagent_states.len()
            invariant
                i <= self.subagent_states.len(),
                ss == subagent_views(self.subagent_states@),
                combined@ == all_results(ss.take(i as int)),
            decreases self.subagent_states.len() - i,
        {
            let st = &self.subagent_states[i];
            append_str(&mut combined, "[agent-");
            crate::num::push_u64(&mut combined, st.index as u64);
            append_str(&mut combined, " result]\n");
            let parts = crate::text::join_strings(&st.result_parts, "\n");
            append_str(&mut combined, parts.as_str());
            append_str(&mut combined, "\n\n");
            proof {
                reveal_strlit("[agent-");
                assert(ss.take(i + 1).drop_last() =~= ss.take(i as int));
                assert(ss.take(i + 1).last() == subagent_view(self.subagent_states@[i as int]));
            }
            i = i + 1;
        }
        assert(ss.take(self.subagent_states.len() as int) =~= ss);
        let combined = crate::text::trimmed(combined.as_str());
        match self.subagent_call_id.take() {
            Some(id) => {
                let r = vec![tool_result_effect(id, combined, true)];
                assert(effect_views(r@) =~= seq![r@[0].view()]);
                assert(self@ =~= (AppView { subagent_call_id: None, ..old(self)@ }));
                r
            },
            None => {
                let r: Vec<Effect> = Vec::new();
                assert(effect_views(r@) =~= Seq::<EffectSpec>::empty());
                r
            },
        }
    }

    /// Ends an answer of subagent `index`.
    #[verifier::spinoff_prover]
    #[verifier::rlimit(50)]
    fn finalize_subagent(&mut self, index: usize) -> (r: Vec<Effect>)
        requires
            old(self).wf(),
            index < old(self)@.subagents.len(),
        ensures
            final(self).wf(),
            (final(self)@, effect_views(r@)) == finalize_sub_spec(old(self)@, index as int),
    {
        proof {
            reveal(finalize_sub_spec);
        }
        let mut st = self.subagent_states.remove(index);
        let ghost s0 = subagent_view(st);
        if !st.streaming_buffer.as_str().is_empty() {
            let mut text = String::new();
            std::mem::swap(&mut text, &mut st.streaming_buffer);
            let ghost rp = string_views(st.result_parts@);
            let ghost cv = message_views(st.conversation@);
            st.result_parts.push(text.clone());
            st.conversation.push(Message::text("assistant", text));
            proof {
                reveal_strlit("assistant");
                assert(string_views(st.result_parts@) =~= rp.push(s0.streaming_buffer));
                assert(message_views(st.conversation@) =~= cv.push(assistant_msg(s0.streaming_buffer)));
                assert(st.streaming_buffer@ =~= Seq::<char>::empty());
            }
        }
        let ghost s1 = subagent_view(st);
        assert(s1 == (if s0.streaming_buffer.len() > 0 {
            SubagentView {
                streaming_buffer: seq![],
                result_parts: s0.result_parts.push(s0.streaming_buffer),
                conversation: s0.conversation.push(assistant_msg(s0.streaming_buffer)),
                ..s0
            }
        } else {
            s0
        }));
        if !st.assembling_tool_calls.is_empty() {
            let calls = st.assembling_tool_calls.take_calls();
            let copy = crate::types::duplicate_calls(&calls);
            st.conversation.push(Message { role: "assistant".to_owned(), content: None, tool_calls: Some(copy), tool_call_id: None });
            st.pending_tool_calls = calls;
            proof {
                reveal_strlit("assistant");
            }
            let ghost s2 = subagent_view(st);
            proof {
                let calls_v = entry_calls(s1.assembling);
                assert(s2.assembling =~= Seq::<(u32, ToolCallSpec)>::empty());
                assert(s2.pending == calls_v);
                assert(s2.conversation =~= s1.conversation.push(
                    MessageSpec { role: "assistant"@, content: None, tool_calls: Some(calls_v), tool_call_id: None },
                ));
                assert(s2 == SubagentView {
                    assembling: seq![],
                    conversation: s1.conversation.push(
                        MessageSpec { role: "assistant"@, content: None, tool_calls: Some(calls_v), tool_call_id: None },
                    ),
                    pending: calls_v,
                    ..s1
                });
            }
            self.subagent_states.insert(index, st);
            assert(subagent_views(self.subagent_states@) =~= old(self)@.subagents.update(index as int, s2));
            assert(self@ =~= sub_upd(old(self)@, index as int, s2));
            assert(view_wf(self@)) by {
                let v = self@;
                assert forall|j: int| 0 <= j < v.subagents.len() implies crate::calls::sorted(#[trigger] v.subagents[j].assembling) by {
                    if j != index {
                        assert(old(self)@.subagents[j].assembling == v.subagents[j].assembling);
                    } else {
                        assert(v.subagents[j].assembling =~= Seq::<(u32, ToolCallSpec)>::empty());
                    }
                }
            }
            self.process_subagent_tool_call(index)
        } else {
            st.done = true;
            let ghost s3 = subagent_view(st);
            self.subagent_states.insert(index, st);
            self.subagents_pending = if self.subagents_pending > 0 { self.subagents_pending - 1 } else { 0 };
            assert(subagent_views(self.subagent_states@) =~= old(self)@.subagents.update(index as int, s3));
            assert(s3 == SubagentView { done: true, ..s1 });
            assert(self@ =~= (AppView {
                subagents: old(self)@.subagents.update(index as int, SubagentView { done: true, ..s1 }),
                subagents_pending: if old(self)@.subagents_pending > 0 { (old(self)@.subagents_pending - 1) as usize } else { 0 },
                ..old(self)@
            }));
            assert(view_wf(self@)) by {
                let v = self@;
                assert forall|j: int| 0 <= j < v.subagents.len() implies crate::calls::sorted(#[trigger] v.subagents[j].assembling) by {
                    assert(old(self)@.subagents[j].assembling == v.subagents[j].assembling);
                }
            }
            self.check_all_subagents_done()
        }
    }

    /// Applies a streamed event of subagent `index`.
    pub fn handle_subagent_stream(&mut self, index: usize, event: crate::types::StreamEvent) -> (r: Vec<Effect>)
        requires
            old(self).wf(),
        ensures
            final(self).wf(),
            (final(self)@, effect_views(r@)) == sub_stream_spec(old(self)@, index as int, event.view()),
    {
        if index >= self.subagent_states.len() || self.subagent_states[index].done {
            let r: Vec<Effect> = Vec::new();
            assert(effect_views(r@) =~= Seq::<EffectSpec>::empty());
            return r;
        }
        match event {
            crate::types::StreamEvent::Token(text) => {
                let mut st = self.subagent_states.remove(index);
                append_str(&mut st.streaming_buffer, text.as_str());
                let ghost sv = subagent_view(st);
                self.subagent_states.insert(index, st);
                self.messages.push(ChatEntry::SubagentOutput { index, text });
                assert(subagent_views(self.subagent_states@) =~= old(self)@.subagents.update(index as int, sv));
                assert(view_wf(self@)) by {
                    let v = self@;
                    assert forall|j: int| 0 <= j < v.subagents.len() implies crate::calls::sorted(#[trigger] v.subagents[j].assembling) by {
                        assert(old(self)@.subagents[j].assembling == v.subagents[j].assembling);
                    }
                }
                let r: Vec<Effect> = Vec::new();
                assert(effect_views(r@) =~= Seq::<EffectSpec>::empty());
                r
            },
            crate::types::StreamEvent::ToolCallDelta(delta) => {
                let mut st = self.subagent_states.remove(index);
                assert(crate::calls::sorted(old(self)@.subagents[index as int].assembling));
                st.assembling_tool_calls.apply(delta);
                let ghost sv = subagent_view(st);
                self.subagent_states.insert(index, st);
                assert(subagent_views(self.subagent_states@) =~= old(self)@.subagents.update(index as int, sv));
                assert(view_wf(self@)) by {
                    let v = self@;
                    assert forall|j: int| 0 <= j < v.subagents.len() implies crate::calls::sorted(#[trigger] v.subagents[j].assembling) by {
                        if j != index {
                            assert(old(self)@.subagents[j].assembling == v.subagents[j].assembling);
                        }
                    }
                }
                let r: Vec<Effect> = Vec::new();
                assert(effect_views(r@) =~= Seq::<EffectSpec>::empty());
                r
            },
            crate::types::StreamEvent::Usage(_) => {
                let r: Vec<Effect> = Vec::new();
                assert(effect_views(r@) =~= Seq::<EffectSpec>::empty());
                r
            },
            crate::types::StreamEvent::Done => self.finalize_subagent(index),
        }
    }

    /// Hands a tool's result to subagent `index`.
    pub fn handle_subagent_tool_result(&mut self, index: usize, tool_call_id: String, result: String, success: bool) -> (r: Vec<Effect>)
        requires
            old(self).wf(),
        ensures
            final(self).wf(),
            (final(self)@, effect_views(r@)) == sub_tool_result_spec(old(self)@, index as int, tool_call_id@, result@, success),
    {
        if index >= self.subagent_states.len() {
            let r: Vec<Effect> = Vec::new();
            assert(effect_views(r@) =~= Seq::<EffectSpec>::empty());
            return r;
        }
        let shown = if success { result } else { concat("Error: ", result.as_str()) };
        self.messages.push(ChatEntry::SubagentOutput { index, text: shown.clone() });
        let ghost v1 = self@;
        assert(v1 =~= say(old(self)@, EntrySpec::SubagentOutput { index, text: shown@ }));
        let mut st = self.subagent_states.remove(index);
        st.conversation.push(Message {
            role: "tool".to_owned(),
            content: Some(shown),
            tool_calls: None,
            tool_call_id: Some(tool_call_id),
        });
        proof {
            reveal_strlit("tool");
        }
        let ghost sv = subagent_view(st);
        let ghost s_old = v1.subagents[index as int];
        assert(sv == SubagentView { conversation: s_old.conversation.push(tool_msg(shown@, tool_call_id@)), ..s_old }) by {
            assert(message_views(st.conversation@) =~= s_old.conversation.push(tool_msg(shown@, tool_call_id@)));
        }
        self.subagent_states.insert(index, st);
        assert(subagent_views(self.subagent_states@) =~= v1.subagents.update(index as int, sv));
        assert(self@ =~= sub_upd(v1, index as int, sv));
        assert(view_wf(self@)) by {
            let v = self@;
            assert forall|j: int| 0 <= j < v.subagents.len() implies crate::calls::sorted(#[trigger] v.subagents[j].assembling) by {
                assert(old(self)@.subagents[j].assembling == v.subagents[j].assembling);
            }
        }
        self.process_subagent_tool_call(index)
    }
}


// ───────────────────────── user input and commands ─────────────────────────

pub open spec fn help_text() -> Seq<char> {
    "Commands:\n  /model [name]  \u{2014} switch model\n  /server [name] \u{2014} switch server\n  /tools         \u{2014} list tools\n  /skills        \u{2014} list skills\n  /init          \u{2014} generate AGENTS.md\n  /clear         \u{2014} clear chat\n  /thinking      \u{2014} toggle thinking display\n  /remember <text> \u{2014} save a memory\n  /forget <id>     \u{2014} delete a memory\n  /memory list     \u{2014} list memories\n  /exit          \u{2014} quit\n\nKeybindings:\n  Ctrl+C          \u{2014} stop generating\n  t               \u{2014} toggle thinking"@
}

pub open spec fn init_prompt() -> Seq<char> {
    "Examine this project's structure, languages, and conventions. Then create an AGENTS.md file in the project root that describes:\n\n1. What this project is and its purpose\n2. Key architecture decisions and patterns\n3. Coding conventions (naming, style, error handling)\n4. How to build, test, and run the project\n5. Important files and directories\n6. Any rules an AI agent should follow when working on this codebase\n\nUse the list_files and read_file tools to understand the project, then write_file to create AGENTS.md. Be specific to this project \u{2014} no generic boilerplate."@
}

/// The command word of a line and the trimmed text after its first space.
pub open spec fn split_command(input: Seq<char>) -> (Seq<char>, Option<Seq<char>>) {
    match crate::text::find_char(input, ' ') {
        Some(k) => (input.take(k), Some(trim(input.skip(k + 1)))),
        None => (input, None),
    }
}

pub open spec fn server_lines(s: Seq<(String, ServerConfig)>) -> Seq<Seq<char>> {
    s.map_values(|p: (String, ServerConfig)| "  "@ + p.0@ + " \u{2014} "@ + p.1.name@)
}

pub open spec fn skill_lines(s: Seq<(Seq<char>, Seq<char>, Seq<char>)>) -> Seq<Seq<char>> {
    s.map_values(|k: (Seq<char>, Seq<char>, Seq<char>)| "  /"@ + k.0 + " \u{2014} "@ + k.1)
}

pub open spec fn tools_text(v: AppView) -> Seq<char> {
    "Built-in tools: "@ + dec(v.builtin_tool_count as nat) + (if v.mcp_tool_defs.len() > 0 {
        "\nMCP tools: "@ + dec(v.mcp_tool_defs.len())
    } else {
        seq![]
    }) + "\nTodo tools: todo, todo_complete, wipe_todo"@
}

/// The messages kept by `/clear`: the system ones.
pub open spec fn system_only(c: Seq<MessageSpec>) -> Seq<MessageSpec>
    decreases c.len(),
{
    if c.len() == 0 {
        seq![]
    } else if c.last().role == "system"@ {
        system_only(c.drop_last()).push(c.last())
    } else {
        system_only(c.drop_last())
    }
}

/// The content of the last assistant message, if it has one.
pub open spec fn last_assistant(c: Seq<MessageSpec>) -> Option<Seq<char>>
    decreases c.len(),
{
    if c.len() == 0 {
        None
    } else if c.last().role == "assistant"@ {
        c.last().content
    } else {
        last_assistant(c.drop_last())
    }
}

/// A memory command of the user.
pub open spec fn memory_command_spec(v: AppView, cmd: crate::memory::CommandSpec) -> (AppView, Seq<EffectSpec>) {
    if !v.memory_enabled {
        (say(v, EntrySpec::System("memory disabled: "@ + match v.memory_disabled_reason {
            Some(r) => r,
            None => "not enabled"@,
        })), seq![])
    } else {
        match cmd {
            crate::memory::CommandSpec::Remember { content, scope, kind } => (v, seq![EffectSpec::MemorySave { content, kind, scope }]),
            crate::memory::CommandSpec::RememberThis { scope, kind } => match last_assistant(v.conversation) {
                Some(c) => (v, seq![EffectSpec::MemorySave { content: c, kind, scope }]),
                None => (say(v, EntrySpec::System("no assistant turn to remember"@)), seq![]),
            },
            crate::memory::CommandSpec::Forget { id, scope } => (v, seq![EffectSpec::MemoryForget { id, scope }]),
            crate::memory::CommandSpec::List { scope, limit } => (v, seq![EffectSpec::MemoryList {
                scopes: match scope {
                    Some(s) => seq![s],
                    None => seq![Scope::Global, Scope::Project],
                },
                limit,
            }]),
            crate::memory::CommandSpec::Reindex => (say(v, EntrySpec::System("reindex/accept not implemented yet"@)), seq![]),
            crate::memory::CommandSpec::Accept => (say(v, EntrySpec::System("reindex/accept not implemented yet"@)), seq![]),
            crate::memory::CommandSpec::Disable => (
                say(
                    AppView { memory_enabled: false, memory_disabled_reason: Some("user /memory disable"@), ..v },
                    EntrySpec::System("memory disabled for this session"@),
                ),
                seq![],
            ),
        }
    }
}

/// `/exit` and `/quit`: the session ends, its memories extracted first.
pub open spec fn exit_spec(v: AppView) -> (AppView, Seq<EffectSpec>) {
    (
        AppView { should_quit: true, ..v },
        if v.memory_enabled && v.memory_session_id is Some {
            seq![EffectSpec::ExtractMemories { model: v.active_model }]
        } else {
            seq![]
        },
    )
}

/// `/clear`: the memory session is extracted first (when set to), then
/// background tasks stop, the transcript and all but the system messages
/// go, and the memory session ends.
pub open spec fn clear_spec(v: AppView) -> (AppView, Seq<EffectSpec>) {
    (
        AppView {
            memory_session_id: None,
            bg_tasks: seq![],
            bg_queue: seq![],
            messages: seq![EntrySpec::System("Conversation cleared."@)],
            conversation: system_only(v.conversation),
            ..v
        },
        (if v.memory_enabled && v.memory_session_id is Some && v.config.memory.extraction_on_clear {
            seq![EffectSpec::ExtractMemories { model: v.active_model }]
        } else {
            seq![]
        }) + seq![EffectSpec::AbortAllBackground],
    )
}

/// `/model [name]`: switches the model, or lists the server's models.
pub open spec fn model_spec(v: AppView, arg: Option<Seq<char>>) -> (AppView, Seq<EffectSpec>) {
    match arg {
        Some(m) => (say(AppView { active_model: m, ..v }, EntrySpec::System("Switched to model: "@ + m)), seq![]),
        None => (
            say(v, EntrySpec::System("Current model: "@ + v.active_model + ". Fetching available models..."@)),
            seq![EffectSpec::ListModels],
        ),
    }
}

/// `/server [name]`: switches to a configured server, or lists them.
pub open spec fn server_spec(v: AppView, arg: Option<Seq<char>>) -> AppView {
    match arg {
        Some(name) => match crate::config::key_index(crate::config::server_keys(v.config.servers@), name) {
            Some(i) => {
                let sc = v.config.servers@[i].1;
                say(
                    AppView { server: sc, active_server_name: sc.name@, server_healthy: None, ..v },
                    EntrySpec::System("Switched to server: "@ + sc.name@),
                )
            },
            None => say(
                v,
                EntrySpec::System(
                    "Unknown server '"@ + name + "'. Available: "@ + join(crate::config::server_keys(v.config.servers@), ", "@),
                ),
            ),
        },
        None => say(v, EntrySpec::System("Servers:\n"@ + join(server_lines(v.config.servers@), "\n"@))),
    }
}

pub open spec fn skills_text(v: AppView) -> Seq<char> {
    if v.skills.len() == 0 {
        "No skills loaded."@
    } else {
        "Skills:\n"@ + join(skill_lines(v.skills), "\n"@)
    }
}

pub open spec fn thinking_spec(v: AppView) -> AppView {
    say(
        AppView { show_thinking: !v.show_thinking, ..v },
        EntrySpec::System("Thinking display: "@ + if !v.show_thinking { "visible"@ } else { "hidden"@ }),
    )
}

/// `/<skill>`: the skill's content joins the conversation as a system
/// message; other words are unknown commands.
pub open spec fn skill_cmd_spec(v: AppView, cmd: Seq<char>) -> AppView {
    let name = if cmd.len() > 0 && cmd[0] == '/' { cmd.skip(1) } else { cmd };
    match crate::skills::index_of_name(v.skills, name) {
        Some(i) => say(
            AppView { conversation: v.conversation.push(system_msg(v.skills[i].2)), ..v },
            EntrySpec::System("Skill '"@ + v.skills[i].0 + "' activated."@),
        ),
        None => say(v, EntrySpec::System("Unknown command: "@ + cmd)),
    }
}

/// A slash command of the user: memory commands first, then the built-in
/// ones, then skills.
#[verifier::opaque]
pub open spec fn slash_spec(v: AppView, input: Seq<char>) -> (AppView, Seq<EffectSpec>) {
    match crate::memory::parse_spec(input) {
        Some(Ok(cmd)) => memory_command_spec(v, cmd),
        Some(Err(msg)) => (say(v, EntrySpec::System(msg)), seq![]),
        None => {
            let (cmd, arg) = split_command(input);
            if cmd == "/exit"@ || cmd == "/quit"@ {
                exit_spec(v)
            } else if cmd == "/clear"@ {
                clear_spec(v)
            } else if cmd == "/model"@ {
                model_spec(v, arg)
            } else if cmd == "/server"@ {
                (server_spec(v, arg), seq![])
            } else if cmd == "/tools"@ {
                (say(v, EntrySpec::System(tools_text(v))), seq![])
            } else if cmd == "/skills"@ {
                (say(v, EntrySpec::System(skills_text(v))), seq![])
            } else if cmd == "/init"@ {
                (v, seq![EffectSpec::CheckAgentsFile])
            } else if cmd == "/thinking"@ {
                (thinking_spec(v), seq![])
            } else if cmd == "/help"@ {
                (say(v, EntrySpec::System(help_text())), seq![])
            } else {
                (skill_cmd_spec(v, cmd), seq![])
            }
        },
    }
}

/// What the user typed: nothing for blank input; a slash command; else a
/// user turn (after the recalled memories, when memory is on) that starts
/// a new answer.
pub open spec fn submit_spec(v: AppView, recalled: Option<Seq<char>>) -> (AppView, Seq<EffectSpec>) {
    let input = trim(v.input_buffer);
    if input.len() == 0 {
        (v, seq![])
    } else {
        let v0 = AppView { input_buffer: seq![], ..v };
        if input[0] == '/' {
            slash_spec(v0, input)
        } else {
            let e0 = if v.memory_enabled && v.memory_session_id is None {
                seq![EffectSpec::BeginMemorySession { server: v.active_server_name, model: v.active_model }]
            } else {
                seq![]
            };
            let c0 = match recalled {
                Some(b) => if v.memory_enabled { v.conversation.push(system_msg(b)) } else { v.conversation },
                None => v.conversation,
            };
            let e1 = if v.memory_enabled && v.memory_session_id is Some {
                seq![EffectSpec::ArchiveTurn { role: "user"@, content: input }]
            } else {
                seq![]
            };
            let v1 = AppView {
                messages: v.messages.push(EntrySpec::User(input)),
                conversation: c0.push(user_msg(input)),
                last_token_usage: None,
                ..v0
            };
            (streaming_started(v1), e0 + e1 + seq![EffectSpec::StartStream(request_for(v1, v1.conversation))])
        }
    }
}

/// The answer to `CheckAgentsFile`.
pub open spec fn init_agents_spec(v: AppView, exists: bool) -> (AppView, Seq<EffectSpec>) {
    if exists {
        (say(v, EntrySpec::System("AGENTS.md already exists. Edit it directly to update."@)), seq![])
    } else {
        let v1 = AppView {
            messages: v.messages.push(EntrySpec::System("Generating AGENTS.md for this project..."@)).push(
                EntrySpec::User(init_prompt()),
            ),
            conversation: v.conversation.push(user_msg(init_prompt())),
            ..v
        };
        (streaming_started(v1), seq![EffectSpec::StartStream(request_for(v1, v1.conversation))])
    }
}


/// The command word and argument of a command line.
fn split_command_exec(input: &str) -> (r: (String, Option<String>))
    ensures
        (r.0@, opt_view(r.1)) == split_command(input@),
{
    let v = crate::text::chars_of(input);
    let sp = crate::text::chars_of(" ");
    proof {
        reveal_strlit(" ");
    }
    assert(sp@ =~= seq![' ']);
    match crate::text::find_exec(&v, &sp) {
        Some(k) => {
            assert(k + 1 <= v.len());
            let c = crate::text::string_of_range(&v, 0, k);
            let rest = crate::text::slice_of(&v, k + 1, v.len());
            assert(rest@ =~= v@.skip(k + 1));
            assert(c@ =~= v@.take(k as int));
            (c, Some(crate::text::trim_string(&rest)))
        },
        None => (input.to_owned(), None),
    }
}

impl App {
    /// Carries out a memory command.
    pub fn dispatch_memory_command(&mut self, cmd: crate::memory::Command) -> (r: Vec<Effect>)
        requires
            old(self).wf(),
        ensures
            final(self).wf(),
            (final(self)@, effect_views(r@)) == memory_command_spec(old(self)@, cmd.view()),
    {
        if !self.memory_enabled {
            let reason = match &self.memory_disabled_reason {
                Some(r) => r.clone(),
                None => "not enabled".to_owned(),
            };
            self.messages.push(ChatEntry::System(concat("memory disabled: ", reason.as_str())));
            let r: Vec<Effect> = Vec::new();
            assert(effect_views(r@) =~= Seq::<EffectSpec>::empty());
            assert(self@ =~= memory_command_spec(old(self)@, cmd.view()).0);
            return r;
        }
        let ghost cv = cmd.view();
        let r: Vec<Effect> = match cmd {
            crate::memory::Command::Remember { content, scope, kind } => {
                let r = vec![Effect::MemorySave { content, kind, scope }];
                assert(effect_views(r@) =~= seq![r@[0].view()]);
                r
            },
            crate::memory::Command::RememberThis { scope, kind } => match self.last_assistant_text() {
                Some(c) => {
                    let r = vec![Effect::MemorySave { content: c, kind, scope }];
                    assert(effect_views(r@) =~= seq![r@[0].view()]);
                    r
                },
                None => {
                    self.messages.push(ChatEntry::System("no assistant turn to remember".to_owned()));
                    let r: Vec<Effect> = Vec::new();
                    assert(effect_views(r@) =~= Seq::<EffectSpec>::empty());
                    r
                },
            },
            crate::memory::Command::Forget { id, scope } => {
                let r = vec![Effect::MemoryForget { id, scope }];
                assert(effect_views(r@) =~= seq![r@[0].view()]);
                r
            },
            crate::memory::Command::List { scope, limit } => {
                let mut scopes: Vec<Scope> = Vec::new();
                match scope {
                    Some(sc) => scopes.push(sc),
                    None => {
                        scopes.push(Scope::Global);
                        scopes.push(Scope::Project);
                    },
                }
                assert(scopes@ =~= (match scope {
                    Some(sc) => seq![sc],
                    None => seq![Scope::Global, Scope::Project],
                }));
                let r = vec![Effect::MemoryList { scopes, limit }];
                assert(effect_views(r@) =~= seq![r@[0].view()]);
                r
            },
            crate::memory::Command::Reindex | crate::memory::Command::Accept => {
                self.messages.push(ChatEntry::System("reindex/accept not implemented yet".to_owned()));
                let r: Vec<Effect> = Vec::new();
                assert(effect_views(r@) =~= Seq::<EffectSpec>::empty());
                r
            },
            crate::memory::Command::Disable => {
                self.memory_enabled = false;
                self.memory_disabled_reason = Some("user /memory disable".to_owned());
                self.messages.push(ChatEntry::System("memory disabled for this session".to_owned()));
                let r: Vec<Effect> = Vec::new();
                assert(effect_views(r@) =~= Seq::<EffectSpec>::empty());
                r
            },
        };
        assert(self@ =~= memory_command_spec(old(self)@, cv).0);
        assert(effect_views(r@) =~= memory_command_spec(old(self)@, cv).1);
        r
    }

    /// The content of the last assistant message, if it has one.
    fn last_assistant_text(&self) -> (r: Option<String>)
        ensures
            opt_view(r) == last_assistant(self@.conversation),
    {
        let ghost c = self@.conversation;
        let mut i = self.conversation.len();
        assert(c.take(i as int) =~= c);
        while i > 0
            invariant
                i <= self.conversation.len(),
                c == message_views(self.conversation@),
                last_assistant(c) == last_assistant(c.take(i as int)),
            decreases i,
        {
            assert(c.take(i as int).drop_last() =~= c.take(i - 1));
            assert(c.take(i as int).last() == self.conversation@[i - 1].view());
            if is_named(self.conversation[i - 1].role.as_str(), "assistant") {
                return match &self.conversation[i - 1].content {
                    Some(t) => Some(t.clone()),
                    None => None,
                };
            }
            i = i - 1;
        }
        None
    }

    /// The system messages of the conversation.
    fn system_messages(&self) -> (r: Vec<Message>)
        ensures
            message_views(r@) == system_only(self@.conversation),
    {
        let ghost c = self@.conversation;
        let mut out: Vec<Message> = Vec::new();
        let mut i: usize = 0;
        assert(c.take(0) =~= Seq::<MessageSpec>::empty());
        while i < self.conversation.len()
            invariant
                i <= self.conversation.len(),
                c == message_views(self.conversation@),
                message_views(out@) == system_only(c.take(i as int)),
            decreases self.conversation.len() - i,
        {
            assert(c.take(i + 1).drop_last() =~= c.take(i as int));
            assert(c.take(i + 1).last() == self.conversation@[i as int].view());
            if is_named(self.conversation[i].role.as_str(), "system") {
                let ghost ob = message_views(out@);
                out.push(self.conversation[i].duplicate());
                assert(message_views(out@) =~= ob.push(self.conversation@[i as int].view()));
            }
            i = i + 1;
        }
        assert(c.take(self.conversation.len() as int) =~= c);
        out
    }
}


impl App {
    /// Adds a system note to the transcript.
    fn note(&mut self, text: String)
        requires
            old(self).wf(),
        ensures
            final(self).wf(),
            final(self)@ == say(old(self)@, EntrySpec::System(text@)),
    {
        self.messages.push(ChatEntry::System(text));
        assert(self@ =~= say(old(self)@, EntrySpec::System(text@)));
    }

    /// Runs a slash command.
    pub fn handle_slash_command(&mut self, input: &str) -> (r: Vec<Effect>)
        requires
            old(self).wf(),
        ensures
            final(self).wf(),
            (final(self)@, effect_views(r@)) == slash_spec(old(self)@, input@),
    {
        proof {
            reveal(slash_spec);
        }
        match crate::memory::parse(input) {
            Some(Ok(cmd)) => {
                return self.dispatch_memory_command(cmd);
            },
            Some(Err(msg)) => {
                self.note(msg);
                let r: Vec<Effect> = Vec::new();
                assert(effect_views(r@) =~= Seq::<EffectSpec>::empty());
                return r;
            },
            None => {},
        }
        let (cmd, arg) = split_command_exec(input);
        let c = cmd.as_str();
        let mut r: Vec<Effect> = Vec::new();
        if is_named(c, "/exit") || is_named(c, "/quit") {
            self.should_quit = true;
            if self.memory_enabled && self.memory_session_id.is_some() {
                r.push(Effect::ExtractMemories { model: self.active_model.clone() });
            }
            assert(self@ =~= exit_spec(old(self)@).0);
        } else if is_named(c, "/clear") {
            if self.memory_enabled && self.memory_session_id.is_some() && self.config.memory.extraction_on_clear {
                r.push(Effect::ExtractMemories { model: self.active_model.clone() });
            }
            self.cmd_clear();
            r.push(Effect::AbortAllBackground);
        } else if is_named(c, "/model") {
            match arg {
                Some(m) => {
                    self.active_model = m.clone();
                    self.note(concat("Switched to model: ", m.as_str()));
                },
                None => {
                    let mut t = "Current model: ".to_owned();
                    append_str(&mut t, self.active_model.as_str());
                    append_str(&mut t, ". Fetching available models...");
                    self.note(t);
                    r.push(Effect::ListModels);
                },
            }
        } else if is_named(c, "/server") {
            self.cmd_server(arg);
        } else if is_named(c, "/tools") {
            let t = self.tools_text_exec();
            self.note(t);
        } else if is_named(c, "/skills") {
            let t = self.skills_text_exec();
            self.note(t);
        } else if is_named(c, "/init") {
            r.push(Effect::CheckAgentsFile);
        } else if is_named(c, "/thinking") {
            self.show_thinking = !self.show_thinking;
            let t = concat("Thinking display: ", if self.show_thinking { "visible" } else { "hidden" });
            self.note(t);
        } else if is_named(c, "/help") {
            self.note("Commands:\n  /model [name]  \u{2014} switch model\n  /server [name] \u{2014} switch server\n  /tools         \u{2014} list tools\n  /skills        \u{2014} list skills\n  /init          \u{2014} generate AGENTS.md\n  /clear         \u{2014} clear chat\n  /thinking      \u{2014} toggle thinking display\n  /remember <text> \u{2014} save a memory\n  /forget <id>     \u{2014} delete a memory\n  /memory list     \u{2014} list memories\n  /exit          \u{2014} quit\n\nKeybindings:\n  Ctrl+C          \u{2014} stop generating\n  t               \u{2014} toggle thinking".to_owned());
        } else {
            self.cmd_skill(c);
        }
        assert(effect_views(r@) =~= slash_spec(old(self)@, input@).1);
        r
    }

    fn cmd_clear(&mut self)
        requires
            old(self).wf(),
        ensures
            final(self).wf(),
            final(self)@ == clear_spec(old(self)@).0,
    {
        self.memory_session_id = None;
        self.bg_tasks.clear_all();
        self.messages.clear();
        self.conversation = self.system_messages();
        self.messages.push(ChatEntry::System("Conversation cleared.".to_owned()));
        assert(self@ =~= clear_spec(old(self)@).0);
    }

    fn cmd_server(&mut self, arg: Option<String>)
        requires
            old(self).wf(),
        ensures
            final(self).wf(),
            final(self)@ == server_spec(old(self)@, opt_view(arg)),
    {
        match arg {
            Some(name) => {
                match self.config.server(name.as_str()) {
                    Some(sc) => {
                        let sc2 = sc.duplicate();
                        let t = concat("Switched to server: ", sc2.name.as_str());
                        self.active_server_name = sc2.name.clone();
                        self.server = sc2;
                        self.server_healthy = None;
                        self.note(t);
                    },
                    None => {
                        let keys = self.server_key_list();
                        let list = crate::text::join_strings(&keys, ", ");
                        let mut t = "Unknown server '".to_owned();
                        append_str(&mut t, name.as_str());
                        append_str(&mut t, "'. Available: ");
                        append_str(&mut t, list.as_str());
                        self.note(t);
                    },
                }
            },
            None => {
                let lines = self.server_line_list();
                let list = crate::text::join_strings(&lines, "\n");
                let t = concat("Servers:\n", list.as_str());
                self.note(t);
            },
        }
    }

    fn server_key_list(&self) -> (r: Vec<String>)
        ensures
            string_views(r@) == crate::config::server_keys(self.config.servers@),
    {
        let mut out: Vec<String> = Vec::new();
        let mut i: usize = 0;
        while i < self.config.servers.len()
            invariant
                i <= self.config.servers.len(),
                string_views(out@) == crate::config::server_keys(self.config.servers@).take(i as int),
            decreases self.config.servers.len() - i,
        {
            let ghost ob = string_views(out@);
            out.push(self.config.servers[i].0.clone());
            assert(string_views(out@) =~= ob.push(self.config.servers@[i as int].0@));
            assert(crate::config::server_keys(self.config.servers@).take(i + 1) =~= crate::config::server_keys(self.config.servers@).take(i as int).push(self.config.servers@[i as int].0@));
            i = i + 1;
        }
        assert(crate::config::server_keys(self.config.servers@).take(i as int) =~= crate::config::server_keys(self.config.servers@));
        out
    }

    fn server_line_list(&self) -> (r: Vec<String>)
        ensures
            string_views(r@) == server_lines(self.config.servers@),
    {
        let mut out: Vec<String> = Vec::new();
        let mut i: usize = 0;
        while i < self.config.servers.len()
            invariant
                i <= self.config.servers.len(),
                string_views(out@) == server_lines(self.config.servers@).take(i as int),
            decreases self.config.servers.len() - i,
        {
            let mut l = "  ".to_owned();
            append_str(&mut l, self.config.servers[i].0.as_str());
            append_str(&mut l, " \u{2014} ");
            append_str(&mut l, self.config.servers[i].1.name.as_str());
            let ghost ob = string_views(out@);
            out.push(l);
            assert(string_views(out@) =~= ob.push(l@));
            assert(server_lines(self.config.servers@).take(i + 1) =~= server_lines(self.config.servers@).take(i as int).push(l@));
            i = i + 1;
        }
        assert(server_lines(self.config.servers@).take(i as int) =~= server_lines(self.config.servers@));
        out
    }

    fn tools_text_exec(&self) -> (r: String)
        ensures
            r@ == tools_text(self@),
    {
        let mut t = "Built-in tools: ".to_owned();
        crate::num::push_u64(&mut t, self.builtin_tool_count as u64);
        if self.mcp_tool_defs.len() > 0 {
            append_str(&mut t, "\nMCP tools: ");
            crate::num::push_u64(&mut t, self.mcp_tool_defs.len() as u64);
        }
        append_str(&mut t, "\nTodo tools: todo, todo_complete, wipe_todo");
        proof {
            reveal_strlit("Built-in tools: ");
        }
        t
    }

    fn skills_text_exec(&self) -> (r: String)
        ensures
            r@ == skills_text(self@),
    {
        if self.skills.is_empty() {
            return "No skills loaded.".to_owned();
        }
        let mut lines: Vec<String> = Vec::new();
        let mut i: usize = 0;
        let ghost sk = self@.skills;
        while i < self.skills.skills.len()
            invariant
                i <= self.skills.skills.len(),
                sk == self.skills@,
                string_views(lines@) == skill_lines(sk).take(i as int),
            decreases self.skills.skills.len() - i,
        {
            let mut l = "  /".to_owned();
            append_str(&mut l, self.skills.skills[i].name.as_str());
            append_str(&mut l, " \u{2014} ");
            append_str(&mut l, self.skills.skills[i].description.as_str());
            let ghost ob = string_views(lines@);
            lines.push(l);
            assert(string_views(lines@) =~= ob.push(l@));
            assert(skill_lines(sk).take(i + 1) =~= skill_lines(sk).take(i as int).push(l@));
            i = i + 1;
        }
        assert(skill_lines(sk).take(i as int) =~= skill_lines(sk));
        let list = crate::text::join_strings(&lines, "\n");
        concat("Skills:\n", list.as_str())
    }

    fn cmd_skill(&mut self, cmd: &str)
        requires
            old(self).wf(),
        ensures
            final(self).wf(),
            final(self)@ == skill_cmd_spec(old(self)@, cmd@),
    {
        let v = crate::text::chars_of(cmd);
        let start: usize = if v.len() > 0 && v[0] == '/' { 1 } else { 0 };
        let name = crate::text::string_of_range(&v, start, v.len());
        assert(name@ =~= (if cmd@.len() > 0 && cmd@[0] == '/' { cmd@.skip(1) } else { cmd@ }));
        proof {
            crate::skills::lemma_index_of_name(self.skills@, name@);
        }
        match self.skills.position(name.as_str()) {
            Some(i) => {
                let content = self.skills.skills[i].content.clone();
                let mut t = "Skill '".to_owned();
                append_str(&mut t, self.skills.skills[i].name.as_str());
                append_str(&mut t, "' activated.");
                self.conversation.push(Message::text("system", content));
                proof {
                    reveal_strlit("system");
                }
                assert(self@ =~= (AppView { conversation: old(self)@.conversation.push(system_msg(old(self)@.skills[i as int].2)), ..old(self)@ }));
                self.note(t);
            },
            None => {
                self.note(concat("Unknown command: ", cmd));
            },
        }
    }
}


impl App {
    /// Takes what the user typed. `recalled` is the block of memories
    /// recalled for it, used when memory is on.
    pub fn submit_message(&mut self, recalled: Option<String>) -> (r: Vec<Effect>)
        requires
            old(self).wf(),
        ensures
            final(self).wf(),
            (final(self)@, effect_views(r@)) == submit_spec(old(self)@, opt_view(recalled)),
    {
        let input = crate::text::trimmed(self.input_buffer.as_str());
        if input.as_str().is_empty() {
            let r: Vec<Effect> = Vec::new();
            assert(effect_views(r@) =~= Seq::<EffectSpec>::empty());
            return r;
        }
        self.input_buffer = String::new();
        assert(self@ =~= (AppView { input_buffer: seq![], ..old(self)@ }));
        let iv = crate::text::chars_of(input.as_str());
        if iv[0] == '/' {
            return self.handle_slash_command(input.as_str());
        }
        let mut effects: Vec<Effect> = Vec::new();
        if self.memory_enabled && self.memory_session_id.is_none() {
            effects.push(Effect::BeginMemorySession { server: self.active_server_name.clone(), model: self.active_model.clone() });
        }
        if self.memory_enabled {
            match recalled {
                Some(b) => {
                    self.conversation.push(Message::text("system", b));
                },
                None => {},
            }
        }
        proof {
            reveal_strlit("system");
            reveal_strlit("user");
        }
        self.messages.push(ChatEntry::User(input.clone()));
        self.conversation.push(Message::text("user", input.clone()));
        if self.memory_enabled && self.memory_session_id.is_some() {
            effects.push(Effect::ArchiveTurn { role: "user".to_owned(), content: input.clone() });
        }
        self.last_token_usage = None;
        proof {
            let v = old(self)@;
            let inp = trim(v.input_buffer);
            let c0 = match opt_view(recalled) {
                Some(b) => if v.memory_enabled { v.conversation.push(system_msg(b)) } else { v.conversation },
                None => v.conversation,
            };
            assert(self@ =~= (AppView {
                messages: v.messages.push(EntrySpec::User(inp)),
                conversation: c0.push(user_msg(inp)),
                last_token_usage: None,
                input_buffer: seq![],
                ..v
            }));
        }
        let ghost e01 = effect_views(effects@);
        let e = self.start_streaming();
        effects.push(e);
        assert(effect_views(effects@) =~= e01.push(e.view()));
        assert(effect_views(effects@) =~= submit_spec(old(self)@, opt_view(recalled)).1);
        effects
    }

    /// Goes on with `/init` once it is known whether `AGENTS.md` exists.
    pub fn init_agents(&mut self, exists: bool) -> (r: Vec<Effect>)
        requires
            old(self).wf(),
        ensures
            final(self).wf(),
            (final(self)@, effect_views(r@)) == init_agents_spec(old(self)@, exists),
    {
        if exists {
            self.note("AGENTS.md already exists. Edit it directly to update.".to_owned());
            let r: Vec<Effect> = Vec::new();
            assert(effect_views(r@) =~= Seq::<EffectSpec>::empty());
            return r;
        }
        let prompt = "Examine this project's structure, languages, and conventions. Then create an AGENTS.md file in the project root that describes:\n\n1. What this project is and its purpose\n2. Key architecture decisions and patterns\n3. Coding conventions (naming, style, error handling)\n4. How to build, test, and run the project\n5. Important files and directories\n6. Any rules an AI agent should follow when working on this codebase\n\nUse the list_files and read_file tools to understand the project, then write_file to create AGENTS.md. Be specific to this project \u{2014} no generic boilerplate.";
        self.messages.push(ChatEntry::System("Generating AGENTS.md for this project...".to_owned()));
        self.messages.push(ChatEntry::User(prompt.to_owned()));
        self.conversation.push(Message::text("user", prompt.to_owned()));
        proof {
            reveal_strlit("user");
        }
        assert(self@ =~= (AppView {
            messages: old(self)@.messages.push(EntrySpec::System("Generating AGENTS.md for this project..."@)).push(
                EntrySpec::User(init_prompt()),
            ),
            conversation: old(self)@.conversation.push(user_msg(init_prompt())),
            ..old(self)@
        }));
        let e = self.start_streaming();
        let r = vec![e];
        assert(effect_views(r@) =~= seq![e.view()]);
        r
    }
}

/// A memory recalled for a question.
pub struct Recalled {
    pub scope: Scope,
    pub kind: Option<Kind>,
    pub content: String,
}

pub open spec fn recalled_line(m: (Scope, Option<Kind>, Seq<char>)) -> Seq<char> {
    "- ["@ + crate::memory::scope_name(m.0) + "/"@ + (match m.1 {
        Some(k) => crate::memory::kind_name(k),
        None => "chunk"@,
    }) + "] "@ + m.2 + "\n"@
}

pub open spec fn recalled_lines(ms: Seq<(Scope, Option<Kind>, Seq<char>)>) -> Seq<char>
    decreases ms.len(),
{
    if ms.len() == 0 {
        seq![]
    } else {
        recalled_lines(ms.drop_last()) + recalled_line(ms.last())
    }
}

pub open spec fn recalled_views(s: Seq<Recalled>) -> Seq<(Scope, Option<Kind>, Seq<char>)> {
    s.map_values(|m: Recalled| (m.scope, m.kind, m.content@))
}

fn recalled_line_of(it: &Recalled) -> (r: String)
    ensures
        r@ == recalled_line((it.scope, it.kind, it.content@)),
{
    let mut out = "- [".to_owned();
    append_str(&mut out, match it.scope {
        Scope::Global => "global",
        Scope::Project => "project",
    });
    append_str(&mut out, "/");
    match it.kind {
        Some(k) => append_str(&mut out, k.as_str()),
        None => append_str(&mut out, "chunk"),
    }
    append_str(&mut out, "] ");
    append_str(&mut out, it.content.as_str());
    append_str(&mut out, "\n");
    out
}

/// The block of recalled memories put before a user turn: one line per
/// memory inside `<memory>` tags; none when nothing was recalled.
pub fn memory_block(items: &Vec<Recalled>) -> (r: Option<String>)
    ensures
        match r {
            None => items@.len() == 0,
            Some(b) => items@.len() > 0 && b@ == "<memory>\n"@ + recalled_lines(recalled_views(items@)) + "</memory>\n"@,
        },
{
    if items.len() == 0 {
        return None;
    }
    let ghost ms = recalled_views(items@);
    let mut out = "<memory>\n".to_owned();
    let mut i: usize = 0;
    assert(ms.take(0) =~= Seq::<(Scope, Option<Kind>, Seq<char>)>::empty());
    while i < items.len()
        invariant
            i <= items.len(),
            ms == recalled_views(items@),
            out@ == "<memory>\n"@ + recalled_lines(ms.take(i as int)),
        decreases items.len() - i,
    {
        let it = &items[i];
        let line = recalled_line_of(it);
        append_str(&mut out, line.as_str());
        proof {
            assert(ms.take(i + 1).drop_last() =~= ms.take(i as int));
            assert(ms.take(i + 1).last() == (it.scope, it.kind, it.content@));
        }
        i = i + 1;
    }
    assert(ms.take(items.len() as int) =~= ms);
    append_str(&mut out, "</memory>\n");
    Some(out)
}


// ───────────────────────── a new session ─────────────────────────

/// The instructions that open every conversation, naming the working
/// directory.
pub open spec fn system_prompt(cwd: Seq<char>) -> Seq<char> {
     "You are an expert software engineer working as a CLI coding assistant. You have access to tools that let you interact with the user's system: shell (run commands), read_file, write_file, edit_file, list_files, todo (track tasks), and subagent (spawn parallel workers).\n\nCRITICAL RULES:\n- ALWAYS use your tools to accomplish tasks. Do NOT tell the user to run commands themselves \u{2014} execute them directly with the shell tool.\n- When asked to create files or projects, use shell and write_file to do it.\n- When asked to modify code, use read_file to see it, then edit_file or write_file to change it.\n- For multi-step tasks, use the todo tool to create a plan, then execute each step, marking items complete as you go.\n- Be concise in your text responses. Let tool outputs speak for themselves.\n- The working directory is: "@ + cwd + "\n- Every shell command runs in a NEW sh -c subprocess from "@ + cwd + ".\n- cd has no effect on subsequent commands \u{2014} use 'cd /path && cmd' in ONE command.\n- You can run multiple tool calls in sequence \u{2014} after each tool result you will get a chance to call more tools or respond to the user.\n\nSHELL COMMANDS MUST BE NON-INTERACTIVE:\n- stdin is /dev/null \u{2014} commands cannot prompt for input.\n- Always use flags that skip confirmation prompts:\nnpm: --yes or -y (e.g. 'npm init -y', 'npx --yes create-vite')\napt: -y\npip: --yes or use pip install directly\ngit: --no-edit where applicable\nrm: use -f when deletion is intended\n- For commands that might prompt, pipe 'yes |' or use CI=true.\n- Never run interactive editors (vim, nano) \u{2014} use write_file/edit_file instead."@
}

/// The project's rule files that are not blank, as system messages.
pub open spec fn rule_messages(rs: Seq<Seq<char>>) -> Seq<MessageSpec>
    decreases rs.len(),
{
    if rs.len() == 0 {
        seq![]
    } else {
        rule_messages(rs.drop_last()) + if trim(rs.last()).len() > 0 {
            seq![system_msg(rs.last())]
        } else {
            seq![]
        }
    }
}

/// The conversation a session starts with: the instructions, the rule
/// files, and the matching editor rules joined into one message.
pub open spec fn initial_conversation(cwd: Seq<char>, rules: Seq<Seq<char>>, mdc: Seq<Seq<char>>) -> Seq<MessageSpec> {
    seq![system_msg(system_prompt(cwd))] + rule_messages(rules) + if mdc.len() > 0 {
        seq![system_msg(join(mdc, "\n\n---\n\n"@))]
    } else {
        seq![]
    }
}

/// The tools that run without asking in every session.
pub open spec fn session_tools() -> Seq<Seq<char>> {
    seq!["read_file"@, "write_file"@, "edit_file"@, "list_files"@, "todo"@, "todo_complete"@, "wipe_todo"@, "subagent"@]
}

/// The server used when the default one is not configured.
pub open spec fn fallback_server(s: ServerConfig) -> bool {
    s.name@ == "Local Ollama"@ && s.url@ == "http://localhost:11434/v1"@ && s.api_key is None
}

impl App {
    /// A new session with the given settings, built-in tools, saved
    /// permissions and skills, working directory, the texts of the rule
    /// files that exist, and the editor rules that apply.
    pub fn new(
        config: AppConfig,
        builtin_tool_defs: Vec<ToolDefinition>,
        builtin_tool_count: usize,
        permissions: PermissionManager,
        skills: SkillSet,
        cwd: &str,
        rule_texts: Vec<String>,
        mdc_rules: Vec<String>,
        memory_enabled: bool,
    ) -> (r: App)
        requires
            config.wf(),
            skills.wf(),
            builtin_tool_count <= usize::MAX - 4,
            forall|i: int| 0 <= i < config.theme.colors@.len() ==> crate::theme::hex_cut_ok(#[trigger] config.theme.colors@[i].1@),
        ensures
            r.wf(),
            r@.messages.len() == 0,
            r@.conversation == initial_conversation(cwd@, string_views(rule_texts@), string_views(mdc_rules@)),
            r@.input_buffer.len() == 0,
            r@.streaming_buffer.len() == 0,
            r@.active_model == config.defaults.model@,
            match crate::config::key_index(crate::config::server_keys(config.servers@), config.defaults.server@) {
                Some(i) => r@.server == config.servers@[i].1,
                None => fallback_server(r@.server),
            },
            r@.active_server_name == r@.server.name@,
            r@.tool_count == builtin_tool_count + 4,
            r@.pending_permission is None,
            r@.pattern_input is None,
            !r@.yolo,
            !r@.should_quit,
            r@.show_thinking == config.defaults.show_thinking,
            r@.config == config,
            r@.theme == crate::theme::apply_overrides(
                crate::theme::preset_spec(config.theme.preset@),
                crate::theme::override_views(config.theme.colors@),
            ),
            r@.builtin_tool_defs == def_views(builtin_tool_defs@),
            r@.builtin_tool_count == builtin_tool_count,
            r@.permissions == permissions.rules(),
            r@.skills == skills@,
            r@.mcp_tool_defs.len() == 0,
            r@.mcp_tool_map.len() == 0,
            r@.mcp_server_names.len() == 0,
            r@.pending_tool_calls.len() == 0,
            r@.assembling.len() == 0,
            r@.session_allow == session_tools(),
            r@.tool_output_buffer.len() == 0,
            r@.thinking_buffer.len() == 0,
            !r@.in_thinking,
            !r@.waiting_for_response,
            r@.anim_frame == 0,
            r@.todo_items.len() == 0,
            r@.server_healthy is None,
            r@.last_token_usage is None,
            r@.streaming_token_count == 0,
            r@.subagents.len() == 0,
            r@.subagents_pending == 0,
            r@.consecutive_errors == 0,
            r@.subagent_call_id is None,
            r@.bg_tasks.len() == 0,
            r@.bg_queue.len() == 0,
            r@.memory_enabled == memory_enabled,
            r@.memory_session_id is None,
            r@.memory_disabled_reason is None,
    {
        let theme = crate::theme::Theme::from_config(config.theme.preset.as_str(), &config.theme.colors);
        let server = match config.server(config.defaults.server.as_str()) {
            Some(sc) => sc.duplicate(),
            None => ServerConfig {
                name: "Local Ollama".to_owned(),
                url: "http://localhost:11434/v1".to_owned(),
                api_key: None,
            },
        };
        let mut conversation: Vec<Message> = Vec::new();
        let mut prompt =  "You are an expert software engineer working as a CLI coding assistant. You have access to tools that let you interact with the user's system: shell (run commands), read_file, write_file, edit_file, list_files, todo (track tasks), and subagent (spawn parallel workers).\n\nCRITICAL RULES:\n- ALWAYS use your tools to accomplish tasks. Do NOT tell the user to run commands themselves \u{2014} execute them directly with the shell tool.\n- When asked to create files or projects, use shell and write_file to do it.\n- When asked to modify code, use read_file to see it, then edit_file or write_file to change it.\n- For multi-step tasks, use the todo tool to create a plan, then execute each step, marking items complete as you go.\n- Be concise in your text responses. Let tool outputs speak for themselves.\n- The working directory is: ".to_owned();
        append_str(&mut prompt, cwd);
        append_str(&mut prompt, "\n- Every shell command runs in a NEW sh -c subprocess from ");
        append_str(&mut prompt, cwd);
        append_str(&mut prompt, ".\n- cd has no effect on subsequent commands \u{2014} use 'cd /path && cmd' in ONE command.\n- You can run multiple tool calls in sequence \u{2014} after each tool result you will get a chance to call more tools or respond to the user.\n\nSHELL COMMANDS MUST BE NON-INTERACTIVE:\n- stdin is /dev/null \u{2014} commands cannot prompt for input.\n- Always use flags that skip confirmation prompts:\nnpm: --yes or -y (e.g. 'npm init -y', 'npx --yes create-vite')\napt: -y\npip: --yes or use pip install directly\ngit: --no-edit where applicable\nrm: use -f when deletion is intended\n- For commands that might prompt, pipe 'yes |' or use CI=true.\n- Never run interactive editors (vim, nano) \u{2014} use write_file/edit_file instead.");
        conversation.push(Message::text("system", prompt));
        proof {
            reveal_strlit("system");
        }
        let ghost rv = string_views(rule_texts@);
        let mut i: usize = 0;
        assert(rv.take(0) =~= Seq::<Seq<char>>::empty());
        while i < rule_texts.len()
            invariant
                i <= rule_texts.len(),
                rv == string_views(rule_texts@),
                message_views(conversation@) == seq![system_msg(system_prompt(cwd@))] + rule_messages(rv.take(i as int)),
            decreases rule_texts.len() - i,
        {
            let ghost cb = message_views(conversation@);
            let ghost head = seq![system_msg(system_prompt(cwd@))];
            let ghost rm = rule_messages(rv.take(i as int));
            proof {
                reveal_strlit("system");
                assert(rv.take(i + 1).drop_last() =~= rv.take(i as int));
                assert(rv.take(i + 1).last() == rule_texts@[i as int]@);
            }
            if !crate::text::is_blank(rule_texts[i].as_str()) {
                conversation.push(Message::text("system", rule_texts[i].clone()));
                assert(message_views(conversation@) =~= cb.push(system_msg(rule_texts@[i as int]@)));
                assert(rule_messages(rv.take(i + 1)) =~= rm + seq![system_msg(rule_texts@[i as int]@)]);
            } else {
                assert(rule_messages(rv.take(i + 1)) =~= rm + Seq::<MessageSpec>::empty());
            }
            assert(message_views(conversation@) =~= seq![system_msg(system_prompt(cwd@))] + rule_messages(rv.take(i + 1)));
            i = i + 1;
        }
        assert(rv.take(rule_texts.len() as int) =~= rv);
        if mdc_rules.len() > 0 {
            let combined = crate::text::join_strings(&mdc_rules, "\n\n---\n\n");
            let ghost cb = message_views(conversation@);
            conversation.push(Message::text("system", combined));
            assert(message_views(conversation@) =~= cb.push(system_msg(join(string_views(mdc_rules@), "\n\n---\n\n"@))));
        }
        let mut session_allow: Vec<String> = Vec::new();
        session_allow.push("read_file".to_owned());
        session_allow.push("write_file".to_owned());
        session_allow.push("edit_file".to_owned());
        session_allow.push("list_files".to_owned());
        session_allow.push("todo".to_owned());
        session_allow.push("todo_complete".to_owned());
        session_allow.push("wipe_todo".to_owned());
        session_allow.push("subagent".to_owned());
        assert(string_views(session_allow@) =~= session_tools());
        let active_model = config.defaults.model.clone();
        let show_thinking = config.defaults.show_thinking;
        let active_server_name = server.name.clone();
        let r = App {
            messages: Vec::new(),
            conversation,
            input_buffer: String::new(),
            streaming_buffer: String::new(),
            active_model,
            active_server_name,
            tool_count: builtin_tool_count + 4,
            pending_permission: None,
            pattern_input: None,
            yolo: false,
            should_quit: false,
            show_thinking,
            config,
            theme,
            server,
            builtin_tool_defs,
            builtin_tool_count,
            permissions,
            skills,
            mcp_tool_defs: Vec::new(),
            mcp_tool_map: Vec::new(),
            mcp_server_names: Vec::new(),
            pending_tool_calls: Vec::new(),
            assembling_tool_calls: PartialCalls::new(),
            session_allow,
            tool_output_buffer: String::new(),
            thinking_buffer: String::new(),
            in_thinking: false,
            waiting_for_response: false,
            anim_frame: 0,
            todo_items: Vec::new(),
            server_healthy: None,
            last_token_usage: None,
            streaming_token_count: 0,
            subagent_states: Vec::new(),
            subagents_pending: 0,
            consecutive_errors: 0,
            subagent_call_id: None,
            bg_tasks: BackgroundTaskManager::new(),
            memory_enabled,
            memory_session_id: None,
            memory_disabled_reason: None,
        };
        assert(r@.subagents =~= Seq::<SubagentView>::empty());
        r
    }
}


// ───────────────────────── runner events ─────────────────────────

/// A key the user pressed, as the session reads it.
#[allow(inconsistent_fields)]
pub enum Key {
    Char { c: char, ctrl: bool },
    Enter,
    Esc,
    Backspace,
    Other,
}

/// `s` without its last character.
pub open spec fn pop_last(s: Seq<char>) -> Seq<char> {
    if s.len() > 0 { s.drop_last() } else { s }
}

/// A key press: while a pattern is typed, it edits the pattern; while a
/// permission question is open, `a`/`d`/`s`/`p` answer it (allow, deny,
/// allow and save, type a pattern); otherwise it edits the input, with
/// Ctrl+C and space stopping an answer being streamed (Ctrl+C quits when
/// none is), `t` showing or hiding thinking while one streams, Enter
/// sending the input (after recalling memories, when memory is on), and
/// Esc quitting.
pub open spec fn key_spec(v: AppView, k: Key) -> (AppView, Seq<EffectSpec>) {
    match v.pattern_input {
        Some(p) => match k {
            Key::Enter => {
                let v1 = AppView {
                    pattern_input: None,
                    permissions: if p.len() > 0 { v.permissions.push(p) } else { v.permissions },
                    ..v
                };
                (
                    permission_spec(v1, true, false).0,
                    (if p.len() > 0 { seq![EffectSpec::SavePermissions] } else { seq![] }) + permission_spec(v1, true, false).1,
                )
            },
            Key::Esc => (AppView { pattern_input: None, ..v }, seq![]),
            Key::Char { c, ctrl: _ } => (AppView { pattern_input: Some(p.push(c)), ..v }, seq![]),
            Key::Backspace => (AppView { pattern_input: Some(pop_last(p)), ..v }, seq![]),
            Key::Other => (v, seq![]),
        },
        None => if v.pending_permission is Some {
            match k {
                Key::Char { c, ctrl: _ } => if c == 'a' || c == 'A' {
                    permission_spec(v, true, false)
                } else if c == 'd' || c == 'D' {
                    permission_spec(v, false, false)
                } else if c == 's' || c == 'S' {
                    permission_spec(v, true, true)
                } else if c == 'p' || c == 'P' {
                    (AppView { pattern_input: Some(seq![]), ..v }, seq![])
                } else {
                    (v, seq![])
                },
                _ => (v, seq![]),
            }
        } else {
            match k {
                Key::Char { c, ctrl } => if c == 'c' && ctrl {
                    if v.waiting_for_response {
                        abort_spec(v)
                    } else {
                        (AppView { should_quit: true, ..v }, seq![])
                    }
                } else if (c == 't' || c == 'T') && v.waiting_for_response {
                    (AppView { show_thinking: !v.show_thinking, ..v }, seq![])
                } else if c == ' ' && v.waiting_for_response {
                    abort_spec(v)
                } else {
                    (AppView { input_buffer: v.input_buffer.push(c), ..v }, seq![])
                },
                Key::Enter => {
                    let input = trim(v.input_buffer);
                    if v.memory_enabled && input.len() > 0 && input[0] != '/' {
                        (v, seq![EffectSpec::RecallMemory { query: input }])
                    } else {
                        submit_spec(v, None)
                    }
                },
                Key::Backspace => (AppView { input_buffer: pop_last(v.input_buffer), ..v }, seq![]),
                Key::Esc => (AppView { should_quit: true, ..v }, seq![]),
                Key::Other => (v, seq![]),
            }
        },
    }
}

/// Stopping the answer being streamed.
pub open spec fn abort_spec(v: AppView) -> (AppView, Seq<EffectSpec>) {
    let v0 = AppView { waiting_for_response: false, ..v };
    let (v1, e1) = if v0.streaming_buffer.len() > 0 { finalize_spec(v0) } else { (v0, seq![]) };
    (say(v1, EntrySpec::System("Generation stopped."@)), seq![EffectSpec::AbortStream] + e1)
}

/// What a key press needs: a permission answer that runs a call has a
/// call to run, and an answer that is stopped has room for its usage.
pub open spec fn key_ok(v: AppView, k: Key) -> bool {
    &&& permission_ok(v, true)
    &&& usage_fits(v)
}

/// An MCP server came up with its tools (name, description, JSON schema):
/// each is offered to the model as `mcp_<server>_<tool>`.
pub open spec fn mcp_connected_spec(v: AppView, server: Seq<char>, tools: Seq<(Seq<char>, Seq<char>, Seq<char>)>) -> AppView {
    say(
        AppView {
            mcp_tool_map: route_insert_all(v.mcp_tool_map, server_routes(server, tools)),
            mcp_tool_defs: v.mcp_tool_defs + tools.map_values(|t: (Seq<char>, Seq<char>, Seq<char>)| DefSpec {
                tool_type: "function"@,
                name: "mcp_"@ + server + "_"@ + t.0,
                description: t.1,
                parameters: t.2,
            }),
            mcp_server_names: v.mcp_server_names.push(server),
            tool_count: (v.tool_count + tools.len()) as usize,
            ..v
        },
        EntrySpec::System("MCP '"@ + server + "' connected ("@ + dec(tools.len()) + " tools)"@),
    )
}

pub open spec fn models_text(models: Seq<Seq<char>>) -> Seq<char> {
    if models.len() == 0 {
        "No models available on this server."@
    } else {
        "Available models:\n"@ + join(models.map_values(|m: Seq<char>| "  "@ + m), "\n"@)
    }
}

/// The runner's report on the memory service: a failure turns memory off
/// with its reason; `session:<id>` opens a memory session.
pub open spec fn memory_status_spec(v: AppView, disabled: bool, reason: Seq<char>) -> AppView {
    if disabled {
        AppView { memory_disabled_reason: Some(reason), memory_enabled: false, memory_session_id: None, ..v }
    } else if crate::text::starts_with(reason, "session:"@) {
        match crate::num::parse_i64(reason.skip(8)) {
            Some(id) => AppView { memory_session_id: Some(id), ..v },
            None => v,
        }
    } else {
        v
    }
}

/// A background task finished.
pub open spec fn bg_done_spec(v: AppView, label: Seq<char>, result: Seq<char>, success: bool, now: u64) -> AppView {
    match crate::background::index_of_label(v.bg_tasks, label) {
        Some(i) => {
            let t = v.bg_tasks[i];
            AppView {
                bg_tasks: v.bg_tasks.update(
                    i,
                    TaskSpec {
                        status: if success {
                            crate::background::BackgroundTaskStatus::Completed
                        } else {
                            crate::background::BackgroundTaskStatus::Failed
                        },
                        result: Some(result),
                        success: Some(success),
                        finished_at: Some(now),
                        ..t
                    },
                ),
                bg_queue: v.bg_queue.push(
                    DoneSpec {
                        label: t.label,
                        tool_name: t.tool_name,
                        result,
                        success,
                        elapsed_ms: crate::background::elapsed(t.started_at, now),
                    },
                ),
                ..v
            }
        },
        None => v,
    }
}

/// A background task printed a line.
pub open spec fn bg_output_spec(v: AppView, label: Seq<char>, chunk: Seq<char>) -> AppView {
    match crate::background::index_of_label(v.bg_tasks, label) {
        Some(i) => AppView {
            bg_tasks: v.bg_tasks.update(i, TaskSpec { output: v.bg_tasks[i].output.push(chunk), ..v.bg_tasks[i] }),
            ..v
        },
        None => v,
    }
}

/// A tool the MCP server offers.
pub struct McpTool {
    pub name: String,
    pub description: String,
    pub input_schema: String,
}

pub open spec fn mcp_tool_views(s: Seq<McpTool>) -> Seq<(Seq<char>, Seq<char>, Seq<char>)> {
    s.map_values(|t: McpTool| (t.name@, t.description@, t.input_schema@))
}


impl App {
    /// A key press.
    pub fn handle_key(&mut self, key: Key) -> (r: Vec<Effect>)
        requires
            old(self).wf(),
            key_ok(old(self)@, key),
        ensures
            final(self).wf(),
            (final(self)@, effect_views(r@)) == key_spec(old(self)@, key),
    {
        let none = || -> (r: Vec<Effect>)
            ensures
                effect_views(r@) == Seq::<EffectSpec>::empty(),
            {
                let r: Vec<Effect> = Vec::new();
                assert(effect_views(r@) =~= Seq::<EffectSpec>::empty());
                r
            };
        if self.pattern_input.is_some() {
            match key {
                Key::Enter => self.handle_pattern_submit(),
                Key::Esc => {
                    self.set_pattern_input(None);
                    none()
                },
                Key::Char { c, ctrl: _ } => {
                    let mut p = match &self.pattern_input {
                        Some(p) => p.clone(),
                        None => String::new(),
                    };
                    crate::text::push_char(&mut p, c);
                    self.set_pattern_input(Some(p));
                    none()
                },
                Key::Backspace => {
                    let p = match &self.pattern_input {
                        Some(p) => pop_last_string(p),
                        None => String::new(),
                    };
                    self.set_pattern_input(Some(p));
                    none()
                },
                Key::Other => none(),
            }
        } else if self.pending_permission.is_some() {
            match key {
                Key::Char { c, ctrl: _ } => {
                    if c == 'a' || c == 'A' {
                        self.handle_permission_response(true, false)
                    } else if c == 'd' || c == 'D' {
                        self.handle_permission_response(false, false)
                    } else if c == 's' || c == 'S' {
                        self.handle_permission_response(true, true)
                    } else if c == 'p' || c == 'P' {
                        self.set_pattern_input(Some(String::new()));
                        none()
                    } else {
                        none()
                    }
                },
                _ => none(),
            }
        } else {
            match key {
                Key::Char { c, ctrl } => {
                    if c == 'c' && ctrl {
                        if self.waiting_for_response {
                            self.abort_streaming()
                        } else {
                            self.set_quit();
                            none()
                        }
                    } else if (c == 't' || c == 'T') && self.waiting_for_response {
                        self.toggle_thinking();
                        none()
                    } else if c == ' ' && self.waiting_for_response {
                        self.abort_streaming()
                    } else {
                        let mut b = self.input_buffer.clone();
                        crate::text::push_char(&mut b, c);
                        self.set_input_buffer(b);
                        none()
                    }
                },
                Key::Enter => {
                    let input = crate::text::trimmed(self.input_buffer.as_str());
                    let iv = crate::text::chars_of(input.as_str());
                    if self.memory_enabled && iv.len() > 0 && iv[0] != '/' {
                        let r = vec![Effect::RecallMemory { query: input }];
                        assert(effect_views(r@) =~= seq![r@[0].view()]);
                        r
                    } else {
                        self.submit_message(None)
                    }
                },
                Key::Backspace => {
                    let p = pop_last_string(&self.input_buffer);
                    self.set_input_buffer(p);
                    none()
                },
                Key::Esc => {
                    self.set_quit();
                    none()
                },
                Key::Other => none(),
            }
        }
    }

    fn set_pattern_input(&mut self, p: Option<String>)
        requires
            old(self).wf(),
        ensures
            final(self).wf(),
            final(self)@ == (AppView { pattern_input: opt_view(p), ..old(self)@ }),
    {
        self.pattern_input = p;
        assert(self@ =~= (AppView { pattern_input: opt_view(p), ..old(self)@ }));
    }

    fn set_input_buffer(&mut self, b: String)
        requires
            old(self).wf(),
        ensures
            final(self).wf(),
            final(self)@ == (AppView { input_buffer: b@, ..old(self)@ }),
    {
        self.input_buffer = b;
        assert(self@ =~= (AppView { input_buffer: b@, ..old(self)@ }));
    }

    fn set_quit(&mut self)
        requires
            old(self).wf(),
        ensures
            final(self).wf(),
            final(self)@ == (AppView { should_quit: true, ..old(self)@ }),
    {
        self.should_quit = true;
        assert(self@ =~= (AppView { should_quit: true, ..old(self)@ }));
    }

    /// Text a running tool printed.
    pub fn tool_output_chunk(&mut self, chunk: &str)
        requires
            old(self).wf(),
        ensures
            final(self).wf(),
            final(self)@ == (AppView { tool_output_buffer: old(self)@.tool_output_buffer + chunk@, ..old(self)@ }),
    {
        append_str(&mut self.tool_output_buffer, chunk);
    }

    /// An MCP server came up with its tools.
    pub fn mcp_connected(&mut self, server: &str, tools: &Vec<McpTool>)
        requires
            old(self).wf(),
            old(self).tool_count + tools@.len() <= usize::MAX,
        ensures
            final(self).wf(),
            final(self)@ == mcp_connected_spec(old(self)@, server@, mcp_tool_views(tools@)),
    {
        let ghost tv = mcp_tool_views(tools@);
        let ghost m0 = self@.mcp_tool_map;
        let ghost d0 = self@.mcp_tool_defs;
        let mut i: usize = 0;
        assert(tv.take(0) =~= Seq::<(Seq<char>, Seq<char>, Seq<char>)>::empty());
        assert(server_routes(server@, tv.take(0)) =~= Seq::<(Seq<char>, Seq<char>, Seq<char>)>::empty());
        while i < tools.len()
            invariant
                i <= tools.len(),
                tv == mcp_tool_views(tools@),
                self@ == (AppView { mcp_tool_map: self@.mcp_tool_map, mcp_tool_defs: self@.mcp_tool_defs, ..old(self)@ }),
                routes_unique(self@.mcp_tool_map),
                self@.mcp_tool_map == route_insert_all(m0, server_routes(server@, tv.take(i as int))),
                self@.mcp_tool_defs == d0 + tv.take(i as int).map_values(|t: (Seq<char>, Seq<char>, Seq<char>)| DefSpec {
                    tool_type: "function"@,
                    name: "mcp_"@ + server@ + "_"@ + t.0,
                    description: t.1,
                    parameters: t.2,
                }),
            decreases tools.len() - i,
        {
            let mut full = "mcp_".to_owned();
            append_str(&mut full, server);
            append_str(&mut full, "_");
            append_str(&mut full, tools[i].name.as_str());
            let ghost mb = self@.mcp_tool_map;
            let ghost db = self@.mcp_tool_defs;
            let route = McpRoute { tool: full.clone(), server: server.to_owned(), real_name: tools[i].name.clone() };
            let ghost rv = (full@, server@, tools@[i as int].name@);
            assert(route_views(seq![route]) =~= seq![rv]);
            proof {
                reveal_strlit("mcp_");
                lemma_route_insert_unique(mb, rv);
            }
            match route_index(&self.mcp_tool_map, full.as_str()) {
                Some(k) => {
                    self.mcp_tool_map.set(k, route);
                    proof {
                        assert(mb[k as int].0 == rv.0);
                        let c = choose|j: int| 0 <= j < mb.len() && (#[trigger] mb[j]).0 == rv.0;
                        assert(c == k);
                        assert(self@.mcp_tool_map =~= mb.update(k as int, rv));
                    }
                },
                None => {
                    self.mcp_tool_map.push(route);
                    assert(self@.mcp_tool_map =~= mb.push(rv));
                },
            }
            self.mcp_tool_defs.push(ToolDefinition::function(full.as_str(), tools[i].description.as_str(), tools[i].input_schema.as_str()));
            proof {
                let t = tv[i as int];
                assert(t.0 == tools@[i as int].name@);
                assert(tv.take(i + 1) =~= tv.take(i as int).push(t));
                assert(server_routes(server@, tv.take(i + 1)) =~= server_routes(server@, tv.take(i as int)).push(rv));
                assert(server_routes(server@, tv.take(i + 1)).drop_last() =~= server_routes(server@, tv.take(i as int)));
                assert(self@.mcp_tool_map == route_insert(mb, rv));
                assert(self@.mcp_tool_defs =~= db.push(DefSpec { tool_type: "function"@, name: "mcp_"@ + server@ + "_"@ + t.0, description: t.1, parameters: t.2 }));
                assert(tv.take(i + 1).map_values(|t: (Seq<char>, Seq<char>, Seq<char>)| DefSpec { tool_type: "function"@, name: "mcp_"@ + server@ + "_"@ + t.0, description: t.1, parameters: t.2 }) =~= tv.take(i as int).map_values(|t: (Seq<char>, Seq<char>, Seq<char>)| DefSpec { tool_type: "function"@, name: "mcp_"@ + server@ + "_"@ + t.0, description: t.1, parameters: t.2 }).push(DefSpec { tool_type: "function"@, name: "mcp_"@ + server@ + "_"@ + t.0, description: t.1, parameters: t.2 }));
            }
            i = i + 1;
        }
        assert(tv.take(tools.len() as int) =~= tv);
        self.mcp_server_names.push(server.to_owned());
        self.tool_count = self.tool_count + tools.len();
        let mut t = "MCP '".to_owned();
        append_str(&mut t, server);
        append_str(&mut t, "' connected (");
        crate::num::push_u64(&mut t, tools.len() as u64);
        append_str(&mut t, " tools)");
        self.messages.push(ChatEntry::System(t));
        proof {
            reveal_strlit("MCP '");
        }
        assert(self@ =~= mcp_connected_spec(old(self)@, server@, tv));
    }

    /// An MCP server could not be reached.
    pub fn mcp_failed(&mut self, server: &str, error: &str)
        requires
            old(self).wf(),
        ensures
            final(self).wf(),
            final(self)@ == say(old(self)@, EntrySpec::System("MCP '"@ + server@ + "' failed: "@ + error@)),
    {
        let mut t = "MCP '".to_owned();
        append_str(&mut t, server);
        append_str(&mut t, "' failed: ");
        append_str(&mut t, error);
        self.note(t);
    }

    /// The server's models arrived.
    pub fn models_loaded(&mut self, models: &Vec<String>)
        requires
            old(self).wf(),
        ensures
            final(self).wf(),
            final(self)@ == say(old(self)@, EntrySpec::System(models_text(string_views(models@)))),
    {
        if models.len() == 0 {
            self.note("No models available on this server.".to_owned());
            return;
        }
        let ghost mv = string_views(models@);
        let mut lines: Vec<String> = Vec::new();
        let mut i: usize = 0;
        while i < models.len()
            invariant
                i <= models.len(),
                mv == string_views(models@),
                string_views(lines@) == mv.take(i as int).map_values(|m: Seq<char>| "  "@ + m),
            decreases models.len() - i,
        {
            let ghost lb = string_views(lines@);
            lines.push(concat("  ", models[i].as_str()));
            assert(string_views(lines@) =~= lb.push("  "@ + mv[i as int]));
            assert(mv.take(i + 1).map_values(|m: Seq<char>| "  "@ + m) =~= mv.take(i as int).map_values(|m: Seq<char>| "  "@ + m).push("  "@ + mv[i as int]));
            i = i + 1;
        }
        assert(mv.take(models.len() as int) =~= mv);
        let list = crate::text::join_strings(&lines, "\n");
        self.note(concat("Available models:\n", list.as_str()));
    }

    /// The health check's answer.
    pub fn health_check(&mut self, healthy: bool)
        requires
            old(self).wf(),
        ensures
            final(self).wf(),
            final(self)@ == (AppView { server_healthy: Some(healthy), ..old(self)@ }),
    {
        self.server_healthy = Some(healthy);
    }

    /// An error the runner met.
    pub fn report_error(&mut self, error: &str)
        requires
            old(self).wf(),
        ensures
            final(self).wf(),
            final(self)@ == say(old(self)@, EntrySpec::System("Error: "@ + error@)),
    {
        self.note(concat("Error: ", error));
    }

    /// The memory service's status.
    pub fn memory_status(&mut self, disabled: bool, reason: String)
        requires
            old(self).wf(),
        ensures
            final(self).wf(),
            final(self)@ == memory_status_spec(old(self)@, disabled, reason@),
    {
        if disabled {
            self.memory_disabled_reason = Some(reason);
            self.memory_enabled = false;
            self.memory_session_id = None;
            return;
        }
        let v = crate::text::chars_of(reason.as_str());
        if crate::text::starts_with_str(&v, "session:") {
            proof {
                reveal_strlit("session:");
            }
            let rest = crate::text::slice_of(&v, 8, v.len());
            assert(rest@ =~= reason@.skip(8));
            match crate::num::parse_i64_exec(&rest) {
                Some(id) => {
                    self.memory_session_id = Some(id);
                },
                None => {},
            }
        }
    }

    /// The memory session was extracted and closed.
    pub fn memory_extraction_done(&mut self)
        requires
            old(self).wf(),
        ensures
            final(self).wf(),
            final(self)@ == (AppView { memory_session_id: None, ..old(self)@ }),
    {
        self.memory_session_id = None;
    }

    /// A background task printed a line.
    pub fn background_output(&mut self, label: &str, chunk: String)
        requires
            old(self).wf(),
        ensures
            final(self).wf(),
            final(self)@ == bg_output_spec(old(self)@, label@, chunk@),
    {
        self.bg_tasks.append_output(label, chunk);
        assert(self@ =~= bg_output_spec(old(self)@, label@, chunk@));
    }

    /// A background task finished.
    pub fn background_done(&mut self, label: &str, result: String, success: bool, now: u64)
        requires
            old(self).wf(),
        ensures
            final(self).wf(),
            final(self)@ == bg_done_spec(old(self)@, label@, result@, success, now),
    {
        self.bg_tasks.complete(label, result, success, now);
        assert(self@ =~= bg_done_spec(old(self)@, label@, result@, success, now));
    }
}

/// A string without its last character.
fn pop_last_string(s: &String) -> (r: String)
    ensures
        r@ == pop_last(s@),
{
    let v = crate::text::chars_of(s.as_str());
    if v.len() == 0 {
        return String::new();
    }
    crate::text::string_of_range(&v, 0, v.len() - 1)
}

} // verus!
