//! Subagents run as a background task: each streams an answer, runs the
//! tool calls of that answer itself, and goes on until an answer asks for
//! no tool; their results are then combined.
use vstd::prelude::*;
use crate::calls::{PartialCalls, assemble, entry_calls};
use crate::chat::{McpRoute, assistant_msg, mcp_lookup, route_views, tool_msg};
use crate::display::{byte_len, is_boundary, truncated};
use crate::num::dec;
use crate::text::{append_str, join, string_views, trim};
use crate::types::{
    ChatRequest, DeltaToolCall, Message, MessageSpec, ToolCall, ToolCallSpec, ToolDefinition, call_views,
    message_views,
};

verus! {

/// One subagent of a background task.
pub struct BackgroundAgent {
    pub index: usize,
    pub conversation: Vec<Message>,
    pub streaming_buffer: String,
    pub assembling: PartialCalls,
    pub result_parts: Vec<String>,
}

/// How a background subagent ends a turn.
pub enum TurnEnd {
    /// The answer asked for no tool: the agent is done.
    Finished,
    /// The tool calls to run, in order.
    Calls(Vec<ToolCall>),
}

/// How a tool call of a background subagent runs.
pub enum DirectRoute {
    Shell,
    ReadFile,
    WriteFile,
    EditFile,
    ListFiles,
    /// A tool of an MCP server: the server and the tool's own name.
    Mcp { server: String, tool: String },
    /// Not run: the message for the model.
    Refused(String),
}

pub enum RouteSpec {
    Shell,
    ReadFile,
    WriteFile,
    EditFile,
    ListFiles,
    Mcp { server: Seq<char>, tool: Seq<char> },
    Refused(Seq<char>),
}

impl DirectRoute {
    pub open spec fn view(&self) -> RouteSpec {
        match self {
            DirectRoute::Shell => RouteSpec::Shell,
            DirectRoute::ReadFile => RouteSpec::ReadFile,
            DirectRoute::WriteFile => RouteSpec::WriteFile,
            DirectRoute::EditFile => RouteSpec::EditFile,
            DirectRoute::ListFiles => RouteSpec::ListFiles,
            DirectRoute::Mcp { server, tool } => RouteSpec::Mcp { server: server@, tool: tool@ },
            DirectRoute::Refused(m) => RouteSpec::Refused(m@),
        }
    }
}

/// Where a tool call of a background subagent goes: the built-in tools
/// run, MCP tools go to their server, the todo, subagent and background
/// tools are refused, and other names are unknown.
pub open spec fn route_spec(name: Seq<char>, map: Seq<(Seq<char>, Seq<char>, Seq<char>)>, servers: Seq<Seq<char>>) -> RouteSpec {
    if name == "shell"@ {
        RouteSpec::Shell
    } else if name == "read_file"@ {
        RouteSpec::ReadFile
    } else if name == "write_file"@ {
        RouteSpec::WriteFile
    } else if name == "edit_file"@ {
        RouteSpec::EditFile
    } else if name == "list_files"@ {
        RouteSpec::ListFiles
    } else if crate::text::starts_with(name, "mcp_"@) {
        match mcp_lookup(map, name) {
            Some(r) => if servers.contains(r.0) {
                RouteSpec::Mcp { server: r.0, tool: r.1 }
            } else {
                RouteSpec::Refused("MCP server not found: "@ + r.0)
            },
            None => RouteSpec::Refused("Unknown MCP tool: "@ + name),
        }
    } else if name == "todo"@ || name == "todo_complete"@ || name == "wipe_todo"@ {
        RouteSpec::Refused("(todo tools not available in background subagents)"@)
    } else if name == "subagent"@ || name == "bg_run"@ || name == "bg_status"@ || name == "bg_cancel"@ {
        RouteSpec::Refused("Tool '"@ + name + "' cannot be used inside background subagents"@)
    } else {
        RouteSpec::Refused("Unknown tool: "@ + name)
    }
}

fn named(name: &str, lit: &str) -> (r: bool)
    ensures
        r == (name@ == lit@),
{
    let n = crate::text::chars_of(name);
    crate::text::chars_eq_str(&n, lit)
}

fn concat(a: &str, b: &str) -> (r: String)
    ensures
        r@ == a@ + b@,
{
    let mut s = a.to_owned();
    append_str(&mut s, b);
    s
}

/// Where a tool call of a background subagent goes.
pub fn direct_route(name: &str, map: &Vec<McpRoute>, servers: &Vec<String>) -> (r: DirectRoute)
    ensures
        r.view() == route_spec(name@, route_views(map@), string_views(servers@)),
{
    if named(name, "shell") {
        DirectRoute::Shell
    } else if named(name, "read_file") {
        DirectRoute::ReadFile
    } else if named(name, "write_file") {
        DirectRoute::WriteFile
    } else if named(name, "edit_file") {
        DirectRoute::EditFile
    } else if named(name, "list_files") {
        DirectRoute::ListFiles
    } else if crate::text::starts_with_str(&crate::text::chars_of(name), "mcp_") {
        match crate::chat::find_route(map, name) {
            Some((server, tool)) => {
                if crate::chat::contains_str(servers, server.as_str()) {
                    DirectRoute::Mcp { server, tool }
                } else {
                    DirectRoute::Refused(concat("MCP server not found: ", server.as_str()))
                }
            },
            None => DirectRoute::Refused(concat("Unknown MCP tool: ", name)),
        }
    } else if named(name, "todo") || named(name, "todo_complete") || named(name, "wipe_todo") {
        DirectRoute::Refused("(todo tools not available in background subagents)".to_owned())
    } else if named(name, "subagent") || named(name, "bg_run") || named(name, "bg_status") || named(name, "bg_cancel") {
        let mut m = "Tool '".to_owned();
        append_str(&mut m, name);
        append_str(&mut m, "' cannot be used inside background subagents");
        DirectRoute::Refused(m)
    } else {
        DirectRoute::Refused(concat("Unknown tool: ", name))
    }
}

/// Where a tool started as a background task goes: the shell, an MCP
/// server's tool, or a built-in file tool; other names are refused.
pub open spec fn background_route_spec(name: Seq<char>, map: Seq<(Seq<char>, Seq<char>, Seq<char>)>, servers: Seq<Seq<char>>) -> RouteSpec {
    if name == "shell"@ {
        RouteSpec::Shell
    } else if crate::text::starts_with(name, "mcp_"@) {
        match mcp_lookup(map, name) {
            Some(r) => if servers.contains(r.0) {
                RouteSpec::Mcp { server: r.0, tool: r.1 }
            } else {
                RouteSpec::Refused("MCP server not found for tool: "@ + name)
            },
            None => RouteSpec::Refused("Unknown MCP tool: "@ + name),
        }
    } else if name == "read_file"@ {
        RouteSpec::ReadFile
    } else if name == "write_file"@ {
        RouteSpec::WriteFile
    } else if name == "edit_file"@ {
        RouteSpec::EditFile
    } else if name == "list_files"@ {
        RouteSpec::ListFiles
    } else {
        RouteSpec::Refused("Unknown tool '"@ + name + "' for background execution"@)
    }
}

/// Where a background task's tool goes.
pub fn background_route(name: &str, map: &Vec<McpRoute>, servers: &Vec<String>) -> (r: DirectRoute)
    ensures
        r.view() == background_route_spec(name@, route_views(map@), string_views(servers@)),
{
    if named(name, "shell") {
        DirectRoute::Shell
    } else if crate::text::starts_with_str(&crate::text::chars_of(name), "mcp_") {
        match crate::chat::find_route(map, name) {
            Some((server, tool)) => {
                if crate::chat::contains_str(servers, server.as_str()) {
                    DirectRoute::Mcp { server, tool }
                } else {
                    DirectRoute::Refused(concat("MCP server not found for tool: ", name))
                }
            },
            None => DirectRoute::Refused(concat("Unknown MCP tool: ", name)),
        }
    } else if named(name, "read_file") {
        DirectRoute::ReadFile
    } else if named(name, "write_file") {
        DirectRoute::WriteFile
    } else if named(name, "edit_file") {
        DirectRoute::EditFile
    } else if named(name, "list_files") {
        DirectRoute::ListFiles
    } else {
        let mut m = "Unknown tool '".to_owned();
        append_str(&mut m, name);
        append_str(&mut m, "' for background execution");
        DirectRoute::Refused(m)
    }
}

/// The progress line shown for a tool call: its name and its arguments cut
/// to 120 bytes.
pub open spec fn progress_spec(name: Seq<char>, args: Seq<char>) -> Seq<char> {
    "\u{2699} "@ + name + ": "@ + truncated(args, 120) + "\n"@
}

/// Arguments that can be cut at 120 bytes.
pub open spec fn cut_ok(args: Seq<char>) -> bool {
    byte_len(args) > 120 ==> is_boundary(args, 120)
}

/// The progress line of a tool call.
pub fn progress_line(name: &str, args: &str) -> (r: String)
    requires
        cut_ok(args@),
    ensures
        r@ == progress_spec(name@, args@),
{
    let mut s = "\u{2699} ".to_owned();
    append_str(&mut s, name);
    append_str(&mut s, ": ");
    let t = crate::background::truncate_args(args, 120);
    append_str(&mut s, t.as_str());
    append_str(&mut s, "\n");
    s
}

impl BackgroundAgent {
    /// A subagent with its system instruction, if any, and its task.
    pub fn new(index: usize, system: Option<&str>, prompt: &str) -> (r: BackgroundAgent)
        ensures
            r.index == index,
            message_views(r.conversation@) == crate::subagent::start_conversation(
                match system {
                    Some(s) => Some(s@),
                    None => None,
                },
                prompt@,
            ),
            r.streaming_buffer@.len() == 0,
            r.assembling@.len() == 0,
            r.result_parts@.len() == 0,
            r.assembling.wf(),
    {
        let st = crate::subagent::SubagentState::new(index, system, prompt);
        BackgroundAgent {
            index,
            conversation: st.conversation,
            streaming_buffer: String::new(),
            assembling: PartialCalls::new(),
            result_parts: Vec::new(),
        }
    }

    /// The request for the agent's next answer.
    pub fn request(&self, model: &str, tools: &Vec<ToolDefinition>) -> (r: ChatRequest)
        ensures
            r.view().model == model@,
            r.view().messages == message_views(self.conversation@),
            r.view().stream,
            r.view().think,
            r.view().tools == (if tools@.len() == 0 { None } else { Some(crate::types::def_views(tools@)) }),
    {
        ChatRequest {
            model: model.to_owned(),
            messages: crate::types::duplicate_messages(&self.conversation),
            stream: true,
            tools: if tools.len() == 0 { None } else { Some(crate::types::duplicate_defs(tools)) },
            think: true,
        }
    }

    /// Streamed text: kept, and returned as progress output.
    pub fn on_token(&mut self, text: String) -> (r: String)
        ensures
            final(self).streaming_buffer@ == old(self).streaming_buffer@ + text@,
            final(self).conversation@ == old(self).conversation@,
            final(self).assembling == old(self).assembling,
            final(self).result_parts@ == old(self).result_parts@,
            final(self).index == old(self).index,
            r@ == text@,
    {
        append_str(&mut self.streaming_buffer, text.as_str());
        text
    }

    /// A streamed piece of a tool call.
    pub fn on_delta(&mut self, delta: DeltaToolCall)
        requires
            old(self).assembling.wf(),
        ensures
            final(self).assembling.wf(),
            final(self).assembling@ == assemble(old(self).assembling@, delta.view()),
            final(self).streaming_buffer == old(self).streaming_buffer,
            final(self).conversation@ == old(self).conversation@,
            final(self).result_parts@ == old(self).result_parts@,
            final(self).index == old(self).index,
    {
        self.assembling.apply(delta);
    }

    /// The end of an answer: its text joins the conversation and the
    /// results; its tool calls, if any, join the conversation and are
    /// returned in index order.
    pub fn finish_turn(&mut self) -> (r: TurnEnd)
        requires
            old(self).assembling.wf(),
        ensures
            final(self).assembling.wf(),
            final(self).assembling@.len() == 0,
            final(self).streaming_buffer@.len() == 0,
            final(self).index == old(self).index,
            ({
                let text = old(self).streaming_buffer@;
                let c1 = if text.len() > 0 {
                    message_views(old(self).conversation@).push(assistant_msg(text))
                } else {
                    message_views(old(self).conversation@)
                };
                let calls = entry_calls(old(self).assembling@);
                &&& string_views(final(self).result_parts@) == (if text.len() > 0 {
                    string_views(old(self).result_parts@).push(text)
                } else {
                    string_views(old(self).result_parts@)
                })
                &&& if calls.len() == 0 {
                    &&& r is Finished
                    &&& message_views(final(self).conversation@) == c1
                } else {
                    &&& r matches TurnEnd::Calls(cs) && call_views(cs@) == calls
                    &&& message_views(final(self).conversation@) == c1.push(
                        MessageSpec { role: "assistant"@, content: None, tool_calls: Some(calls), tool_call_id: None },
                    )
                }
            }),
    {
        let ghost rp0 = string_views(self.result_parts@);
        let ghost c0 = message_views(self.conversation@);
        if !self.streaming_buffer.as_str().is_empty() {
            let mut text = String::new();
            std::mem::swap(&mut text, &mut self.streaming_buffer);
            self.conversation.push(Message::text("assistant", text.clone()));
            self.result_parts.push(text);
            proof {
                reveal_strlit("assistant");
            }
            assert(string_views(self.result_parts@) =~= rp0.push(old(self).streaming_buffer@));
            assert(message_views(self.conversation@) =~= c0.push(assistant_msg(old(self).streaming_buffer@)));
        }
        assert(self.streaming_buffer@.len() == 0);
        if self.assembling.is_empty() {
            return TurnEnd::Finished;
        }
        let calls = self.assembling.take_calls();
        let ghost c1 = message_views(self.conversation@);
        self.conversation.push(Message {
            role: "assistant".to_owned(),
            content: None,
            tool_calls: Some(crate::types::duplicate_calls(&calls)),
            tool_call_id: None,
        });
        proof {
            reveal_strlit("assistant");
        }
        assert(message_views(self.conversation@) =~= c1.push(
            MessageSpec { role: "assistant"@, content: None, tool_calls: Some(call_views(calls@)), tool_call_id: None },
        ));
        TurnEnd::Calls(calls)
    }

    /// A tool's output joins the conversation.
    pub fn add_tool_output(&mut self, tool_call_id: String, output: String)
        ensures
            message_views(final(self).conversation@) == message_views(old(self).conversation@).push(
                tool_msg(output@, tool_call_id@),
            ),
            final(self).streaming_buffer == old(self).streaming_buffer,
            final(self).assembling == old(self).assembling,
            final(self).result_parts@ == old(self).result_parts@,
            final(self).index == old(self).index,
    {
        let ghost c0 = message_views(self.conversation@);
        self.conversation.push(Message {
            role: "tool".to_owned(),
            content: Some(output),
            tool_calls: None,
            tool_call_id: Some(tool_call_id),
        });
        proof {
            reveal_strlit("tool");
        }
        assert(message_views(self.conversation@) =~= c0.push(tool_msg(output@, tool_call_id@)));
    }
}

/// The results ordered by agent index (agents with equal index keep their
/// order).
pub open spec fn sorted_by_index(s: Seq<(usize, Seq<Seq<char>>)>) -> bool {
    forall|i: int, j: int| 0 <= i < j < s.len() ==> s[i].0 <= s[j].0
}

/// `s` with `x` put after the last entry whose index is at most `x`'s.
pub open spec fn insert_by_index(s: Seq<(usize, Seq<Seq<char>>)>, x: (usize, Seq<Seq<char>>)) -> Seq<(usize, Seq<Seq<char>>)>
    decreases s.len(),
{
    if s.len() == 0 {
        seq![x]
    } else if s.last().0 > x.0 {
        insert_by_index(s.drop_last(), x).push(s.last())
    } else {
        s.push(x)
    }
}

/// The results ordered by agent index, results with equal indices in the
/// order they came (a stable sort).
pub open spec fn sort_by_index(s: Seq<(usize, Seq<Seq<char>>)>) -> Seq<(usize, Seq<Seq<char>>)>
    decreases s.len(),
{
    if s.len() == 0 {
        seq![]
    } else {
        insert_by_index(sort_by_index(s.drop_last()), s.last())
    }
}

/// Inserting after the entries with a larger index is `insert_by_index`.
proof fn lemma_insert_by_index(s: Seq<(usize, Seq<Seq<char>>)>, x: (usize, Seq<Seq<char>>), p: int)
    requires
        0 <= p <= s.len(),
        forall|j: int| p <= j < s.len() ==> (#[trigger] s[j]).0 > x.0,
        p > 0 ==> s[p - 1].0 <= x.0,
    ensures
        insert_by_index(s, x) == s.insert(p, x),
    decreases s.len(),
{
    if s.len() == 0 {
        assert(s.insert(p, x) =~= seq![x]);
    } else if p == s.len() {
        assert(s.insert(p, x) =~= s.push(x));
    } else {
        lemma_insert_by_index(s.drop_last(), x, p);
        assert(s.drop_last().insert(p, x).push(s.last()) =~= s.insert(p, x));
    }
}

/// The combined report of the agents, in the given order, numbered from 0.
pub open spec fn combined_spec(s: Seq<(usize, Seq<Seq<char>>)>) -> Seq<char>
    decreases s.len(),
{
    if s.len() == 0 {
        seq![]
    } else {
        combined_spec(s.drop_last()) + "[agent-"@ + dec((s.len() - 1) as nat) + " result]\n"@ + join(s.last().1, "\n"@)
            + "\n\n"@
    }
}

pub open spec fn result_views(s: Seq<(usize, Vec<String>)>) -> Seq<(usize, Seq<Seq<char>>)> {
    s.map_values(|p: (usize, Vec<String>)| (p.0, string_views(p.1@)))
}

/// The agents' results, sorted by agent index and combined into one
/// report: each agent's result parts under `[agent-N result]`, with the
/// whole trimmed.
pub fn combine_results(results: Vec<(usize, Vec<String>)>) -> (r: String)
    ensures
        r@ == trim(combined_spec(sort_by_index(result_views(results@)))),
        sorted_by_index(sort_by_index(result_views(results@))),
        sort_by_index(result_views(results@)).to_multiset() == result_views(results@).to_multiset(),
{
    let mut sorted: Vec<(usize, Vec<String>)> = Vec::new();
    let mut rest = results;
    let ghost all = result_views(rest@);
    proof {
        assert(result_views(sorted@) =~= Seq::<(usize, Seq<Seq<char>>)>::empty());
        vstd::seq_lib::lemma_multiset_commutative(result_views(sorted@), all);
        assert(result_views(sorted@) + all =~= all);
    }
    assert(all.take(0) =~= Seq::<(usize, Seq<Seq<char>>)>::empty());
    assert(all.skip(0) =~= all);
    while rest.len() > 0
        invariant
            sorted_by_index(result_views(sorted@)),
            (result_views(sorted@) + result_views(rest@)).to_multiset() == all.to_multiset(),
            rest@.len() <= all.len(),
            result_views(rest@) == all.skip(all.len() - rest@.len()),
            result_views(sorted@) == sort_by_index(all.take(all.len() - rest@.len())),
        decreases rest.len(),
    {
        let ghost k = all.len() - rest@.len();
        let ghost sb = result_views(sorted@);
        let ghost rb = result_views(rest@);
        let item = rest.remove(0);
        let ghost iv = (item.0, string_views(item.1@));
        assert(rb =~= seq![iv] + result_views(rest@));
        // insert after every entry with an index at most the item's
        let mut p = sorted.len();
        while p > 0 && sorted[p - 1].0 > item.0
            invariant
                p <= sorted.len(),
                sb == result_views(sorted@),
                forall|j: int| p <= j < sorted@.len() ==> sorted@[j].0 > item.0,
            decreases p,
        {
            p = p - 1;
        }
        assert(p > 0 ==> sb[p - 1].0 == sorted@[p - 1].0);
        sorted.insert(p, item);
        proof {
            let s2 = result_views(sorted@);
            assert(s2 =~= sb.insert(p as int, iv));
            assert(rb == all.skip(k));
            assert(rb[0] == iv);
            assert(all.skip(k)[0] == all[k]);
            assert(iv == all[k]);
            lemma_insert_by_index(sb, iv, p as int);
            assert(all.take(k + 1).drop_last() =~= all.take(k));
            assert(all.take(k + 1).last() == all[k]);
            assert(result_views(rest@) =~= rb.skip(1));
            assert(rb.skip(1) =~= all.skip(k + 1));
            sb.insert_ensures(p as int, iv);
            assert forall|i: int, j: int| 0 <= i < j < s2.len() implies s2[i].0 <= s2[j].0 by {
                if j < p {
                } else if j == p {
                    if i < p && p > 0 {
                        assert(sb[p - 1].0 <= iv.0);
                        assert(sb[i].0 <= sb[p - 1].0 || i == p - 1);
                    }
                } else if i < p {
                    assert(s2[j] == sb[j - 1]);
                } else if i == p {
                    assert(s2[j] == sb[j - 1]);
                } else {
                    assert(s2[j] == sb[j - 1]);
                    assert(s2[i] == sb[i - 1]);
                }
            }
            lemma_insert_multiset(sb, p as int, iv, result_views(rest@), all);
        }
    }
    let ghost sv = result_views(sorted@);
    assert(result_views(rest@) =~= Seq::<(usize, Seq<Seq<char>>)>::empty());
    assert(sv + result_views(rest@) =~= sv);
    let mut combined = String::new();
    let mut i: usize = 0;
    assert(sv.take(0) =~= Seq::<(usize, Seq<Seq<char>>)>::empty());
    while i < sorted.len()
        invariant
            i <= sorted.len(),
            sv == result_views(sorted@),
            combined@ == combined_spec(sv.take(i as int)),
        decreases sorted.len() - i,
    {
        append_str(&mut combined, "[agent-");
        crate::num::push_u64(&mut combined, i as u64);
        append_str(&mut combined, " result]\n");
        let parts = crate::text::join_strings(&sorted[i].1, "\n");
        append_str(&mut combined, parts.as_str());
        append_str(&mut combined, "\n\n");
        proof {
            reveal_strlit("[agent-");
            assert(sv.take(i + 1).drop_last() =~= sv.take(i as int));
            assert(sv.take(i + 1).last() == sv[i as int]);
            assert(sv.take(i + 1).len() == i + 1);
        }
        i = i + 1;
    }
    assert(sv.take(sorted.len() as int) =~= sv);
    let r = crate::text::trimmed(combined.as_str());
    assert(all.take(all.len() as int) =~= all);
    assert(sorted_by_index(sv));
    r
}

proof fn lemma_insert_multiset(
    sb: Seq<(usize, Seq<Seq<char>>)>,
    p: int,
    iv: (usize, Seq<Seq<char>>),
    rest: Seq<(usize, Seq<Seq<char>>)>,
    all: Seq<(usize, Seq<Seq<char>>)>,
)
    requires
        0 <= p <= sb.len(),
        (sb + (seq![iv] + rest)).to_multiset() == all.to_multiset(),
    ensures
        (sb.insert(p, iv) + rest).to_multiset() == all.to_multiset(),
{
    broadcast use vstd::seq_lib::group_to_multiset_ensures;
    let a = sb.take(p);
    let b = sb.skip(p);
    assert(sb =~= a + b);
    assert(sb.insert(p, iv) + rest =~= a + (seq![iv] + (b + rest)));
    assert(sb + (seq![iv] + rest) =~= a + (b + (seq![iv] + rest)));
    vstd::seq_lib::lemma_multiset_commutative(a, seq![iv] + (b + rest));
    vstd::seq_lib::lemma_multiset_commutative(a, b + (seq![iv] + rest));
    vstd::seq_lib::lemma_multiset_commutative(seq![iv], b + rest);
    vstd::seq_lib::lemma_multiset_commutative(b, seq![iv] + rest);
    vstd::seq_lib::lemma_multiset_commutative(seq![iv], rest);
    vstd::seq_lib::lemma_multiset_commutative(b, rest);
    assert((seq![iv] + (b + rest)).to_multiset() =~= (b + (seq![iv] + rest)).to_multiset());
}

} // verus!
