//! What every session keeps, whatever its state: permission questions,
//! refusals, error streaks, the keys that stop or quit, `/clear`, and the
//! routing of MCP tools.
use vstd::prelude::*;
use crate::chat::{
    AppView, EffectSpec, EntrySpec, Key, allowed, args_kind, clear_spec, display_for, execute_spec, is_file_tool,
    key_for, key_spec, mcp_connected_spec, mcp_lookup, nudge, permission_ok, permission_spec, process_next_spec,
    reply_split, say, session_tools, system_only, thinking_spec, tool_msg, tool_result_spec,
};
use crate::background::{BackgroundTaskStatus, TaskSpec, index_of_label, labels_unique, lemma_index_of_label};
use crate::chat::{bg_cancel_spec, bg_insert_spec, server_spec};
use crate::chat::{lemma_route_insert_unique, route_insert, route_insert_all, routes_unique, server_routes};
use crate::display::{open_tag, think_split};
use crate::permissions::wild;
use crate::text::{find, find_from, occurs_at};
use crate::types::ToolCallSpec;

verus! {

/// Every text matches itself as a pattern.
proof fn lemma_wild_self(p: Seq<char>)
    ensures
        wild(p, p),
    decreases p.len(),
{
    if p.len() > 0 {
        lemma_wild_self(p.drop_first());
        if p[0] == '*' {
            assert(wild(p, p.drop_first()));
        }
    }
}

/// The first queued call, marked allowed, run.
pub open spec fn run_first(v: AppView) -> (AppView, Seq<EffectSpec>) {
    let tc = v.pending_tool_calls[0];
    execute_spec(
        say(v, EntrySpec::ToolCall { name: tc.name, command: display_for(tc.name, tc.arguments), status: "allowed"@ }),
        tc,
    )
}

/// Running a call asks nothing: the question, if any, is the one before.
proof fn lemma_execute_keeps(v: AppView, tc: ToolCallSpec)
    ensures
        execute_spec(v, tc).0.pending_permission == v.pending_permission,
        execute_spec(v, tc).0.conversation == v.conversation,
        execute_spec(v, tc).0.permissions == v.permissions,
        execute_spec(v, tc).0.consecutive_errors == v.consecutive_errors,
{
    reveal(execute_spec);
}

/// Processing the queue leaves the conversation and the error count as
/// they are.
proof fn lemma_process_keeps(v: AppView)
    ensures
        process_next_spec(v).0.conversation == v.conversation,
        process_next_spec(v).0.consecutive_errors == v.consecutive_errors,
{
    reveal(process_next_spec);
    if v.pending_tool_calls.len() > 0 {
        let tc = v.pending_tool_calls[0];
        lemma_execute_keeps(
            say(v, EntrySpec::ToolCall { name: tc.name, command: display_for(tc.name, tc.arguments), status: "allowed"@ }),
            tc,
        );
    }
}

/// With everything allowed (`--yolo`), a queued call never asks: it is
/// marked allowed and run.
pub proof fn law_yolo_never_asks(v: AppView)
    requires
        v.yolo,
        v.pending_tool_calls.len() > 0,
    ensures
        process_next_spec(v) == run_first(v),
        process_next_spec(v).0.pending_permission == v.pending_permission,
{
    reveal(process_next_spec);
    let tc = v.pending_tool_calls[0];
    lemma_execute_keeps(
        say(v, EntrySpec::ToolCall { name: tc.name, command: display_for(tc.name, tc.arguments), status: "allowed"@ }),
        tc,
    );
}

/// The file tools are allowed for the whole session: in a session as it
/// starts, a queued call to one of them never asks.
pub proof fn law_file_tools_never_ask(v: AppView)
    requires
        v.session_allow == session_tools(),
        v.pending_tool_calls.len() > 0,
        is_file_tool(v.pending_tool_calls[0].name),
    ensures
        process_next_spec(v) == run_first(v),
        process_next_spec(v).0.pending_permission == v.pending_permission,
{
    reveal(process_next_spec);
    let tc = v.pending_tool_calls[0];
    let s = session_tools();
    assert(s[0] == "read_file"@ && s[1] == "write_file"@ && s[2] == "edit_file"@ && s[3] == "list_files"@);
    assert(v.session_allow.contains(tc.name));
    lemma_execute_keeps(
        say(v, EntrySpec::ToolCall { name: tc.name, command: display_for(tc.name, tc.arguments), status: "allowed"@ }),
        tc,
    );
}

/// A shell command that is not allowed is asked about; answering "save
/// always" saves it, and the same command is then allowed without asking.
pub proof fn law_saved_command_allowed(v: AppView)
    requires
        v.pending_tool_calls.len() > 0,
        v.pending_tool_calls[0].name == "shell"@,
        !allowed(v, "shell"@, key_for("shell"@, v.pending_tool_calls[0].arguments)),
    ensures
        ({
            let asked = process_next_spec(v).0;
            let args = v.pending_tool_calls[0].arguments;
            &&& asked.pending_permission is Some
            &&& permission_ok(asked, true)
            &&& allowed(permission_spec(asked, true, true).0, "shell"@, key_for("shell"@, args))
        }),
{
    reveal(process_next_spec);
    let asked = process_next_spec(v).0;
    let p = asked.pending_permission.unwrap();
    let key = key_for("shell"@, v.pending_tool_calls[0].arguments);
    assert(p.command == key);
    let v0 = AppView { pending_permission: None, ..asked };
    let v1 = AppView { permissions: v0.permissions.push(p.command), ..v0 };
    let v2 = AppView { messages: crate::chat::mark_last(v1.messages, "allowed"@), ..v1 };
    let tc = ToolCallSpec { id: p.tool_call_id, call_type: "function"@, name: p.tool_name, arguments: p.arguments };
    lemma_execute_keeps(v2, tc);
    let after = permission_spec(asked, true, true).0;
    assert(after.permissions == v1.permissions);
    lemma_wild_self(key);
    assert(wild(after.permissions[v0.permissions.len() as int], key));
}

/// A refused call never reaches the tool: the model is told at once that
/// the user denied it, and nothing else joins the conversation.
pub proof fn law_denied_call_answered(v: AppView)
    requires
        v.pending_permission is Some,
    ensures
        permission_spec(v, false, false).0.conversation == v.conversation.push(
            tool_msg("Permission denied by user."@, v.pending_permission.unwrap().tool_call_id),
        ),
{
    let p = v.pending_permission.unwrap();
    let v0 = AppView { pending_permission: None, ..v };
    let v1 = AppView {
        messages: crate::chat::mark_last(v0.messages, "denied"@),
        pending_tool_calls: if v0.pending_tool_calls.len() > 0 {
            v0.pending_tool_calls.skip(1)
        } else {
            v0.pending_tool_calls
        },
        conversation: v0.conversation.push(tool_msg("Permission denied by user."@, p.tool_call_id)),
        ..v0
    };
    lemma_process_keeps(v1);
}

/// A tool that succeeds ends the streak of errors; each failure lengthens
/// it, and from the third failure in a row the model is told, after the
/// error, to change its approach.
pub proof fn law_error_streak(v: AppView, id: Seq<char>, result: Seq<char>, success: bool)
    requires
        v.consecutive_errors < u32::MAX,
    ensures
        ({
            let r = tool_result_spec(v, id, result, success).0;
            let n = (v.consecutive_errors + 1) as u32;
            &&& success ==> r.consecutive_errors == 0
            &&& !success ==> r.consecutive_errors == n
            &&& !success ==> r.conversation[v.conversation.len() as int] == tool_msg(
                if n >= 3 { "Error: "@ + result + nudge(n) } else { "Error: "@ + result },
                id,
            )
            &&& success && v.tool_output_buffer.len() == 0 ==> r.conversation[v.conversation.len() as int]
                == tool_msg(result, id)
        }),
{
    let v1 = crate::chat::recorded_result(v, id, result, success);
    let v2 = if v1.pending_tool_calls.len() == 0 { crate::chat::drained(v1) } else { v1 };
    lemma_process_keeps(v2);
    assert(v2.conversation[v.conversation.len() as int] == v1.conversation[v.conversation.len() as int]);
}

/// The key that stops: while an answer streams, Ctrl+C stops it (the
/// stream is aborted first, and the transcript says so); when none
/// streams, Ctrl+C quits and does nothing else. Esc always quits.
pub proof fn law_ctrl_c_stops_or_quits(v: AppView)
    requires
        v.pattern_input is None,
        v.pending_permission is None,
    ensures
        ({
            let r = key_spec(v, Key::Char { c: 'c', ctrl: true });
            &&& v.waiting_for_response ==> {
                &&& r.1.len() > 0
                &&& r.1[0] == EffectSpec::AbortStream
                &&& r.0.messages.len() > 0
                &&& r.0.messages.last() == EntrySpec::System("Generation stopped."@)
            }
            &&& !v.waiting_for_response ==> r == (AppView { should_quit: true, ..v }, Seq::<EffectSpec>::empty())
        }),
        key_spec(v, Key::Esc).0.should_quit,
{
}

/// `t` while an answer streams shows or hides thinking, and pressing it
/// twice leaves the session as it was.
pub proof fn law_thinking_key_twice(v: AppView)
    requires
        v.pattern_input is None,
        v.pending_permission is None,
        v.waiting_for_response,
    ensures
        key_spec(v, Key::Char { c: 't', ctrl: false }).0.show_thinking == !v.show_thinking,
        key_spec(key_spec(v, Key::Char { c: 't', ctrl: false }).0, Key::Char { c: 't', ctrl: false }).0 == v,
{
    let t = Key::Char { c: 't', ctrl: false };
    assert(key_spec(key_spec(v, t).0, t).0 =~= v);
}

proof fn lemma_system_only_roles(c: Seq<crate::types::MessageSpec>)
    ensures
        forall|i: int| 0 <= i < system_only(c).len() ==> (#[trigger] system_only(c)[i]).role == "system"@,
        system_only(c).len() <= c.len(),
    decreases c.len(),
{
    if c.len() > 0 {
        lemma_system_only_roles(c.drop_last());
    }
}

proof fn lemma_system_only_of_system(c: Seq<crate::types::MessageSpec>)
    requires
        forall|i: int| 0 <= i < c.len() ==> (#[trigger] c[i]).role == "system"@,
    ensures
        system_only(c) == c,
    decreases c.len(),
{
    if c.len() > 0 {
        lemma_system_only_of_system(c.drop_last());
        assert(c.drop_last().push(c.last()) =~= c);
    }
}

/// `/clear` keeps the system messages only: each kept message is a system
/// one, every system message is kept when there are only those, and
/// clearing a second time changes no message.
pub proof fn law_clear_keeps_system_messages(v: AppView)
    ensures
        ({
            let kept = clear_spec(v).0.conversation;
            &&& forall|i: int| 0 <= i < kept.len() ==> (#[trigger] kept[i]).role == "system"@
            &&& clear_spec(clear_spec(v).0).0.conversation == kept
            &&& (forall|i: int| 0 <= i < v.conversation.len() ==> (#[trigger] v.conversation[i]).role == "system"@)
                ==> kept == v.conversation
        }),
{
    lemma_system_only_roles(v.conversation);
    lemma_system_only_of_system(system_only(v.conversation));
    if forall|i: int| 0 <= i < v.conversation.len() ==> (#[trigger] v.conversation[i]).role == "system"@ {
        lemma_system_only_of_system(v.conversation);
    }
}

/// Under unique tool names, the lookup of a route's name finds that route.
proof fn lemma_lookup_unique(m: Seq<(Seq<char>, Seq<char>, Seq<char>)>, i: int)
    requires
        routes_unique(m),
        0 <= i < m.len(),
    ensures
        mcp_lookup(m, m[i].0) == Some((m[i].1, m[i].2)),
    decreases i,
{
    if i > 0 {
        let rest = m.skip(1);
        assert(m[0].0 != m[i].0);
        assert(rest[i - 1] == m[i]);
        assert forall|a: int, b: int| 0 <= a < rest.len() && 0 <= b < rest.len() && a != b implies rest[a].0 != rest[b].0 by {
            assert(rest[a] == m[a + 1] && rest[b] == m[b + 1]);
        }
        lemma_lookup_unique(rest, i - 1);
    }
}

/// Adding a route puts it somewhere in the map.
proof fn lemma_insert_places(m: Seq<(Seq<char>, Seq<char>, Seq<char>)>, r: (Seq<char>, Seq<char>, Seq<char>)) -> (k: int)
    ensures
        0 <= k < route_insert(m, r).len(),
        route_insert(m, r)[k] == r,
{
    if exists|i: int| 0 <= i < m.len() && (#[trigger] m[i]).0 == r.0 {
        choose|i: int| 0 <= i < m.len() && (#[trigger] m[i]).0 == r.0
    } else {
        m.len() as int
    }
}

/// Adding a route leaves the routes of other names where they were.
proof fn lemma_insert_keeps(m: Seq<(Seq<char>, Seq<char>, Seq<char>)>, r: (Seq<char>, Seq<char>, Seq<char>), i: int)
    requires
        0 <= i < m.len(),
        m[i].0 != r.0,
    ensures
        i < route_insert(m, r).len(),
        route_insert(m, r)[i] == m[i],
{
}

/// Adding routes one by one keeps tool names unique.
proof fn lemma_insert_all_unique(m: Seq<(Seq<char>, Seq<char>, Seq<char>)>, rs: Seq<(Seq<char>, Seq<char>, Seq<char>)>)
    requires
        routes_unique(m),
    ensures
        routes_unique(route_insert_all(m, rs)),
    decreases rs.len(),
{
    if rs.len() > 0 {
        lemma_insert_all_unique(m, rs.drop_last());
        lemma_route_insert_unique(route_insert_all(m, rs.drop_last()), rs.last());
    }
}

/// A route that no later route renames is in the map after all are added.
proof fn lemma_insert_all_places(m: Seq<(Seq<char>, Seq<char>, Seq<char>)>, rs: Seq<(Seq<char>, Seq<char>, Seq<char>)>, j: int) -> (k: int)
    requires
        0 <= j < rs.len(),
        forall|l: int| j < l < rs.len() ==> (#[trigger] rs[l]).0 != rs[j].0,
    ensures
        0 <= k < route_insert_all(m, rs).len(),
        route_insert_all(m, rs)[k] == rs[j],
    decreases rs.len(),
{
    let before = route_insert_all(m, rs.drop_last());
    if j == rs.len() - 1 {
        lemma_insert_places(before, rs.last())
    } else {
        let init = rs.drop_last();
        assert forall|l: int| j < l < init.len() implies (#[trigger] init[l]).0 != init[j].0 by {
            assert(init[l] == rs[l]);
        }
        let k = lemma_insert_all_places(m, init, j);
        assert(rs[rs.len() - 1].0 != rs[j].0);
        lemma_insert_keeps(before, rs.last(), k);
        k
    }
}

/// A tool of a server that has just connected is offered as
/// `mcp_<server>_<tool>`, and a call to that name goes to that tool of
/// that server, unless a later tool of the same server has the same name.
pub proof fn law_connected_tool_routes(
    v: AppView,
    server: Seq<char>,
    tools: Seq<(Seq<char>, Seq<char>, Seq<char>)>,
    j: int,
    id: Seq<char>,
    args: Seq<char>,
)
    requires
        routes_unique(v.mcp_tool_map),
        0 <= j < tools.len(),
        forall|k: int| j < k < tools.len() ==> (#[trigger] tools[k]).0 != tools[j].0,
    ensures
        ({
            let w = mcp_connected_spec(v, server, tools);
            let name = "mcp_"@ + server + "_"@ + tools[j].0;
            execute_spec(w, ToolCallSpec { id, call_type: "function"@, name, arguments: args }).1 == seq![
                EffectSpec::CallMcp { call_id: id, server, tool: tools[j].0, arguments: args },
            ]
        }),
{
    reveal(execute_spec);
    let w = mcp_connected_spec(v, server, tools);
    let name = "mcp_"@ + server + "_"@ + tools[j].0;
    let pre = "mcp_"@ + server + "_"@;
    let rs = server_routes(server, tools);
    assert forall|l: int| j < l < rs.len() implies (#[trigger] rs[l]).0 != rs[j].0 by {
        assert(rs[l].0 == pre + tools[l].0 && rs[j].0 == pre + tools[j].0);
        if rs[l].0 == rs[j].0 {
            assert((pre + tools[l].0).skip(pre.len() as int) =~= tools[l].0);
            assert((pre + tools[j].0).skip(pre.len() as int) =~= tools[j].0);
        }
    }
    let k = lemma_insert_all_places(v.mcp_tool_map, rs, j);
    lemma_insert_all_unique(v.mcp_tool_map, rs);
    assert(w.mcp_tool_map == route_insert_all(v.mcp_tool_map, rs));
    lemma_lookup_unique(w.mcp_tool_map, k);
    assert(rs[j] == (name, server, tools[j].0));
    assert(w.mcp_server_names[w.mcp_server_names.len() - 1] == server);
    reveal_strlit("mcp_");
    reveal_strlit("todo");
    reveal_strlit("todo_complete");
    reveal_strlit("wipe_todo");
    reveal_strlit("bg_status");
    reveal_strlit("bg_cancel");
    reveal_strlit("bg_run");
    reveal_strlit("subagent");
    assert(name[0] == 'm');
    assert(name.take(4) =~= "mcp_"@);
    assert(args_kind(name) is None);
}


/// With labels unique, the task found under a label is the one at `i`.
proof fn lemma_found_at(s: Seq<TaskSpec>, i: int)
    requires
        labels_unique(s),
        0 <= i < s.len(),
    ensures
        index_of_label(s, s[i].label) == Some(i),
{
    lemma_index_of_label(s, s[i].label);
}

/// A label names at most one running task: starting a task under the label
/// of a running task is refused; a started task can be cancelled once (a
/// second cancel is refused, the task no longer running), and then its
/// label can be used again. Labels stay unique throughout.
pub proof fn law_task_lifecycle(tasks: Seq<TaskSpec>, t: TaskSpec, now: u64)
    requires
        labels_unique(tasks),
        t.status == BackgroundTaskStatus::Running,
    ensures
        match bg_insert_spec(tasks, t) {
            Ok(s1) => {
                &&& labels_unique(s1)
                &&& bg_insert_spec(s1, t) == Err::<Seq<TaskSpec>, Seq<char>>(
                    "task with label '"@ + t.label + "' is already running"@,
                )
                &&& match bg_cancel_spec(s1, t.label, now) {
                    Ok(s2) => {
                        &&& labels_unique(s2)
                        &&& bg_cancel_spec(s2, t.label, now) == Err::<Seq<TaskSpec>, Seq<char>>(
                            "task '"@ + t.label + "' is not running"@,
                        )
                        &&& bg_insert_spec(s2, t) is Ok
                    },
                    Err(_) => false,
                }
            },
            Err(_) => exists|i: int|
                0 <= i < tasks.len() && (#[trigger] tasks[i]).label == t.label && tasks[i].status
                    == BackgroundTaskStatus::Running,
        },
{
    lemma_index_of_label(tasks, t.label);
    match bg_insert_spec(tasks, t) {
        Ok(s1) => {
            let i: int = match index_of_label(tasks, t.label) {
                Some(j) => j,
                None => tasks.len() as int,
            };
            assert(s1[i] == t);
            assert(labels_unique(s1)) by {
                assert forall|a: int, b: int| 0 <= a < s1.len() && 0 <= b < s1.len() && a != b implies s1[a].label
                    != s1[b].label by {
                    if a != i && b != i {
                        assert(s1[a] == tasks[a] && s1[b] == tasks[b]);
                    } else if a == i {
                        assert(s1[b] == tasks[b]);
                    } else {
                        assert(s1[a] == tasks[a]);
                    }
                }
            }
            lemma_found_at(s1, i);
            let s2 = s1.update(i, TaskSpec { status: BackgroundTaskStatus::Cancelled, finished_at: Some(now), ..s1[i] });
            assert(bg_cancel_spec(s1, t.label, now) == Ok::<Seq<TaskSpec>, Seq<char>>(s2));
            assert(labels_unique(s2)) by {
                assert forall|a: int, b: int| 0 <= a < s2.len() && 0 <= b < s2.len() && a != b implies s2[a].label
                    != s2[b].label by {
                    assert(s2[a].label == s1[a].label && s2[b].label == s1[b].label);
                }
            }
            assert(s2[i].label == t.label);
            lemma_found_at(s2, i);
        },
        Err(_) => {
            let i = index_of_label(tasks, t.label).unwrap();
            assert(tasks[i].label == t.label);
        },
    }
}


proof fn lemma_find_from_none(s: Seq<char>, p: Seq<char>, from: int)
    requires
        forall|i: int| from <= i ==> !(#[trigger] occurs_at(s, p, i)),
    ensures
        find_from(s, p, from) is None,
    decreases s.len() + 1 - from,
{
    if from >= 0 && from + p.len() <= s.len() {
        lemma_find_from_none(s, p, from + 1);
    }
}

/// An answer without a `<think>` tag has no thinking in it: when it is
/// finished, and while it streams, it is shown whole as the answer.
pub proof fn law_untagged_answer_shown_whole(r: Seq<char>)
    requires
        forall|i: int| !(#[trigger] occurs_at(r, open_tag(), i)),
    ensures
        reply_split(r) == (Seq::<Seq<char>>::empty(), r),
        think_split(r) == (Seq::<(Seq<char>, bool)>::empty(), r),
{
    lemma_find_from_none(r, open_tag(), 0);
    assert(find(r, open_tag()) is None);
    if r.len() == 0 {
        assert(r =~= Seq::<char>::empty());
    }
}

/// `/thinking` shows or hides thinking blocks, and saying it twice
/// leaves them as they were.
pub proof fn law_thinking_command_twice(v: AppView)
    ensures
        thinking_spec(v).show_thinking == !v.show_thinking,
        thinking_spec(thinking_spec(v)).show_thinking == v.show_thinking,
        thinking_spec(thinking_spec(v)).conversation == v.conversation,
{
}

/// `/server <key>`, for a key of the configuration, switches the session
/// to the server stored under that key: its settings, its name, and a
/// note that names it; the health of the new server is not known yet.
pub proof fn law_server_switch_picks_named(v: AppView, i: int)
    requires
        v.config.wf(),
        0 <= i < v.config.servers@.len(),
    ensures
        ({
            let sc = v.config.servers@[i].1;
            let w = server_spec(v, Some(v.config.servers@[i].0@));
            &&& w.server == sc
            &&& w.active_server_name == sc.name@
            &&& w.server_healthy is None
            &&& w.messages == v.messages.push(EntrySpec::System("Switched to server: "@ + sc.name@))
        }),
{
    let ks = crate::config::server_keys(v.config.servers@);
    let key = v.config.servers@[i].0@;
    assert(ks[i] == key);
    let c = choose|j: int| 0 <= j < ks.len() && ks[j] == key;
    assert(ks[c] == key);
    assert(c == i);
}

} // verus!
