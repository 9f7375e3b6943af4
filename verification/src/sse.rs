//! Server-sent events of a streamed chat completion: cutting the byte
//! stream into lines, picking the JSON payload of a `data:` line, and
//! turning a decoded chunk into stream events.
use vstd::prelude::*;
use crate::text::{append_chars, chars_eq_str, chars_of, slice_of, starts_with, starts_with_str, string_of, string_views, trim, trim_chars};
use crate::types::{ChatResponse, DeltaSpec, StreamEvent};

verus! {

/// The JSON payload of an SSE line: `None` for blank lines, `:` comments,
/// lines that are not `data: …`, and the `[DONE]` sentinel.
pub open spec fn sse_data_spec(line: Seq<char>) -> Option<Seq<char>> {
    let t = trim(line);
    if t.len() == 0 || t[0] == ':' {
        None
    } else if !starts_with(t, "data: "@) {
        None
    } else if t.skip(6) == "[DONE]"@ {
        None
    } else {
        Some(t.skip(6))
    }
}

/// The JSON payload of one SSE line, if it carries one.
pub fn sse_data(line: &str) -> (r: Option<String>)
    ensures
        crate::text::opt_view(r) == sse_data_spec(line@),
{
    let v = chars_of(line);
    let t = trim_chars(&v);
    if t.len() == 0 || t[0] == ':' {
        return None;
    }
    if !starts_with_str(&t, "data: ") {
        return None;
    }
    proof {
        reveal_strlit("data: ");
    }
    let d = slice_of(&t, 6, t.len());
    assert(d@ =~= t@.skip(6));
    if chars_eq_str(&d, "[DONE]") {
        return None;
    }
    Some(string_of(&d))
}

pub open spec fn no_newline(s: Seq<char>) -> bool {
    forall|i: int| 0 <= i < s.len() ==> s[i] != '\n'
}

/// Lines with their newlines put back.
pub open spec fn with_newlines(ls: Seq<Seq<char>>) -> Seq<char>
    decreases ls.len(),
{
    if ls.len() == 0 {
        seq![]
    } else {
        with_newlines(ls.drop_last()) + ls.last() + seq!['\n']
    }
}

/// Collects streamed text and hands out complete lines.
pub struct SseLineBuffer {
    pub buffer: Vec<char>,
}

impl SseLineBuffer {
    pub open spec fn view(&self) -> Seq<char> {
        self.buffer@
    }

    pub open spec fn wf(&self) -> bool {
        no_newline(self.buffer@)
    }

    pub fn new() -> (r: Self)
        ensures
            r@ == Seq::<char>::empty(),
            r.wf(),
    {
        SseLineBuffer { buffer: Vec::new() }
    }

    /// Adds a piece of the stream and returns the lines it completes, in
    /// order; the unfinished rest stays buffered.
    pub fn push(&mut self, chunk: &str) -> (r: Vec<String>)
        requires
            old(self).wf(),
        ensures
            final(self).wf(),
            old(self)@ + chunk@ == with_newlines(string_views(r@)) + final(self)@,
            forall|i: int| 0 <= i < r@.len() ==> no_newline(#[trigger] r@[i]@),
    {
        let c = chars_of(chunk);
        let mut all: Vec<char> = Vec::new();
        std::mem::swap(&mut all, &mut self.buffer);
        append_chars(&mut all, &c);
        let mut out: Vec<String> = Vec::new();
        let mut start: usize = 0;
        let mut i: usize = 0;
        assert(all@.subrange(0, 0) =~= Seq::<char>::empty());
        assert(with_newlines(string_views(out@)) =~= Seq::<char>::empty());
        while i < all.len()
            invariant
                start <= i <= all.len(),
                with_newlines(string_views(out@)) == all@.take(start as int),
                no_newline(all@.subrange(start as int, i as int)),
                forall|k: int| 0 <= k < out@.len() ==> no_newline(#[trigger] out@[k]@),
            decreases all.len() - i,
        {
            if all[i] == '\n' {
                let line = crate::text::string_of_range(&all, start, i);
                let ghost before = string_views(out@);
                out.push(line);
                assert(string_views(out@) =~= before.push(all@.subrange(start as int, i as int)));
                assert(string_views(out@).drop_last() =~= before);
                assert(all@.take(i + 1) =~= all@.take(start as int) + all@.subrange(start as int, i as int) + seq!['\n']);
                start = i + 1;
                assert(all@.subrange(start as int, start as int) =~= Seq::<char>::empty());
            } else {
                assert(no_newline(all@.subrange(start as int, i + 1)));
            }
            i = i + 1;
        }
        self.buffer = slice_of(&all, start, all.len());
        assert(all@ =~= all@.take(start as int) + all@.subrange(start as int, all@.len() as int));
        out
    }
}

// ───────────────────────── events ─────────────────────────

pub enum EventSpec {
    Token(Seq<char>),
    Delta(DeltaSpec),
    Usage(crate::types::Usage),
    Done,
}

impl StreamEvent {
    pub open spec fn view(&self) -> EventSpec {
        match self {
            StreamEvent::Token(t) => EventSpec::Token(t@),
            StreamEvent::ToolCallDelta(d) => EventSpec::Delta(d.view()),
            StreamEvent::Usage(u) => EventSpec::Usage(*u),
            StreamEvent::Done => EventSpec::Done,
        }
    }
}

pub open spec fn event_views(s: Seq<StreamEvent>) -> Seq<EventSpec> {
    s.map_values(|e: StreamEvent| e.view())
}

pub open spec fn delta_events(ds: Seq<crate::types::DeltaToolCall>) -> Seq<EventSpec>
    decreases ds.len(),
{
    if ds.len() == 0 {
        seq![]
    } else {
        delta_events(ds.drop_last()).push(EventSpec::Delta(ds.last().view()))
    }
}

/// The events of one choice: its text, then its tool-call pieces, then
/// `Done` when it has a finish reason.
pub open spec fn choice_events(c: crate::types::Choice) -> Seq<EventSpec> {
    (match c.delta {
        Some(d) => (match d.content {
            Some(t) => seq![EventSpec::Token(t@)],
            None => seq![],
        }) + (match d.tool_calls {
            Some(ts) => delta_events(ts@),
            None => seq![],
        }),
        None => seq![],
    }) + if c.finish_reason is Some {
        seq![EventSpec::Done]
    } else {
        seq![]
    }
}

pub open spec fn response_events(cs: Seq<crate::types::Choice>) -> Seq<EventSpec>
    decreases cs.len(),
{
    if cs.len() == 0 {
        seq![]
    } else {
        response_events(cs.drop_last()) + choice_events(cs.last())
    }
}

pub open spec fn any_finished(cs: Seq<crate::types::Choice>) -> bool {
    exists|i: int| 0 <= i < cs.len() && (#[trigger] cs[i]).finish_reason is Some
}

/// The stream events of one decoded chunk, and whether it finished the
/// response.
pub fn events_of_response(resp: &ChatResponse) -> (r: (Vec<StreamEvent>, bool))
    ensures
        event_views(r.0@) == response_events(resp.choices@),
        r.1 == any_finished(resp.choices@),
{
    let mut out: Vec<StreamEvent> = Vec::new();
    let mut done = false;
    let mut i: usize = 0;
    let ghost cs = resp.choices@;
    assert(cs.take(0) =~= Seq::<crate::types::Choice>::empty());
    assert(event_views(out@) =~= Seq::<EventSpec>::empty());
    while i < resp.choices.len()
        invariant
            i <= resp.choices.len(),
            cs == resp.choices@,
            event_views(out@) == response_events(cs.take(i as int)),
            done == any_finished(cs.take(i as int)),
        decreases resp.choices.len() - i,
    {
        let choice = &resp.choices[i];
        assert(cs.take(i + 1).drop_last() =~= cs.take(i as int));
        assert(cs.take(i + 1).last() == *choice);
        let ghost base = event_views(out@);
        match &choice.delta {
            Some(delta) => {
                match &delta.content {
                    Some(content) => {
                        out.push(StreamEvent::Token(content.clone()));
                    },
                    None => {},
                }
                let ghost mid = event_views(out@);
                match &delta.tool_calls {
                    Some(tcs) => {
                        let mut k: usize = 0;
                        assert(tcs@.take(0) =~= Seq::<crate::types::DeltaToolCall>::empty());
                        assert(mid =~= mid + delta_events(tcs@.take(0)));
                        while k < tcs.len()
                            invariant
                                k <= tcs.len(),
                                event_views(out@) == mid + delta_events(tcs@.take(k as int)),
                            decreases tcs.len() - k,
                        {
                            let ghost ob = event_views(out@);
                            out.push(StreamEvent::ToolCallDelta(tcs[k].duplicate()));
                            assert(event_views(out@) =~= ob.push(EventSpec::Delta(tcs@[k as int].view())));
                            assert(tcs@.take(k + 1).drop_last() =~= tcs@.take(k as int));
                            k = k + 1;
                        }
                        assert(tcs@.take(tcs.len() as int) =~= tcs@);
                    },
                    None => {},
                }
            },
            None => {},
        }
        let ghost pre_done = event_views(out@);
        if choice.finish_reason.is_some() {
            out.push(StreamEvent::Done);
            assert(event_views(out@) =~= pre_done.push(EventSpec::Done));
            done = true;
        }
        proof {
            assert(event_views(out@) =~= base + choice_events(*choice));
            if choice.finish_reason is Some {
                assert(cs.take(i + 1)[i as int] == *choice);
            }
            if done && !(choice.finish_reason is Some) {
                let j = choose|j: int| 0 <= j < cs.take(i as int).len() && (#[trigger] cs.take(i as int)[j]).finish_reason is Some;
                assert(cs.take(i + 1)[j] == cs.take(i as int)[j]);
            }
            if any_finished(cs.take(i + 1)) && !(choice.finish_reason is Some) {
                let j = choose|j: int| 0 <= j < cs.take(i + 1).len() && (#[trigger] cs.take(i + 1)[j]).finish_reason is Some;
                assert(cs.take(i + 1)[j] == cs.take(i as int)[j]);
            }
        }
        i = i + 1;
    }
    assert(cs.take(resp.choices.len() as int) =~= cs);
    (out, done)
}

} // verus!
