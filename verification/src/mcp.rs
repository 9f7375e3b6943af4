//! MCP servers: where an SSE server takes its messages, the `data:`
//! payloads of a streamed reply, errors, and the text of a tool's reply.
use vstd::prelude::*;
use crate::num::{dec_int, push_i64};
use crate::text::{
    append_str, append_str_chars, chars_of, join, slice_of, split_lines, starts_with, starts_with_str, string_of,
    string_views, views,
};

verus! {

/// The error of a JSON-RPC reply.
pub struct JsonRpcError {
    pub code: i64,
    pub message: String,
}

impl JsonRpcError {
    /// How the error is reported: `MCP error <code>: <message>`.
    pub fn report(&self) -> (r: String)
        ensures
            r@ == "MCP error "@ + dec_int(self.code as int) + ": "@ + self.message@,
    {
        let mut s = "MCP error ".to_owned();
        push_i64(&mut s, self.code);
        append_str(&mut s, ": ");
        append_str(&mut s, self.message.as_str());
        s
    }
}

/// The reply to a `tools/call`.
pub struct McpCallResult {
    pub content: Vec<McpContent>,
}

/// One piece of a tool's reply.
pub struct McpContent {
    pub content_type: String,
    pub text: Option<String>,
}

/// The texts of the pieces that have one, in order.
pub open spec fn content_texts(cs: Seq<McpContent>) -> Seq<Seq<char>>
    decreases cs.len(),
{
    if cs.len() == 0 {
        seq![]
    } else {
        let pre = content_texts(cs.drop_last());
        match cs.last().text {
            Some(t) => pre.push(t@),
            None => pre,
        }
    }
}

impl McpCallResult {
    /// The reply as text: the pieces' texts, one per line.
    pub fn text(&self) -> (r: String)
        ensures
            r@ == join(content_texts(self.content@), "\n"@),
    {
        let mut parts: Vec<String> = Vec::new();
        let mut i: usize = 0;
        assert(self.content@.take(0) =~= Seq::<McpContent>::empty());
        while i < self.content.len()
            invariant
                i <= self.content.len(),
                string_views(parts@) == content_texts(self.content@.take(i as int)),
            decreases self.content.len() - i,
        {
            assert(self.content@.take(i + 1).drop_last() =~= self.content@.take(i as int));
            match &self.content[i].text {
                Some(t) => {
                    let ghost pb = string_views(parts@);
                    parts.push(t.clone());
                    assert(string_views(parts@) =~= pb.push(t@));
                },
                None => {},
            }
            i = i + 1;
        }
        assert(self.content@.take(self.content.len() as int) =~= self.content@);
        crate::text::join_strings(&parts, "\n")
    }
}


// ───────────────────────── SSE endpoints and payloads ─────────────────────────

/// `s` without the `\r` characters at its end (`trim_end_matches('\r')`).
pub open spec fn trim_end_cr(s: Seq<char>) -> Seq<char>
    decreases s.len(),
{
    if s.len() > 0 && s.last() == '\r' {
        trim_end_cr(s.drop_last())
    } else {
        s
    }
}

/// The position of the last `/` of `s`.
pub open spec fn last_slash(s: Seq<char>) -> Option<int>
    decreases s.len(),
{
    if s.len() == 0 {
        None
    } else if s.last() == '/' {
        Some(s.len() - 1)
    } else {
        last_slash(s.drop_last())
    }
}

/// `url` up to its last `/`, or all of it when it has none.
pub open spec fn url_base(url: Seq<char>) -> Seq<char> {
    match last_slash(url) {
        Some(i) => url.take(i),
        None => url,
    }
}

/// The message URL an SSE server announces on a line of its event
/// stream: a `data: ` line whose payload is an absolute URL (`http…`), or
/// a path (`/…`), which is taken relative to the stream's URL.
pub open spec fn endpoint_spec(url: Seq<char>, line: Seq<char>) -> Option<Seq<char>> {
    let l = trim_end_cr(line);
    if starts_with(l, "data: "@) {
        let d = l.skip(6);
        if d.len() > 0 && d[0] == '/' {
            Some(url_base(url) + d)
        } else if starts_with(d, "http"@) {
            Some(d)
        } else {
            None
        }
    } else {
        None
    }
}

/// The message URL announced on a line of an SSE server's stream, if any.
pub fn endpoint_of_line(url: &str, line: &str) -> (r: Option<String>)
    ensures
        crate::text::opt_view(r) == endpoint_spec(url@, line@),
{
    let v = chars_of(line);
    let mut end = v.len();
    assert(v@.take(v.len() as int) =~= v@);
    while end > 0 && v[end - 1] == '\r'
        invariant
            end <= v.len(),
            trim_end_cr(v@) == trim_end_cr(v@.take(end as int)),
        decreases end,
    {
        assert(v@.take(end as int).drop_last() =~= v@.take(end - 1));
        end = end - 1;
    }
    let l = slice_of(&v, 0, end);
    assert(l@ =~= v@.take(end as int));
    assert(v@.take(v.len() as int) =~= v@);
    if !starts_with_str(&l, "data: ") {
        return None;
    }
    proof {
        reveal_strlit("data: ");
    }
    let d = slice_of(&l, 6, l.len());
    assert(d@ =~= l@.skip(6));
    if d.len() > 0 && d[0] == '/' {
        let u = chars_of(url);
        let mut k = u.len();
        assert(u@.take(u.len() as int) =~= u@);
        while k > 0 && u[k - 1] != '/'
            invariant
                k <= u.len(),
                last_slash(u@) == last_slash(u@.take(k as int)),
            decreases k,
        {
            assert(u@.take(k as int).drop_last() =~= u@.take(k - 1));
            k = k - 1;
        }
        assert(u@.take(u.len() as int) =~= u@);
        let base = if k == 0 {
            assert(last_slash(u@.take(0)) is None);
            u
        } else {
            assert(u@.take(k as int).drop_last() =~= u@.take(k - 1));
            slice_of(&u, 0, k - 1)
        };
        assert(base@ =~= url_base(url@));
        let mut s = string_of(&base);
        append_str_chars(&mut s, &d);
        Some(s)
    } else if starts_with_str(&d, "http") {
        Some(string_of(&d))
    } else {
        None
    }
}

/// The payloads of the `data: ` lines among `ls`, in order.
pub open spec fn data_of_lines(ls: Seq<Seq<char>>) -> Seq<Seq<char>>
    decreases ls.len(),
{
    if ls.len() == 0 {
        seq![]
    } else {
        let pre = data_of_lines(ls.drop_last());
        if starts_with(ls.last(), "data: "@) {
            pre.push(ls.last().skip(6))
        } else {
            pre
        }
    }
}

/// The payloads of the `data: ` lines of a streamed reply, in order.
pub fn data_payloads(body: &str) -> (r: Vec<String>)
    ensures
        string_views(r@) == data_of_lines(crate::text::lines(body@)),
{
    let v = chars_of(body);
    let ls = split_lines(&v);
    let mut out: Vec<String> = Vec::new();
    let mut i: usize = 0;
    proof {
        reveal_strlit("data: ");
    }
    assert(views(ls@).take(0) =~= Seq::<Seq<char>>::empty());
    while i < ls.len()
        invariant
            i <= ls.len(),
            string_views(out@) == data_of_lines(views(ls@).take(i as int)),
        decreases ls.len() - i,
    {
        assert(views(ls@).take(i + 1).drop_last() =~= views(ls@).take(i as int));
        assert(views(ls@).take(i + 1).last() == ls@[i as int]@);
        if starts_with_str(&ls[i], "data: ") {
            proof {
                reveal_strlit("data: ");
            }
            let d = slice_of(&ls[i], 6, ls[i].len());
            assert(d@ =~= ls@[i as int]@.skip(6));
            let ghost pre = string_views(out@);
            out.push(string_of(&d));
            assert(string_views(out@) =~= pre.push(d@));
        }
        i = i + 1;
    }
    assert(views(ls@).take(ls.len() as int) =~= views(ls@));
    out
}

} // verus!
