//! End-of-session extraction: the model's reply, with any Markdown code
//! fence taken off, is the JSON of the memories to keep.
use vstd::prelude::*;
use crate::text::{ends_with, starts_with, trim, trim_char_start};

verus! {

/// The memories the model extracted, and a title for the session.
pub struct ExtractedPayload {
    pub title: Option<String>,
    pub memories: Vec<Extracted>,
}

/// One extracted memory and its kind's name.
pub struct Extracted {
    pub content: String,
    pub kind: String,
}

/// `s` with every trailing `p` removed (`trim_end_matches(p)`).
pub open spec fn trim_end_pattern(s: Seq<char>, p: Seq<char>) -> Seq<char>
    decreases s.len(),
{
    if p.len() > 0 && ends_with(s, p) {
        trim_end_pattern(s.take(s.len() - p.len()), p)
    } else {
        s
    }
}

/// The inside of a fence: leading newlines and trailing fences dropped,
/// then trimmed.
pub open spec fn fence_inside(s: Seq<char>) -> Seq<char> {
    trim(trim_end_pattern(trim_char_start(s, '\n'), "```"@))
}

/// The JSON text of a reply: the trimmed reply, taken out of a ```json or
/// ``` fence when it starts with one.
pub open spec fn payload_body_spec(raw: Seq<char>) -> Seq<char> {
    let t = trim(raw);
    if starts_with(t, "```json"@) {
        fence_inside(t.skip(7))
    } else if starts_with(t, "```"@) {
        fence_inside(t.skip(3))
    } else {
        t
    }
}

fn trim_end_fences(v: &Vec<char>) -> (r: Vec<char>)
    ensures
        r@ == trim_end_pattern(v@, "```"@),
{
    let fence = crate::text::chars_of("```");
    proof {
        reveal_strlit("```");
    }
    let mut end = v.len();
    assert(v@.take(end as int) =~= v@);
    loop
        invariant
            end <= v.len(),
            fence@ == "```"@,
            fence@.len() == 3,
            trim_end_pattern(v@, "```"@) == trim_end_pattern(v@.take(end as int), "```"@),
        decreases end,
    {
        let cur = crate::text::slice_of(v, 0, end);
        assert(cur@ =~= v@.take(end as int));
        if crate::text::ends_with_exec(&cur, &fence) {
            assert(v@.take(end as int).take(end - 3) =~= v@.take(end - 3));
            end = end - 3;
        } else {
            return cur;
        }
    }
}

fn fence_inside_exec(v: &Vec<char>) -> (r: Vec<char>)
    ensures
        r@ == fence_inside(v@),
{
    let mut i: usize = 0;
    assert(v@.skip(0) =~= v@);
    while i < v.len() && v[i] == '\n'
        invariant
            i <= v.len(),
            trim_char_start(v@, '\n') == trim_char_start(v@.skip(i as int), '\n'),
        decreases v.len() - i,
    {
        assert(v@.skip(i as int).drop_first() =~= v@.skip(i + 1));
        i = i + 1;
    }
    let rest = crate::text::slice_of(v, i, v.len());
    assert(rest@ =~= v@.skip(i as int));
    let cut = trim_end_fences(&rest);
    crate::text::trim_chars(&cut)
}

/// The JSON text of the model's extraction reply.
pub fn payload_body(raw: &str) -> (r: String)
    ensures
        r@ == payload_body_spec(raw@),
{
    let v = crate::text::chars_of(raw);
    let t = crate::text::trim_chars(&v);
    if crate::text::starts_with_str(&t, "```json") {
        proof {
            reveal_strlit("```json");
        }
        let inner = crate::text::slice_of(&t, 7, t.len());
        assert(inner@ =~= t@.skip(7));
        let b = fence_inside_exec(&inner);
        crate::text::string_of(&b)
    } else if crate::text::starts_with_str(&t, "```") {
        proof {
            reveal_strlit("```");
        }
        let inner = crate::text::slice_of(&t, 3, t.len());
        assert(inner@ =~= t@.skip(3));
        let b = fence_inside_exec(&inner);
        crate::text::string_of(&b)
    } else {
        crate::text::string_of(&t)
    }
}

} // verus!
