//! Pure text shaping for the chat view: truncation, think-tag parsing,
//! previews of collapsed blocks, wrapping at display width.
use vstd::prelude::*;
use crate::num::{dec, push_u64};
use crate::shell::{json_array_field_len, json_array_len, json_str_field, json_string_field};
use crate::text::{
    append_chars, append_str, append_str_chars, chars_eq_str, chars_of, find, lines, occurs_at, slice_of,
    split_lines, string_of, string_of_range, trim, trim_chars, views,
};

verus! {

// ───────────────────────── UTF-8 byte lengths ─────────────────────────

/// Bytes taken by `c` in UTF-8.
pub open spec fn utf8_len(c: char) -> nat {
    let u = c as u32;
    if u < 0x80 {
        1
    } else if u < 0x800 {
        2
    } else if u < 0x10000 {
        3
    } else {
        4
    }
}

/// Bytes taken by `s` in UTF-8 (`str::len`).
pub open spec fn byte_len(s: Seq<char>) -> nat
    decreases s.len(),
{
    if s.len() == 0 {
        0
    } else {
        byte_len(s.drop_last()) + utf8_len(s.last())
    }
}

/// Byte offset `b` falls between two characters of `s`.
pub open spec fn is_boundary(s: Seq<char>, b: nat) -> bool {
    exists|k: int| 0 <= k <= s.len() && byte_len(#[trigger] s.take(k)) == b
}

/// The number of characters before byte offset `b`, when `b` is a
/// character boundary.
pub open spec fn chars_before(s: Seq<char>, b: nat) -> int {
    choose|k: int| 0 <= k <= s.len() && byte_len(#[trigger] s.take(k)) == b
}

pub fn utf8_len_exec(c: char) -> (r: usize)
    ensures
        r == utf8_len(c),
{
    let u = c as u32;
    if u < 0x80 {
        1
    } else if u < 0x800 {
        2
    } else if u < 0x10000 {
        3
    } else {
        4
    }
}

proof fn lemma_byte_len_mono(s: Seq<char>, k: int, m: int)
    requires
        0 <= k <= m <= s.len(),
    ensures
        byte_len(s.take(k)) + (m - k) <= byte_len(s.take(m)),
    decreases m - k,
{
    if k < m {
        lemma_byte_len_mono(s, k, m - 1);
        assert(s.take(m).drop_last() =~= s.take(m - 1));
    }
}

proof fn lemma_byte_len_strict(s: Seq<char>, k: int, m: int)
    requires
        0 <= k < m <= s.len(),
    ensures
        byte_len(s.take(k)) < byte_len(s.take(m)),
{
    lemma_byte_len_mono(s, k, m);
}

/// `(byte_len(s) <= max, k)` where, when longer, `s.take(k)` is the
/// longest prefix of at most `max` bytes.
fn prefix_within(v: &Vec<char>, max: usize) -> (r: (bool, usize))
    ensures
        r.1 <= v.len(),
        r.0 == (byte_len(v@) <= max),
        r.0 ==> r.1 == v.len(),
        !r.0 ==> byte_len(v@.take(r.1 as int)) <= max,
        !r.0 ==> (is_boundary(v@, max as nat) <==> byte_len(v@.take(r.1 as int)) == max),
        !r.0 && is_boundary(v@, max as nat) ==> chars_before(v@, max as nat) == r.1,
{
    let mut bytes: usize = 0;
    let mut i: usize = 0;
    assert(v@.take(0) =~= Seq::<char>::empty());
    while i < v.len()
        invariant
            i <= v.len(),
            bytes == byte_len(v@.take(i as int)),
            bytes <= max,
        decreases v.len() - i,
    {
        let w = utf8_len_exec(v[i]);
        assert(v@.take(i + 1).drop_last() =~= v@.take(i as int));
        if w > max - bytes {
            // v.take(i + 1) already exceeds max
            proof {
                assert(byte_len(v@.take(i + 1)) > max);
                lemma_byte_len_mono(v@, i + 1, v@.len() as int);
                assert(v@.take(v@.len() as int) =~= v@);
                if is_boundary(v@, max as nat) {
                    let k = choose|k: int| 0 <= k <= v@.len() && byte_len(#[trigger] v@.take(k)) == max;
                    if k > i {
                        lemma_byte_len_mono(v@, i + 1, k);
                    } else if k < i {
                        lemma_byte_len_strict(v@, k, i as int);
                    }
                    assert(k == i);
                }
                if byte_len(v@.take(i as int)) == max {
                    assert(is_boundary(v@, max as nat));
                }
            }
            return (false, i);
        }
        bytes = bytes + w;
        i = i + 1;
    }
    assert(v@.take(v.len() as int) =~= v@);
    (true, v.len())
}

/// `s` if it is at most `max` bytes long, else its first `max` bytes and
/// `...`.
pub open spec fn truncated(s: Seq<char>, max: nat) -> Seq<char> {
    if byte_len(s) <= max {
        s
    } else {
        s.take(chars_before(s, max)) + "..."@
    }
}

/// Cut `s` to `max` bytes and mark the cut with `...`.
pub fn truncate_display(s: &str, max: usize) -> (r: String)
    requires
        byte_len(s@) > max ==> is_boundary(s@, max as nat),
    ensures
        r@ == truncated(s@, max as nat),
{
    let v = chars_of(s);
    let (fits, k) = prefix_within(&v, max);
    if fits {
        s.to_owned()
    } else {
        let mut r = string_of_range(&v, 0, k);
        append_str(&mut r, "...");
        assert(v@.subrange(0, k as int) =~= v@.take(k as int));
        r
    }
}

// ───────────────────────── think tags ─────────────────────────

pub open spec fn open_tag() -> Seq<char> {
    "<think>"@
}

pub open spec fn close_tag() -> Seq<char> {
    "</think>"@
}

/// Thinking blocks (content, closed?) and the text around them, as read
/// from a streaming buffer.
pub open spec fn think_split(r: Seq<char>) -> (Seq<(Seq<char>, bool)>, Seq<char>)
    decreases r.len(),
{
    if r.len() == 0 {
        (seq![], seq![])
    } else {
        match find(r, open_tag()) {
            None => (seq![], r),
            Some(s) => {
                if 0 <= s && s + 7 <= r.len() {
                    let after = r.skip(s + 7);
                    match find(after, close_tag()) {
                        Some(e) => if 0 <= e && e + 8 <= after.len() {
                            let (ps, t) = think_split(after.skip(e + 8));
                            (seq![(after.take(e), true)] + ps, r.take(s) + t)
                        } else {
                            (seq![], r)
                        },
                        None => (seq![(after, false)], r.take(s)),
                    }
                } else {
                    (seq![], r)
                }
            },
        }
    }
}

pub open spec fn think_parts_view(v: Seq<(String, bool)>) -> Seq<(Seq<char>, bool)> {
    v.map_values(|p: (String, bool)| (p.0@, p.1))
}

/// Parse streaming buffer into thinking blocks and assistant text.
/// Returns (thinking_parts: Vec<(content, is_closed)>, combined_text: String).
pub fn parse_streaming_think_tags(buffer: &str) -> (r: (Vec<(String, bool)>, String))
    ensures
        (think_parts_view(r.0@), r.1@) == think_split(buffer@),
{
    let v = chars_of(buffer);
    let ot = chars_of("<think>");
    let ct = chars_of("</think>");
    proof {
        reveal_strlit("<think>");
        reveal_strlit("</think>");
    }
    let mut parts: Vec<(String, bool)> = Vec::new();
    let mut text = String::new();
    let mut pos: usize = 0;
    assert(v@.skip(0) =~= v@);
    assert(think_parts_view(parts@) =~= Seq::<(Seq<char>, bool)>::empty());
    while pos < v.len()
        invariant
            pos <= v.len(),
            ot@ == open_tag(),
            ct@ == close_tag(),
            ot@.len() == 7,
            ct@.len() == 8,
            think_split(buffer@) == (think_parts_view(parts@) + think_split(v@.skip(pos as int)).0, text@
                + think_split(v@.skip(pos as int)).1),
            v@ == buffer@,
        decreases v.len() - pos,
    {
        let rest = slice_of(&v, pos, v.len());
        assert(rest@ =~= v@.skip(pos as int));
        let ghost pv = think_parts_view(parts@);
        let ghost tv = text@;
        match crate::text::find_exec(&rest, &ot) {
            None => {
                append_str_chars(&mut text, &rest);
                pos = v.len();
                assert(v@.skip(pos as int) =~= Seq::<char>::empty());
                assert(think_parts_view(parts@) + think_split(v@.skip(pos as int)).0 =~= pv);
            },
            Some(s) => {
                let after = slice_of(&rest, s + 7, rest.len());
                assert(after@ =~= rest@.skip(s + 7));
                let before = slice_of(&rest, 0, s);
                assert(before@ =~= rest@.take(s as int));
                append_str_chars(&mut text, &before);
                match crate::text::find_exec(&after, &ct) {
                    Some(e) => {
                        let inner = string_of_range(&after, 0, e);
                        assert(after@.subrange(0, e as int) =~= after@.take(e as int));
                        parts.push((inner, true));
                        assert(think_parts_view(parts@) =~= pv.push((after@.take(e as int), true)));
                        pos = pos + s + 7 + e + 8;
                        assert(v@.skip(pos as int) =~= after@.skip(e + 8));
                        assert(think_parts_view(parts@) + think_split(v@.skip(pos as int)).0 =~= pv + (seq![(after@.take(e as int), true)] + think_split(after@.skip(e + 8)).0));
                    },
                    None => {
                        let inner = string_of(&after);
                        parts.push((inner, false));
                        assert(think_parts_view(parts@) =~= pv.push((after@, false)));
                        pos = v.len();
                        assert(v@.skip(pos as int) =~= Seq::<char>::empty());
                    },
                }
            },
        }
    }
    assert(v@.skip(pos as int) =~= Seq::<char>::empty());
    assert(think_parts_view(parts@) + think_split(v@.skip(pos as int)).0 =~= think_parts_view(parts@));
    (parts, text)
}

/// A tag that opens with its only `<`, placed right after text that does
/// not hold it, is first found right there.
proof fn lemma_find_after(a: Seq<char>, t: Seq<char>, c: Seq<char>, from: int)
    requires
        t.len() > 0,
        t[0] == '<',
        forall|k: int| 1 <= k < t.len() ==> t[k] != '<',
        forall|i: int| !occurs_at(a, t, i),
        0 <= from <= a.len(),
    ensures
        crate::text::find_from(a + t + c, t, from) == Some(a.len() as int),
    decreases a.len() - from,
{
    let r = a + t + c;
    if from == a.len() {
        assert(r.subrange(from, from + t.len()) =~= t);
    } else {
        if occurs_at(r, t, from) {
            if from + t.len() <= a.len() {
                assert(a.subrange(from, from + t.len()) =~= r.subrange(from, from + t.len()));
                assert(occurs_at(a, t, from));
            } else {
                let k = a.len() - from;
                assert(r[a.len() as int] == t[0]);
                assert(r.subrange(from, from + t.len())[k] == r[from + k]);
                assert(t[k] == '<');
            }
        }
        lemma_find_after(a, t, c, from + 1);
    }
}

/// A tag that does not occur in a text is not found in it.
proof fn lemma_find_none(s: Seq<char>, t: Seq<char>, from: int)
    requires
        forall|i: int| !occurs_at(s, t, i),
    ensures
        crate::text::find_from(s, t, from) is None,
    decreases s.len() + 1 - from,
{
    if !(from < 0 || from + t.len() > s.len()) {
        assert(!occurs_at(s, t, from));
        lemma_find_none(s, t, from + 1);
    }
}

/// A closed thinking block is cut out of the streamed answer: for
/// `a <think> b </think> c`, where `a` holds no `<think>` and `b` no
/// `</think>`, `b` is the first thinking block, followed by those of `c`,
/// and the answer text is `a` followed by the text of `c`.
pub proof fn law_think_block_cut(a: Seq<char>, b: Seq<char>, c: Seq<char>)
    requires
        forall|i: int| !occurs_at(a, open_tag(), i),
        forall|i: int| !occurs_at(b, close_tag(), i),
    ensures
        think_split(a + open_tag() + b + close_tag() + c) == (seq![(b, true)] + think_split(c).0, a + think_split(c).1),
{
    reveal_strlit("<think>");
    reveal_strlit("</think>");
    let ot = open_tag();
    let ct = close_tag();
    let r = a + ot + b + ct + c;
    assert(r =~= a + ot + (b + ct + c));
    lemma_find_after(a, ot, b + ct + c, 0);
    let after = r.skip(a.len() as int + 7);
    assert(after =~= b + ct + c);
    lemma_find_after(b, ct, c, 0);
    assert(after.take(b.len() as int) =~= b);
    assert(after.skip(b.len() as int + 8) =~= c);
    assert(r.take(a.len() as int) =~= a);
}

/// An unclosed thinking block at the end of the streamed answer is cut
/// out too: for `a <think> b`, where `a` holds no `<think>` and `b` no
/// `</think>`, `b` is the one (open) block and the answer text is `a`.
pub proof fn law_think_unclosed_cut(a: Seq<char>, b: Seq<char>)
    requires
        forall|i: int| !occurs_at(a, open_tag(), i),
        forall|i: int| !occurs_at(b, close_tag(), i),
    ensures
        think_split(a + open_tag() + b) == (seq![(b, false)], a),
{
    reveal_strlit("<think>");
    let ot = open_tag();
    let r = a + ot + b;
    assert(r =~= a + ot + b);
    lemma_find_after(a, ot, b, 0);
    let after = r.skip(a.len() as int + 7);
    assert(after =~= b);
    lemma_find_none(b, close_tag(), 0);
    assert(r.take(a.len() as int) =~= a);
}

// ───────────────────────── tool call summaries ─────────────────────────

/// `s` can be cut at `max` bytes: it is no longer, or `max` falls between
/// two of its characters.
pub open spec fn cuttable_spec(s: Seq<char>, max: nat) -> bool {
    byte_len(s) > max ==> is_boundary(s, max)
}

/// Whether `s` can be cut at `max` bytes.
pub fn cuttable(s: &str, max: usize) -> (r: bool)
    ensures
        r == cuttable_spec(s@, max as nat),
{
    let v = chars_of(s);
    let (fits, k) = prefix_within(&v, max);
    if fits {
        true
    } else {
        let mut bytes: usize = 0;
        let mut i: usize = 0;
        assert(v@.take(0) =~= Seq::<char>::empty());
        while i < k
            invariant
                k <= v.len(),
                i <= k,
                bytes == byte_len(v@.take(i as int)),
                byte_len(v@.take(k as int)) <= max,
            decreases k - i,
        {
            proof {
                lemma_byte_len_mono(v@, i + 1, k as int);
                assert(v@.take(i + 1).drop_last() =~= v@.take(i as int));
            }
            bytes = bytes + utf8_len_exec(v[i]);
            i = i + 1;
        }
        bytes == max
    }
}

/// The byte length of `s`, modulo 2^64 (`s.len()` on any machine).
pub fn byte_len_u64(s: &str) -> (r: u64)
    ensures
        r as int == byte_len(s@) % 0x1_0000_0000_0000_0000,
{
    let v = chars_of(s);
    let mut b: u64 = 0;
    let mut i: usize = 0;
    assert(v@.take(0) =~= Seq::<char>::empty());
    while i < v.len()
        invariant
            i <= v.len(),
            v@ == s@,
            b as int == byte_len(v@.take(i as int)) % 0x1_0000_0000_0000_0000,
        decreases v.len() - i,
    {
        let w = utf8_len_exec(v[i]) as u64;
        assert(v@.take(i + 1).drop_last() =~= v@.take(i as int));
        let ghost x = byte_len(v@.take(i as int)) as int;
        proof {
            vstd::arithmetic::div_mod::lemma_add_mod_noop(x, w as int, 0x1_0000_0000_0000_0000);
            assert((w as int) % 0x1_0000_0000_0000_0000 == w as int);
        }
        b = if b > u64::MAX - w { w - (u64::MAX - b) - 1 } else { b + w };
        i = i + 1;
    }
    assert(v@.take(v.len() as int) =~= v@);
    b
}

pub open spec fn edits_a_path(name: Seq<char>) -> bool {
    name == "write_file"@ || name == "read_file"@ || name == "edit_file"@
}

/// Whether a tool call is shown by its raw arguments (cut to 120 bytes):
/// when the arguments hold no path (file tools) or no items (`todo`), and
/// for every other tool.
pub open spec fn shows_raw(name: Seq<char>, raw: Seq<char>) -> bool {
    if edits_a_path(name) || name == "list_files"@ {
        json_string_field(raw, "path"@) is None
    } else if name == "todo"@ {
        json_array_field_len(raw, "items"@) is None
    } else {
        true
    }
}

/// How a tool call's arguments are shown: the file tools by their path
/// (`write_file` with the byte size of its content), `todo` by its item
/// count, anything else by its arguments cut to 120 bytes.
pub open spec fn tool_command_text(name: Seq<char>, raw: Seq<char>) -> Seq<char> {
    if shows_raw(name, raw) {
        truncated(raw, 120)
    } else if name == "todo"@ {
        dec(json_array_field_len(raw, "items"@).unwrap() as nat) + " items"@
    } else {
        let path = json_string_field(raw, "path"@).unwrap();
        if name == "write_file"@ {
            let size: nat = match json_string_field(raw, "content"@) {
                Some(c) => byte_len(c) % 0x1_0000_0000_0000_0000,
                None => 0,
            };
            path + " ("@ + dec(size) + " bytes)"@
        } else {
            path
        }
    }
}

/// How a tool call's arguments are shown in the transcript.
pub fn format_tool_command(name: &str, raw: &str) -> (r: String)
    requires
        shows_raw(name@, raw@) ==> cuttable_spec(raw@, 120),
    ensures
        r@ == tool_command_text(name@, raw@),
{
    proof {
        reveal_strlit("todo");
        reveal_strlit("list_files");
        reveal_strlit("write_file");
        reveal_strlit("read_file");
        reveal_strlit("edit_file");
        assert("todo"@.len() == 4);
    }
    let n = chars_of(name);
    let file = chars_eq_str(&n, "write_file") || chars_eq_str(&n, "read_file") || chars_eq_str(&n, "edit_file");
    if file || chars_eq_str(&n, "list_files") {
        match json_str_field(raw, "path") {
            Some(path) => {
                if chars_eq_str(&n, "write_file") {
                    let size: u64 = match json_str_field(raw, "content") {
                        Some(c) => byte_len_u64(c.as_str()),
                        None => 0,
                    };
                    let mut s = path;
                    append_str(&mut s, " (");
                    push_u64(&mut s, size);
                    append_str(&mut s, " bytes)");
                    assert(name@ != "todo"@);
                    s
                } else {
                    assert(n@ == "read_file"@ || n@ == "edit_file"@ || n@ == "list_files"@);
                    assert(name@ != "todo"@);
                    path
                }
            },
            None => truncate_display(raw, 120),
        }
    } else if chars_eq_str(&n, "todo") {
        match json_array_len(raw, "items") {
            Some(k) => {
                let mut s = String::new();
                push_u64(&mut s, k as u64);
                append_str(&mut s, " items");
                s
            },
            None => truncate_display(raw, 120),
        }
    } else {
        truncate_display(raw, 120)
    }
}

/// How a tool call's arguments are shown, or `None` where the arguments
/// would have to be cut inside a character.
pub fn tool_command_display(name: &str, raw: &str) -> (r: Option<String>)
    ensures
        match r {
            Some(s) => (shows_raw(name@, raw@) ==> cuttable_spec(raw@, 120)) && s@ == tool_command_text(name@, raw@),
            None => shows_raw(name@, raw@) && !cuttable_spec(raw@, 120),
        },
{
    let n = chars_of(name);
    let file = chars_eq_str(&n, "write_file") || chars_eq_str(&n, "read_file") || chars_eq_str(&n, "edit_file");
    let raw_shown = if file || chars_eq_str(&n, "list_files") {
        json_str_field(raw, "path").is_none()
    } else if chars_eq_str(&n, "todo") {
        json_array_len(raw, "items").is_none()
    } else {
        true
    };
    if raw_shown && !cuttable(raw, 120) {
        None
    } else {
        Some(format_tool_command(name, raw))
    }
}

// ───────────────────────── collapsed previews ─────────────────────────

/// The preview of a collapsed block: its first line cut to `max_len`
/// bytes, with the line count when there is more than one line.
pub open spec fn preview_spec(content: Seq<char>, max_len: nat) -> Seq<char> {
    let ls = lines(content);
    let first = if ls.len() > 0 { ls[0] } else { content };
    let preview = truncated(first, max_len);
    if ls.len() > 1 {
        preview + " ("@ + dec(ls.len()) + " lines)"@
    } else {
        preview
    }
}

pub open spec fn preview_ok(content: Seq<char>, max_len: nat) -> bool {
    let ls = lines(content);
    let first = if ls.len() > 0 { ls[0] } else { content };
    byte_len(first) > max_len ==> is_boundary(first, max_len)
}

pub fn get_collapsed_preview(content: &str, max_len: usize) -> (r: String)
    requires
        preview_ok(content@, max_len as nat),
    ensures
        r@ == preview_spec(content@, max_len as nat),
{
    let v = chars_of(content);
    let ls = split_lines(&v);
    let first = if ls.len() > 0 {
        string_of(&ls[0])
    } else {
        content.to_owned()
    };
    assert(ls.len() > 0 ==> views(ls@)[0] == ls@[0]@);
    let mut preview = truncate_display(first.as_str(), max_len);
    if ls.len() > 1 {
        append_str(&mut preview, " (");
        push_u64(&mut preview, ls.len() as u64);
        append_str(&mut preview, " lines)");
    }
    preview
}

// ───────────────────────── wrapping at display width ─────────────────────────

/// `UnicodeWidthChar::width`: columns taken by a character, `None` for a
/// control character.
pub uninterp spec fn unicode_char_width(c: char) -> Option<usize>;

/// `unicode_width::UnicodeWidthChar::width`: its result is named by
/// `unicode_char_width`; ASCII controls and C1 controls have no width,
/// printable ASCII is one column wide (as the crate's lookup shows).
#[verifier::external_body]
fn char_width(c: char) -> (r: Option<usize>)
    ensures
        r == unicode_char_width(c),
        (c as u32) < 0x20 || (0x7f <= (c as u32) && (c as u32) < 0xa0) ==> r is None,
        0x20 <= (c as u32) && (c as u32) < 0x7f ==> r == Some(1usize),
{
    unicode_width::UnicodeWidthChar::width(c)
}

pub open spec fn col_width(c: char) -> nat {
    match unicode_char_width(c) {
        Some(w) => w as nat,
        None => 0,
    }
}

/// State of `char_wrap` after reading `s`: finished lines, the current
/// line and its width.
pub open spec fn wrap_scan(s: Seq<char>, width: nat) -> (Seq<Seq<char>>, Seq<char>, nat)
    decreases s.len(),
{
    if s.len() == 0 {
        (seq![], seq![], 0)
    } else {
        let (done, cur, w) = wrap_scan(s.drop_last(), width);
        let cw = col_width(s.last());
        if w + cw > width && w > 0 {
            (done.push(cur), seq![s.last()], cw)
        } else {
            (done, cur.push(s.last()), w + cw)
        }
    }
}

/// Lines of `text` broken before a character that would make the line
/// wider than `width` columns (a line always takes at least one
/// character).
pub open spec fn wrap_spec(text: Seq<char>, width: nat) -> Seq<Seq<char>> {
    let (done, cur, _) = wrap_scan(text, width);
    done.push(cur)
}

/// Split text into lines at character display-width boundaries.
pub fn char_wrap(text: &str, width: usize) -> (r: Vec<String>)
    ensures
        crate::text::string_views(r@) == wrap_spec(text@, width as nat),
{
    let v = chars_of(text);
    let mut lines_out: Vec<String> = Vec::new();
    let mut current: Vec<char> = Vec::new();
    let mut current_w: usize = 0;
    let mut i: usize = 0;
    assert(v@.take(0) =~= Seq::<char>::empty());
    assert(crate::text::string_views(lines_out@) =~= Seq::<Seq<char>>::empty());
    while i < v.len()
        invariant
            i <= v.len(),
            (crate::text::string_views(lines_out@), current@, current_w as nat) == wrap_scan(v@.take(i as int), width as nat),
        decreases v.len() - i,
    {
        let ch = v[i];
        assert(v@.take(i + 1).drop_last() =~= v@.take(i as int));
        assert(v@.take(i + 1).last() == ch);
        let ch_w = match char_width(ch) {
            Some(w) => w,
            None => 0,
        };
        if current_w > 0 && (current_w > width || ch_w > width - current_w) {
            let ghost before = crate::text::string_views(lines_out@);
            lines_out.push(string_of(&current));
            assert(crate::text::string_views(lines_out@) =~= before.push(current@));
            current = Vec::new();
            current.push(ch);
            current_w = ch_w;
            assert(current@ =~= seq![ch]);
        } else {
            current.push(ch);
            current_w = current_w + ch_w;
        }
        i = i + 1;
    }
    assert(v@.take(v.len() as int) =~= v@);
    let ghost before = crate::text::string_views(lines_out@);
    lines_out.push(string_of(&current));
    assert(crate::text::string_views(lines_out@) =~= before.push(current@));
    lines_out
}

} // verus!
