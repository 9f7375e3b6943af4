//! The transcript as the terminal shows it: rows of styled text for each
//! entry, the output of a running tool, the waiting indicator, and the
//! answer being streamed with its thinking blocks.
use vstd::prelude::*;
use crate::chat::{App, AppView, ChatEntry, EntrySpec};
use crate::display::{
    byte_len, cuttable, cuttable_spec, format_tool_command, get_collapsed_preview, parse_streaming_think_tags,
    preview_ok, preview_spec, shows_raw, think_parts_view, think_split, tool_command_text, utf8_len, utf8_len_exec,
};
use crate::num::{dec, push_u64};
use crate::text::{append_str, append_str_chars, chars_eq_str, chars_of, lines, split_lines, string_of, trim, views};

verus! {

/// How a piece of a row is drawn.
#[derive(Debug, Clone, Copy, PartialEq, Eq, Structural)]
pub enum Tone {
    /// The `you: ` label.
    User,
    /// The model's label.
    Assistant,
    /// A tool's name.
    ToolName,
    /// An allowed call.
    ToolOk,
    /// A denied call.
    ToolDenied,
    Muted,
    MutedItalic,
    /// The header of a thinking block (bold).
    ThinkingHeader,
    /// The waiting indicator (italic, in the thinking header's color).
    ThinkingWaiting,
    /// Text inside a thinking block (italic).
    ThinkingText,
    /// The border closing a thinking block.
    ThinkingBorder,
    /// The bar beside a thinking block's header (reversed).
    ThinkingBar,
    /// Ordinary text.
    Plain,
}

/// The rows as values.
pub open spec fn rows_view(r: Seq<Vec<(String, Tone)>>) -> Seq<Seq<(Seq<char>, Tone)>> {
    r.map_values(|row: Vec<(String, Tone)>| row@.map_values(|p: (String, Tone)| (p.0@, p.1)))
}

/// One row per line, each the line after `pre`.
pub open spec fn line_rows(ls: Seq<Seq<char>>, pre: Seq<char>, tone: Tone) -> Seq<Seq<(Seq<char>, Tone)>> {
    Seq::new(ls.len(), |i: int| seq![(pre + ls[i], tone)])
}

/// The first line after a label, the others after an indent.
pub open spec fn led_rows(ls: Seq<Seq<char>>, label: Seq<char>, tone: Tone, indent: Seq<char>) -> Seq<Seq<(Seq<char>, Tone)>> {
    Seq::new(
        ls.len(),
        |i: int|
            if i == 0 {
                seq![(label, tone), (ls[0], Tone::Plain)]
            } else {
                seq![(indent + ls[i], Tone::Plain)]
            },
    )
}

/// `n` spaces.
pub open spec fn spaces(n: nat) -> Seq<char> {
    Seq::new(n, |i: int| ' ')
}

pub open spec fn blank() -> Seq<Seq<(Seq<char>, Tone)>> {
    seq![seq![]]
}

/// The status of a tool call: a tick when allowed, a cross when denied,
/// an hourglass otherwise.
pub open spec fn status_piece(status: Seq<char>) -> (Seq<char>, Tone) {
    if status == "allowed"@ || status == "ok"@ {
        ("\u{2713} "@ + status, Tone::ToolOk)
    } else if status == "denied"@ {
        ("\u{2717} "@ + status, Tone::ToolDenied)
    } else {
        ("\u{23f3} "@ + status, Tone::Muted)
    }
}

/// A tool's output: at most 30 lines, then how many more there are.
pub open spec fn output_rows(text: Seq<char>) -> Seq<Seq<(Seq<char>, Tone)>> {
    let ls = lines(text);
    if ls.len() > 30 {
        line_rows(ls.take(30), "  "@, Tone::Muted).push(
            seq![("  ... ("@ + dec((ls.len() - 30) as nat) + " more lines)"@, Tone::MutedItalic)],
        )
    } else {
        line_rows(ls, "  "@, Tone::Muted)
    }
}

pub open spec fn block_end() -> Seq<char> {
    "  \u{2514}\u{2500}\u{2500}"@
}

/// A finished thinking block: its header with `[+]` (collapsed) or `[-]`,
/// then a preview of its first line or all its lines, then its border.
pub open spec fn thinking_rows(content: Seq<char>, collapsed: bool) -> Seq<Seq<(Seq<char>, Tone)>> {
    seq![
        seq![
            ("Reasoning "@ + (if collapsed { "[+]"@ } else { "[-]"@ }) + " "@, Tone::ThinkingHeader),
            ("\u{2500}"@, Tone::ThinkingBar),
        ],
    ] + (if collapsed {
        seq![seq![("  \u{2026} "@ + preview_spec(content, 60), Tone::MutedItalic)]]
    } else {
        line_rows(lines(content), "  \u{2502} "@, Tone::ThinkingText)
    }) + seq![seq![(block_end(), Tone::ThinkingBorder)]] + blank()
}

/// The label of the model's lines.
pub open spec fn model_label(model: Seq<char>) -> Seq<char> {
    model + ": "@
}

/// The rows of one entry (thinking blocks only when shown).
pub open spec fn entry_rows(e: EntrySpec, model: Seq<char>, show_thinking: bool) -> Seq<Seq<(Seq<char>, Tone)>> {
    match e {
        EntrySpec::User(t) => led_rows(lines(t), "you: "@, Tone::User, "      "@) + blank(),
        EntrySpec::Assistant(t) => led_rows(
            lines(t),
            model_label(model),
            Tone::Assistant,
            spaces(byte_len(model_label(model))),
        ) + blank(),
        EntrySpec::ToolCall { name, command, status } => seq![
            seq![("\u{2699} "@ + name + " "@, Tone::ToolName), status_piece(status)],
        ] + line_rows(lines(tool_command_text(name, command)), "  "@, Tone::Muted),
        EntrySpec::ToolOutput(t) => output_rows(t) + blank(),
        EntrySpec::Thinking { content, collapsed } => if show_thinking {
            thinking_rows(content, collapsed)
        } else {
            seq![]
        },
        EntrySpec::System(t) => line_rows(lines(t), seq![], Tone::MutedItalic) + blank(),
        EntrySpec::SubagentOutput { index, text } => Seq::new(
            lines(text).len(),
            |i: int| seq![("[agent-"@ + dec(index as nat) + "] "@, Tone::Muted), (lines(text)[i], Tone::Plain)],
        ),
    }
}

pub open spec fn entries_rows(es: Seq<EntrySpec>, model: Seq<char>, show_thinking: bool) -> Seq<Seq<(Seq<char>, Tone)>>
    decreases es.len(),
{
    if es.len() == 0 {
        seq![]
    } else {
        entries_rows(es.drop_last(), model, show_thinking) + entry_rows(es.last(), model, show_thinking)
    }
}

/// An entry can be drawn: a tool call whose arguments are shown raw can
/// be cut at 120 bytes, a collapsed thinking block that is shown has a
/// first line that can be cut at 60.
pub open spec fn entry_ok(e: EntrySpec, show_thinking: bool) -> bool {
    match e {
        EntrySpec::ToolCall { name, command, .. } => shows_raw(name, command) ==> cuttable_spec(command, 120),
        EntrySpec::Thinking { content, collapsed } => show_thinking && collapsed ==> preview_ok(content, 60),
        _ => true,
    }
}

pub open spec fn transcript_ok(v: AppView) -> bool {
    forall|i: int| 0 <= i < v.messages.len() ==> entry_ok(#[trigger] v.messages[i], v.show_thinking)
}

/// The dots of the waiting indicator, by animation step.
pub open spec fn dots(k: u8) -> Seq<char> {
    if k % 4 == 0 {
        "\u{2022}"@
    } else if k % 4 == 1 {
        "\u{2022}\u{2022}"@
    } else if k % 4 == 2 {
        "\u{2022}\u{2022}\u{2022}"@
    } else {
        "\u{2022}\u{2022}"@
    }
}

/// A block of the answer being streamed: its header (`[-]` once closed,
/// `...` while open), its lines, and its border once closed.
pub open spec fn part_rows(p: (Seq<char>, bool)) -> Seq<Seq<(Seq<char>, Tone)>> {
    seq![seq![("Reasoning "@ + (if p.1 { "[-]"@ } else { "..."@ }) + " \u{2500}"@, Tone::ThinkingHeader)]]
        + line_rows(lines(p.0), "  \u{2502} "@, Tone::ThinkingText) + if p.1 {
        seq![seq![(block_end(), Tone::ThinkingBorder)]]
    } else {
        seq![]
    }
}

pub open spec fn parts_rows(ps: Seq<(Seq<char>, bool)>) -> Seq<Seq<(Seq<char>, Tone)>>
    decreases ps.len(),
{
    if ps.len() == 0 {
        seq![]
    } else {
        parts_rows(ps.drop_last()) + part_rows(ps.last())
    }
}

/// The answer being streamed: its thinking blocks (when shown), then its
/// text when it is not blank.
pub open spec fn streaming_rows(v: AppView) -> Seq<Seq<(Seq<char>, Tone)>> {
    if v.streaming_buffer.len() == 0 {
        seq![]
    } else {
        let (ps, text) = think_split(v.streaming_buffer);
        let label = model_label(v.active_model);
        (if v.show_thinking { parts_rows(ps) } else { seq![] }) + if trim(text).len() > 0 {
            led_rows(lines(text), label, Tone::Assistant, spaces(byte_len(label)))
        } else {
            seq![]
        }
    }
}

/// The whole transcript: the entries, the output of the tool that runs,
/// the waiting indicator before the first token, and the streamed answer.
pub open spec fn transcript_spec(v: AppView) -> Seq<Seq<(Seq<char>, Tone)>> {
    entries_rows(v.messages, v.active_model, v.show_thinking) + line_rows(
        lines(v.tool_output_buffer),
        seq![],
        Tone::Muted,
    ) + (if v.waiting_for_response && v.streaming_buffer.len() == 0 {
        seq![seq![("Thinking "@ + dots(v.anim_frame), Tone::ThinkingWaiting)]]
    } else {
        seq![]
    }) + streaming_rows(v)
}

// ───────────────────────── building rows ─────────────────────────

fn piece(text: String, tone: Tone) -> (r: Vec<(String, Tone)>)
    ensures
        r@.map_values(|p: (String, Tone)| (p.0@, p.1)) == seq![(text@, tone)],
{
    let r = vec![(text, tone)];
    assert(r@.map_values(|p: (String, Tone)| (p.0@, p.1)) =~= seq![(text@, tone)]);
    r
}

fn concat_str(a: &str, b: &Vec<char>) -> (r: String)
    ensures
        r@ == a@ + b@,
{
    let mut s = a.to_owned();
    append_str_chars(&mut s, b);
    s
}

/// Appends `line_rows(ls[..n], pre, tone)`.
fn push_line_rows(out: &mut Vec<Vec<(String, Tone)>>, ls: &Vec<Vec<char>>, n: usize, pre: &str, tone: Tone)
    requires
        n <= ls.len(),
    ensures
        rows_view(final(out)@) == rows_view(old(out)@) + line_rows(views(ls@).take(n as int), pre@, tone),
{
    let ghost start = rows_view(out@);
    let mut i: usize = 0;
    assert(line_rows(views(ls@).take(0), pre@, tone) =~= Seq::<Seq<(Seq<char>, Tone)>>::empty());
    assert(start + Seq::<Seq<(Seq<char>, Tone)>>::empty() =~= start);
    while i < n
        invariant
            i <= n <= ls.len(),
            rows_view(out@) == start + line_rows(views(ls@).take(i as int), pre@, tone),
        decreases n - i,
    {
        let row = piece(concat_str(pre, &ls[i]), tone);
        let ghost before = rows_view(out@);
        out.push(row);
        assert(rows_view(out@) =~= before.push(seq![(pre@ + ls@[i as int]@, tone)]));
        assert(line_rows(views(ls@).take(i + 1), pre@, tone) =~= line_rows(views(ls@).take(i as int), pre@, tone).push(
            seq![(pre@ + ls@[i as int]@, tone)],
        ));
        i = i + 1;
    }
}

/// Appends `led_rows(ls, label, tone, indent)`.
fn push_led_rows(out: &mut Vec<Vec<(String, Tone)>>, ls: &Vec<Vec<char>>, label: &str, tone: Tone, indent: &str)
    ensures
        rows_view(final(out)@) == rows_view(old(out)@) + led_rows(views(ls@), label@, tone, indent@),
{
    let ghost start = rows_view(out@);
    let ghost lv = views(ls@);
    let mut i: usize = 0;
    assert(start + Seq::<Seq<(Seq<char>, Tone)>>::empty() =~= start);
    assert(led_rows(lv.take(0), label@, tone, indent@) =~= Seq::<Seq<(Seq<char>, Tone)>>::empty());
    while i < ls.len()
        invariant
            i <= ls.len(),
            lv == views(ls@),
            rows_view(out@) == start + led_rows(lv.take(i as int), label@, tone, indent@),
        decreases ls.len() - i,
    {
        let ghost before = rows_view(out@);
        let ghost row_v = if i == 0 {
            seq![(label@, tone), (lv[0], Tone::Plain)]
        } else {
            seq![(indent@ + lv[i as int], Tone::Plain)]
        };
        let row = if i == 0 {
            let r = vec![(label.to_owned(), tone), (string_of(&ls[0]), Tone::Plain)];
            assert(r@.map_values(|p: (String, Tone)| (p.0@, p.1)) =~= row_v);
            r
        } else {
            piece(concat_str(indent, &ls[i]), Tone::Plain)
        };
        out.push(row);
        assert(rows_view(out@) =~= before.push(row_v));
        assert(led_rows(lv.take(i + 1), label@, tone, indent@) =~= led_rows(lv.take(i as int), label@, tone, indent@).push(row_v));
        i = i + 1;
    }
    assert(lv.take(ls.len() as int) =~= lv);
}

fn push_blank(out: &mut Vec<Vec<(String, Tone)>>)
    ensures
        rows_view(final(out)@) == rows_view(old(out)@) + blank(),
{
    let ghost before = rows_view(out@);
    let row: Vec<(String, Tone)> = Vec::new();
    out.push(row);
    assert(row@.map_values(|p: (String, Tone)| (p.0@, p.1)) =~= Seq::<(Seq<char>, Tone)>::empty());
    assert(rows_view(out@) =~= before + blank());
}

fn push_row(out: &mut Vec<Vec<(String, Tone)>>, row: Vec<(String, Tone)>)
    ensures
        rows_view(final(out)@) == rows_view(old(out)@).push(row@.map_values(|p: (String, Tone)| (p.0@, p.1))),
{
    let ghost before = rows_view(out@);
    let ghost rv = row@.map_values(|p: (String, Tone)| (p.0@, p.1));
    out.push(row);
    assert(rows_view(out@) =~= before.push(rv));
}

fn lines_of(s: &str) -> (r: Vec<Vec<char>>)
    ensures
        views(r@) == lines(s@),
{
    let v = chars_of(s);
    split_lines(&v)
}

/// `n` spaces for each byte of `s`.
fn indent_for(s: &str) -> (r: String)
    ensures
        r@ == spaces(byte_len(s@)),
{
    let v = chars_of(s);
    let mut out = String::new();
    let mut i: usize = 0;
    assert(v@.take(0) =~= Seq::<char>::empty());
    assert(out@ =~= spaces(0));
    while i < v.len()
        invariant
            i <= v.len(),
            v@ == s@,
            out@ == spaces(byte_len(v@.take(i as int))),
        decreases v.len() - i,
    {
        let w = utf8_len_exec(v[i]);
        assert(v@.take(i + 1).drop_last() =~= v@.take(i as int));
        let ghost before = out@;
        let mut k: usize = 0;
        while k < w
            invariant
                k <= w <= 4,
                out@ == before + spaces(k as nat),
            decreases w - k,
        {
            crate::text::push_char(&mut out, ' ');
            assert(before + spaces(k as nat) + seq![' '] =~= before + spaces((k + 1) as nat));
            k = k + 1;
        }
        assert(before + spaces(w as nat) =~= spaces(byte_len(v@.take(i + 1))));
        i = i + 1;
    }
    assert(v@.take(v.len() as int) =~= v@);
    out
}

fn status_row(name: &str, status: &str) -> (r: Vec<(String, Tone)>)
    ensures
        r@.map_values(|p: (String, Tone)| (p.0@, p.1)) == seq![("\u{2699} "@ + name@ + " "@, Tone::ToolName), status_piece(status@)],
{
    let mut head = "\u{2699} ".to_owned();
    append_str(&mut head, name);
    append_str(&mut head, " ");
    let st = chars_of(status);
    let (mark, tone) = if chars_eq_str(&st, "allowed") || chars_eq_str(&st, "ok") {
        ("\u{2713} ", Tone::ToolOk)
    } else if chars_eq_str(&st, "denied") {
        ("\u{2717} ", Tone::ToolDenied)
    } else {
        ("\u{23f3} ", Tone::Muted)
    };
    let mut tail = mark.to_owned();
    append_str(&mut tail, status);
    let r = vec![(head, Tone::ToolName), (tail, tone)];
    assert(r@.map_values(|p: (String, Tone)| (p.0@, p.1)) =~= seq![
        ("\u{2699} "@ + name@ + " "@, Tone::ToolName),
        status_piece(status@),
    ]);
    r
}

/// Appends the rows of an entry.
fn push_entry(out: &mut Vec<Vec<(String, Tone)>>, e: &ChatEntry, model: &str, show_thinking: bool)
    requires
        entry_ok(e.view(), show_thinking),
    ensures
        rows_view(final(out)@) == rows_view(old(out)@) + entry_rows(e.view(), model@, show_thinking),
{
    let ghost start = rows_view(out@);
    match e {
        ChatEntry::User(t) => {
            let ls = lines_of(t.as_str());
            push_led_rows(out, &ls, "you: ", Tone::User, "      ");
            push_blank(out);
            assert(rows_view(out@) =~= start + entry_rows(e.view(), model@, show_thinking));
        },
        ChatEntry::Assistant(t) => {
            let ls = lines_of(t.as_str());
            let mut label = model.to_owned();
            append_str(&mut label, ": ");
            let indent = indent_for(label.as_str());
            push_led_rows(out, &ls, label.as_str(), Tone::Assistant, indent.as_str());
            push_blank(out);
            assert(rows_view(out@) =~= start + entry_rows(e.view(), model@, show_thinking));
        },
        ChatEntry::ToolCall { name, command, status } => {
            push_row(out, status_row(name.as_str(), status.as_str()));
            let display = format_tool_command(name.as_str(), command.as_str());
            let ls = lines_of(display.as_str());
            push_line_rows(out, &ls, ls.len(), "  ", Tone::Muted);
            assert(views(ls@).take(ls.len() as int) =~= views(ls@));
            assert(rows_view(out@) =~= start + entry_rows(e.view(), model@, show_thinking));
        },
        ChatEntry::ToolOutput(t) => {
            let ls = lines_of(t.as_str());
            if ls.len() > 30 {
                push_line_rows(out, &ls, 30, "  ", Tone::Muted);
                let mut more = "  ... (".to_owned();
                push_u64(&mut more, (ls.len() - 30) as u64);
                append_str(&mut more, " more lines)");
                push_row(out, piece(more, Tone::MutedItalic));
            } else {
                push_line_rows(out, &ls, ls.len(), "  ", Tone::Muted);
                assert(views(ls@).take(ls.len() as int) =~= views(ls@));
            }
            push_blank(out);
            assert(rows_view(out@) =~= start + entry_rows(e.view(), model@, show_thinking));
        },
        ChatEntry::Thinking { content, collapsed } => {
            if show_thinking {
                let mut head = "Reasoning ".to_owned();
                append_str(&mut head, if *collapsed { "[+]" } else { "[-]" });
                append_str(&mut head, " ");
                let ghost hv = head@;
                let r = vec![(head, Tone::ThinkingHeader), ("\u{2500}".to_owned(), Tone::ThinkingBar)];
                assert(r@.map_values(|p: (String, Tone)| (p.0@, p.1)) =~= seq![
                    (hv, Tone::ThinkingHeader),
                    ("\u{2500}"@, Tone::ThinkingBar),
                ]);
                push_row(out, r);
                if *collapsed {
                    let preview = get_collapsed_preview(content.as_str(), 60);
                    let mut p = "  \u{2026} ".to_owned();
                    append_str(&mut p, preview.as_str());
                    push_row(out, piece(p, Tone::MutedItalic));
                } else {
                    let ls = lines_of(content.as_str());
                    push_line_rows(out, &ls, ls.len(), "  \u{2502} ", Tone::ThinkingText);
                    assert(views(ls@).take(ls.len() as int) =~= views(ls@));
                }
                push_row(out, piece("  \u{2514}\u{2500}\u{2500}".to_owned(), Tone::ThinkingBorder));
                push_blank(out);
            assert(rows_view(out@) =~= start + entry_rows(e.view(), model@, show_thinking));
            }
        },
        ChatEntry::System(t) => {
            let ls = lines_of(t.as_str());
            proof {
                reveal_strlit("");
            }
            push_line_rows(out, &ls, ls.len(), "", Tone::MutedItalic);
            assert(views(ls@).take(ls.len() as int) =~= views(ls@));
            push_blank(out);
            assert(rows_view(out@) =~= start + entry_rows(e.view(), model@, show_thinking));
        },
        ChatEntry::SubagentOutput { index, text } => {
            let ls = lines_of(text.as_str());
            let mut label = "[agent-".to_owned();
            push_u64(&mut label, *index as u64);
            append_str(&mut label, "] ");
            let ghost lv = views(ls@);
            let ghost base = rows_view(out@);
            let mut i: usize = 0;
            while i < ls.len()
                invariant
                    i <= ls.len(),
                    lv == views(ls@),
                    rows_view(out@) == base + Seq::new(
                        i as nat,
                        |j: int| seq![(label@, Tone::Muted), (lv[j], Tone::Plain)],
                    ),
                decreases ls.len() - i,
            {
                let ghost before = rows_view(out@);
                let r = vec![(label.as_str().to_owned(), Tone::Muted), (string_of(&ls[i]), Tone::Plain)];
                assert(r@.map_values(|p: (String, Tone)| (p.0@, p.1)) =~= seq![(label@, Tone::Muted), (lv[i as int], Tone::Plain)]);
                push_row(out, r);
                assert(Seq::new((i + 1) as nat, |j: int| seq![(label@, Tone::Muted), (lv[j], Tone::Plain)])
                    =~= Seq::new(i as nat, |j: int| seq![(label@, Tone::Muted), (lv[j], Tone::Plain)]).push(
                    seq![(label@, Tone::Muted), (lv[i as int], Tone::Plain)],
                ));
                i = i + 1;
            }
            assert(rows_view(out@) =~= start + entry_rows(e.view(), model@, show_thinking));
        },
    }
    proof {
        reveal_strlit("  ... (");
    }
    assert(rows_view(out@) =~= start + entry_rows(e.view(), model@, show_thinking));
}


fn preview_fits(content: &str) -> (r: bool)
    ensures
        r == preview_ok(content@, 60),
{
    let ls = lines_of(content);
    if ls.len() > 0 {
        let f = string_of(&ls[0]);
        cuttable(f.as_str(), 60)
    } else {
        cuttable(content, 60)
    }
}

fn entry_fits(e: &ChatEntry, show_thinking: bool) -> (r: bool)
    ensures
        r == entry_ok(e.view(), show_thinking),
{
    match e {
        ChatEntry::ToolCall { name, command, .. } => {
            crate::display::tool_command_display(name.as_str(), command.as_str()).is_some()
        },
        ChatEntry::Thinking { content, collapsed } => !(show_thinking && *collapsed) || preview_fits(content.as_str()),
        _ => true,
    }
}

/// Appends the rows of a block of the streamed answer.
fn push_part(out: &mut Vec<Vec<(String, Tone)>>, content: &str, closed: bool)
    ensures
        rows_view(final(out)@) == rows_view(old(out)@) + part_rows((content@, closed)),
{
    let ghost start = rows_view(out@);
    let mut head = "Reasoning ".to_owned();
    append_str(&mut head, if closed { "[-]" } else { "..." });
    append_str(&mut head, " \u{2500}");
    push_row(out, piece(head, Tone::ThinkingHeader));
    let ls = lines_of(content);
    push_line_rows(out, &ls, ls.len(), "  \u{2502} ", Tone::ThinkingText);
    assert(views(ls@).take(ls.len() as int) =~= views(ls@));
    if closed {
        push_row(out, piece("  \u{2514}\u{2500}\u{2500}".to_owned(), Tone::ThinkingBorder));
    }
    assert(rows_view(out@) =~= start + part_rows((content@, closed)));
}

/// Appends the rows of the answer being streamed.
fn push_streaming(out: &mut Vec<Vec<(String, Tone)>>, app: &App)
    ensures
        rows_view(final(out)@) == rows_view(old(out)@) + streaming_rows(app@),
{
    let ghost start = rows_view(out@);
    if app.streaming_buffer.as_str().is_empty() {
        assert(start + Seq::<Seq<(Seq<char>, Tone)>>::empty() =~= start);
        return;
    }
    let (parts, text) = parse_streaming_think_tags(app.streaming_buffer.as_str());
    let ghost pv = think_parts_view(parts@);
    if app.show_thinking {
        let mut i: usize = 0;
        assert(pv.take(0) =~= Seq::<(Seq<char>, bool)>::empty());
        assert(start + Seq::<Seq<(Seq<char>, Tone)>>::empty() =~= start);
        while i < parts.len()
            invariant
                i <= parts.len(),
                pv == think_parts_view(parts@),
                rows_view(out@) == start + parts_rows(pv.take(i as int)),
            decreases parts.len() - i,
        {
            assert(pv.take(i + 1).drop_last() =~= pv.take(i as int));
            assert(pv.take(i + 1).last() == (parts@[i as int].0@, parts@[i as int].1));
            push_part(out, parts[i].0.as_str(), parts[i].1);
            i = i + 1;
        }
        assert(pv.take(parts.len() as int) =~= pv);
    } else {
        assert(start + Seq::<Seq<(Seq<char>, Tone)>>::empty() =~= start);
    }
    let ghost mid = rows_view(out@);
    if !crate::text::is_blank(text.as_str()) {
        let mut label = app.active_model.as_str().to_owned();
        append_str(&mut label, ": ");
        let indent = indent_for(label.as_str());
        let ls = lines_of(text.as_str());
        push_led_rows(out, &ls, label.as_str(), Tone::Assistant, indent.as_str());
    } else {
        assert(mid + Seq::<Seq<(Seq<char>, Tone)>>::empty() =~= mid);
    }
    assert(rows_view(out@) =~= start + streaming_rows(app@));
}

/// The transcript's rows, or `None` when an entry cannot be drawn (a tool
/// call's arguments or a collapsed block's first line would be cut inside
/// a character).
pub fn transcript(app: &App) -> (r: Option<Vec<Vec<(String, Tone)>>>)
    ensures
        r is Some <==> transcript_ok(app@),
        r matches Some(rows) ==> rows_view(rows@) == transcript_spec(app@),
{
    let ghost es = app@.messages;
    let mut out: Vec<Vec<(String, Tone)>> = Vec::new();
    let mut i: usize = 0;
    assert(es.take(0) =~= Seq::<EntrySpec>::empty());
    assert(rows_view(out@) =~= Seq::<Seq<(Seq<char>, Tone)>>::empty());
    while i < app.messages.len()
        invariant
            i <= app.messages.len(),
            es == app@.messages,
            es == crate::chat::entry_views(app.messages@),
            forall|j: int| 0 <= j < i ==> entry_ok(#[trigger] es[j], app.show_thinking),
            rows_view(out@) == entries_rows(es.take(i as int), app.active_model@, app.show_thinking),
        decreases app.messages.len() - i,
    {
        assert(es[i as int] == app.messages@[i as int].view());
        if !entry_fits(&app.messages[i], app.show_thinking) {
            assert(!entry_ok(es[i as int], app@.show_thinking));
            return None;
        }
        assert(es.take(i + 1).drop_last() =~= es.take(i as int));
        assert(es.take(i + 1).last() == es[i as int]);
        push_entry(&mut out, &app.messages[i], app.active_model.as_str(), app.show_thinking);
        i = i + 1;
    }
    assert(es.take(app.messages.len() as int) =~= es);
    let ghost after_entries = rows_view(out@);
    let ls = lines_of(app.tool_output_buffer.as_str());
    proof {
        reveal_strlit("");
    }
    push_line_rows(&mut out, &ls, ls.len(), "", Tone::Muted);
    assert(views(ls@).take(ls.len() as int) =~= views(ls@));
    let ghost after_output = rows_view(out@);
    if app.waiting_for_response && app.streaming_buffer.as_str().is_empty() {
        let k = app.anim_frame % 4;
        let dots_text = if k == 0 {
            "\u{2022}"
        } else if k == 1 {
            "\u{2022}\u{2022}"
        } else if k == 2 {
            "\u{2022}\u{2022}\u{2022}"
        } else {
            "\u{2022}\u{2022}"
        };
        let mut w = "Thinking ".to_owned();
        append_str(&mut w, dots_text);
        push_row(&mut out, piece(w, Tone::ThinkingWaiting));
    } else {
        assert(after_output + Seq::<Seq<(Seq<char>, Tone)>>::empty() =~= after_output);
    }
    push_streaming(&mut out, app);
    assert(rows_view(out@) =~= transcript_spec(app@));
    Some(out)
}

} // verus!
