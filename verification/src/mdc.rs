//! Cursor rule files (`.cursor/rules/*.mdc`): which rules apply.
use vstd::prelude::*;
use crate::permissions::{split_on, split_on_exec, split_scan};
use crate::skills::{mdc_frontmatter_spec, parse_mdc_frontmatter};
use crate::text::{
    chars_of, find, lines, slice_of, split_lines, starts_with, starts_with_str, string_of, trim,
    trim_chars, trim_matches, trim_matches_exec, views,
};
use crate::text::{is_ws, line_scan, strip_cr, trim_char_end, trim_char_start, trim_end, trim_start};

verus! {

/// An inline glob after cleaning: trimmed, quotes removed, trimmed again.
pub open spec fn clean_inline(g: Seq<char>) -> Seq<char> {
    trim(trim_matches(trim_matches(trim(g), '"'), '\''))
}

/// A list item after cleaning: trimmed and quotes removed.
pub open spec fn clean_item(g: Seq<char>) -> Seq<char> {
    trim_matches(trim_matches(trim(g), '"'), '\'')
}

/// The non-empty cleaned pieces of a comma-separated list.
pub open spec fn inline_globs(parts: Seq<Seq<char>>) -> Seq<Seq<char>>
    decreases parts.len(),
{
    if parts.len() == 0 {
        seq![]
    } else {
        let pre = inline_globs(parts.drop_last());
        let g = clean_inline(parts.last());
        if g.len() > 0 {
            pre.push(g)
        } else {
            pre
        }
    }
}

/// Reading one frontmatter line: a `globs:` line either lists globs
/// inline or opens a list; list items (`- x`) are taken until a line that
/// is neither blank nor a `#` comment.
pub open spec fn glob_step(st: (Seq<Seq<char>>, bool), line: Seq<char>) -> (Seq<Seq<char>>, bool) {
    let (globs, in_globs) = st;
    let t = trim(line);
    if starts_with(t, "globs:"@) {
        let rest = trim(t.skip(6));
        if rest.len() > 0 {
            (globs + inline_globs(split_on(rest, ',')), false)
        } else {
            (globs, true)
        }
    } else if in_globs {
        if starts_with(t, "- "@) {
            let item = clean_item(t.skip(2));
            if item.len() > 0 {
                (globs.push(item), true)
            } else {
                (globs, true)
            }
        } else if t.len() > 0 && t[0] != '#' {
            (globs, false)
        } else {
            (globs, true)
        }
    } else {
        (globs, in_globs)
    }
}

pub open spec fn glob_scan(ls: Seq<Seq<char>>) -> (Seq<Seq<char>>, bool)
    decreases ls.len(),
{
    if ls.len() == 0 {
        (seq![], false)
    } else {
        glob_step(glob_scan(ls.drop_last()), ls.last())
    }
}

/// The glob patterns of a frontmatter.
pub open spec fn globs_spec(frontmatter: Seq<char>) -> Seq<Seq<char>> {
    glob_scan(lines(frontmatter)).0
}

fn inline_globs_exec(rest: &Vec<char>) -> (r: Vec<String>)
    ensures
        crate::text::string_views(r@) == inline_globs(split_on(rest@, ',')),
{
    let parts = split_on_exec(rest, ',');
    let ghost ps = views(parts@);
    let mut out: Vec<String> = Vec::new();
    let mut i: usize = 0;
    assert(ps.take(0) =~= Seq::<Seq<char>>::empty());
    assert(crate::text::string_views(out@) =~= Seq::<Seq<char>>::empty());
    while i < parts.len()
        invariant
            i <= parts.len(),
            ps == views(parts@),
            crate::text::string_views(out@) == inline_globs(ps.take(i as int)),
        decreases parts.len() - i,
    {
        assert(ps.take(i + 1).drop_last() =~= ps.take(i as int));
        assert(ps.take(i + 1).last() == parts@[i as int]@);
        let a = trim_chars(&parts[i]);
        let b = trim_matches_exec(&a, '"');
        let c = trim_matches_exec(&b, '\'');
        let g = trim_chars(&c);
        if g.len() > 0 {
            let ghost before = crate::text::string_views(out@);
            out.push(string_of(&g));
            assert(crate::text::string_views(out@) =~= before.push(g@));
        }
        i = i + 1;
    }
    assert(ps.take(parts.len() as int) =~= ps);
    out
}

/// Extract glob patterns from MDC frontmatter, written inline
/// (`globs: "*.rs", "*.ts"`) or as a `-` list under `globs:`.
pub fn extract_mdc_globs(frontmatter: &str) -> (r: Vec<String>)
    ensures
        crate::text::string_views(r@) == globs_spec(frontmatter@),
{
    let fm = chars_of(frontmatter);
    let ls = split_lines(&fm);
    let ghost lv = views(ls@);
    let mut globs: Vec<String> = Vec::new();
    let mut in_globs = false;
    let mut i: usize = 0;
    assert(lv.take(0) =~= Seq::<Seq<char>>::empty());
    assert(crate::text::string_views(globs@) =~= Seq::<Seq<char>>::empty());
    while i < ls.len()
        invariant
            i <= ls.len(),
            lv == views(ls@),
            (crate::text::string_views(globs@), in_globs) == glob_scan(lv.take(i as int)),
        decreases ls.len() - i,
    {
        assert(lv.take(i + 1).drop_last() =~= lv.take(i as int));
        assert(lv.take(i + 1).last() == ls@[i as int]@);
        let ghost before = crate::text::string_views(globs@);
        let t = trim_chars(&ls[i]);
        if starts_with_str(&t, "globs:") {
            proof {
                reveal_strlit("globs:");
            }
            let r0 = slice_of(&t, 6, t.len());
            assert(r0@ =~= t@.skip(6));
            let rest = trim_chars(&r0);
            if rest.len() > 0 {
                let more = inline_globs_exec(&rest);
                let mut k: usize = 0;
                while k < more.len()
                    invariant
                        k <= more.len(),
                        crate::text::string_views(globs@) == before + crate::text::string_views(more@).take(k as int),
                    decreases more.len() - k,
                {
                    let g = crate::text::string_of(&chars_of(more[k].as_str()));
                    let ghost gb = crate::text::string_views(globs@);
                    globs.push(g);
                    assert(crate::text::string_views(globs@) =~= gb.push(more@[k as int]@));
                    assert(crate::text::string_views(more@).take(k + 1) =~= crate::text::string_views(more@).take(k as int).push(more@[k as int]@));
                    k = k + 1;
                    assert(crate::text::string_views(globs@) =~= before + crate::text::string_views(more@).take(k as int));
                }
                assert(crate::text::string_views(more@).take(more.len() as int) =~= crate::text::string_views(more@));
                in_globs = false;
            } else {
                in_globs = true;
            }
        } else if in_globs {
            if starts_with_str(&t, "- ") {
                proof {
                    reveal_strlit("- ");
                }
                let r0 = slice_of(&t, 2, t.len());
                assert(r0@ =~= t@.skip(2));
                let a = trim_chars(&r0);
                let b = trim_matches_exec(&a, '"');
                let c = trim_matches_exec(&b, '\'');
                if c.len() > 0 {
                    globs.push(string_of(&c));
                    assert(crate::text::string_views(globs@) =~= before.push(c@));
                }
            } else if t.len() > 0 && t[0] != '#' {
                in_globs = false;
            }
        }
        i = i + 1;
    }
    assert(lv.take(ls.len() as int) =~= lv);
    globs
}

/// Some frontmatter line, trimmed, starts with `alwaysApply:` and the line
/// mentions `true`.
pub open spec fn always_apply_spec(frontmatter: Seq<char>) -> bool {
    exists|i: int|
        0 <= i < lines(frontmatter).len() && starts_with(trim(#[trigger] lines(frontmatter)[i]), "alwaysApply:"@)
            && find(lines(frontmatter)[i], "true"@) is Some
}

/// Whether a rule's frontmatter asks for it to be always applied.
pub fn mdc_always_apply(frontmatter: &str) -> (r: bool)
    ensures
        r == always_apply_spec(frontmatter@),
{
    let fm = chars_of(frontmatter);
    let ls = split_lines(&fm);
    let ghost lv = views(ls@);
    let tr = chars_of("true");
    let mut i: usize = 0;
    while i < ls.len()
        invariant
            i <= ls.len(),
            lv == views(ls@),
            lv == lines(frontmatter@),
            tr@ == "true"@,
            forall|k: int| 0 <= k < i ==> !(starts_with(trim(#[trigger] lv[k]), "alwaysApply:"@) && find(lv[k], "true"@) is Some),
        decreases ls.len() - i,
    {
        let t = trim_chars(&ls[i]);
        if starts_with_str(&t, "alwaysApply:") && crate::text::find_exec(&ls[i], &tr).is_some() {
            assert(starts_with(trim(lv[i as int]), "alwaysApply:"@) && find(lv[i as int], "true"@) is Some);
            return true;
        }
        i = i + 1;
    }
    false
}

/// What to do with one rule file.
pub enum MdcRule {
    /// Not used: unclosed frontmatter, empty body, or a manual-only rule.
    Skip,
    /// Always included.
    Always(String),
    /// Included when the project has a file matching one of the globs.
    IfAnyMatch(String, Vec<String>),
}

/// Decides how a Cursor rule file is used. Rules with `alwaysApply:
/// true` are always included; rules with globs only when project files
/// match them; the others (manual-trigger only) are skipped.
pub fn classify_mdc_rule(raw: &str) -> (r: MdcRule)
    ensures
        match mdc_frontmatter_spec(raw@) {
            None => r is Skip,
            Some((fm, content)) => if trim(content).len() == 0 {
                r is Skip
            } else if always_apply_spec(fm) {
                r matches MdcRule::Always(c) && c@ == content
            } else if globs_spec(fm).len() == 0 {
                r is Skip
            } else {
                r matches MdcRule::IfAnyMatch(c, gs) && c@ == content && crate::text::string_views(gs@)
                    == globs_spec(fm)
            },
        },
{
    match parse_mdc_frontmatter(raw) {
        None => MdcRule::Skip,
        Some((fm, content)) => {
            let cv = chars_of(content.as_str());
            let ct = trim_chars(&cv);
            if ct.len() == 0 {
                return MdcRule::Skip;
            }
            if mdc_always_apply(fm.as_str()) {
                return MdcRule::Always(content);
            }
            let globs = extract_mdc_globs(fm.as_str());
            if globs.len() == 0 {
                MdcRule::Skip
            } else {
                MdcRule::IfAnyMatch(content, globs)
            }
        },
    }
}

/// A glob that is already bare: not empty, and neither whitespace nor a
/// quote at either end.
pub open spec fn bare_glob(g: Seq<char>) -> bool {
    &&& g.len() > 0
    &&& !is_ws(g[0]) && !is_ws(g.last())
    &&& g[0] != '"' && g[0] != '\''
    &&& g.last() != '"' && g.last() != '\''
}

/// A bare glob in quotes loses exactly its quotes when cleaned.
proof fn lemma_clean_quoted(q: char, g: Seq<char>)
    requires
        q == '"' || q == '\'',
        bare_glob(g),
    ensures
        clean_item(seq![q] + g + seq![q]) == g,
{
    let x = seq![q] + g + seq![q];
    assert(x[0] == q && x.last() == q);
    assert(!is_ws(q));
    assert(trim_start(x) == x);
    assert(trim_end(x) == x);
    assert(trim(x) == x);
    assert(x.drop_first() =~= g + seq![q]);
    assert((g + seq![q]).drop_last() =~= g);
    assert((g + seq![q]).last() == q);
    assert((g + seq![q])[0] == g[0]);
    assert(trim_char_start(g, '\'') == g);
    assert(trim_char_end(g, '\'') == g);
    assert(trim_char_start(g, '"') == g);
    assert(trim_char_end(g, '"') == g);
    if q == '"' {
        assert(trim_char_start(g + seq![q], '"') == g + seq![q]);
        assert(trim_char_start(x, '"') == g + seq![q]);
        assert(trim_char_end(g + seq![q], '"') == g);
        assert(trim_matches(x, '"') == g);
        assert(trim_matches(g, '\'') == g);
    } else {
        assert(trim_char_start(x, '"') == x);
        assert(trim_char_end(x, '"') == x);
        assert(trim_matches(x, '"') == x);
        assert(trim_char_start(g + seq![q], '\'') == g + seq![q]);
        assert(trim_char_start(x, '\'') == g + seq![q]);
        assert(trim_char_end(g + seq![q], '\'') == g);
        assert(trim_matches(x, '\'') == g);
    }
}

/// In a glob list, an item `- "g"` or `- 'g'` adds the glob `g` without
/// its quotes, whatever the lines before it were.
pub proof fn law_list_item_unquoted(ls: Seq<Seq<char>>, line: Seq<char>, q: char, g: Seq<char>)
    requires
        glob_scan(ls).1,
        q == '"' || q == '\'',
        bare_glob(g),
        trim(line) == "- "@ + seq![q] + g + seq![q],
    ensures
        glob_scan(ls.push(line)) == (glob_scan(ls).0.push(g), true),
{
    reveal_strlit("- ");
    reveal_strlit("globs:");
    let t = trim(line);
    assert(ls.push(line).drop_last() =~= ls);
    assert(t[0] == '-');
    assert(!starts_with(t, "globs:"@)) by {
        if t.len() >= 6 {
            assert(t.take(6)[0] == t[0]);
        }
    }
    assert(t.take(2) =~= "- "@);
    assert(t.skip(2) =~= seq![q] + g + seq![q]);
    lemma_clean_quoted(q, g);
}

/// Lines read on over text without a line break extend the line being read.
proof fn lemma_line_scan_append(s: Seq<char>, t: Seq<char>)
    requires
        forall|i: int| 0 <= i < t.len() ==> t[i] != '\n',
    ensures
        line_scan(s + t) == (line_scan(s).0, line_scan(s).1 + t),
    decreases t.len(),
{
    if t.len() == 0 {
        assert(s + t =~= s);
        assert(line_scan(s).1 + t =~= line_scan(s).1);
    } else {
        lemma_line_scan_append(s, t.drop_last());
        assert((s + t).drop_last() =~= s + t.drop_last());
        assert((s + t).last() == t.last());
        assert((line_scan(s).1 + t.drop_last()).push(t.last()) =~= line_scan(s).1 + t);
    }
}

/// A frontmatter whose glob list holds one quoted glob gives that glob
/// without its quotes.
pub proof fn law_quoted_list_glob(q: char, g: Seq<char>)
    requires
        q == '"' || q == '\'',
        bare_glob(g),
        forall|i: int| 0 <= i < g.len() ==> g[i] != '\n',
    ensures
        globs_spec("globs:\n- "@ + seq![q] + g + seq![q]) == seq![g],
{
    reveal_strlit("globs:\n- ");
    reveal_strlit("globs:");
    let head = "globs:"@;
    let item = "- "@ + seq![q] + g + seq![q];
    reveal_strlit("- ");
    let fm = "globs:\n- "@ + seq![q] + g + seq![q];
    assert(fm =~= head.push('\n') + item);
    lemma_line_scan_append(Seq::<char>::empty(), head);
    assert(Seq::<char>::empty() + head =~= head);
    assert(line_scan(head) == (Seq::<Seq<char>>::empty(), head));
    assert(head.push('\n').drop_last() =~= head);
    assert(strip_cr(head) == head);
    assert(line_scan(head.push('\n')) == (seq![head], Seq::<char>::empty()));
    assert forall|i: int| 0 <= i < item.len() implies item[i] != '\n' by {
        if i >= 3 && i < 3 + g.len() {
            assert(item[i] == g[i - 3]);
        }
    }
    lemma_line_scan_append(head.push('\n'), item);
    assert(Seq::<char>::empty() + item =~= item);
    assert(lines(fm) =~= seq![head, item]);
    // The `globs:` line opens the list.
    assert(trim_start(head) == head);
    assert(trim_end(head) == head);
    assert(head.take(6) =~= head);
    assert(trim(head.skip(6)).len() == 0) by {
        assert(head.skip(6) =~= Seq::<char>::empty());
    }
    assert(seq![head].drop_last() =~= Seq::<Seq<char>>::empty());
    assert(glob_scan(Seq::<Seq<char>>::empty()) == (Seq::<Seq<char>>::empty(), false));
    assert(trim(head) == head);
    assert(starts_with(head, "globs:"@));
    assert(glob_scan(seq![head]) == (Seq::<Seq<char>>::empty(), true));
    // The item line is its own trim.
    assert(item[0] == '-' && item.last() == q);
    assert(!is_ws(q));
    assert(trim_start(item) == item);
    assert(trim_end(item) == item);
    law_list_item_unquoted(seq![head], item, q, g);
    assert(seq![head].push(item) =~= seq![head, item]);
    assert(Seq::<Seq<char>>::empty().push(g) =~= seq![g]);
}

/// Text without the separator is one piece.
proof fn lemma_split_none(s: Seq<char>, c: char)
    requires
        forall|i: int| 0 <= i < s.len() ==> s[i] != c,
    ensures
        split_scan(s, c) == (Seq::<Seq<char>>::empty(), s),
    decreases s.len(),
{
    if s.len() > 0 {
        lemma_split_none(s.drop_last(), c);
        assert(s.drop_last().push(s.last()) =~= s);
    }
}

/// A frontmatter that lists one quoted glob inline, `globs: "g"`, gives
/// that glob without its quotes.
pub proof fn law_quoted_inline_glob(q: char, g: Seq<char>)
    requires
        q == '"' || q == '\'',
        bare_glob(g),
        forall|i: int| 0 <= i < g.len() ==> g[i] != '\n' && g[i] != ',',
    ensures
        globs_spec("globs: "@ + seq![q] + g + seq![q]) == seq![g],
{
    reveal_strlit("globs: ");
    reveal_strlit("globs:");
    let x = seq![q] + g + seq![q];
    let fm = "globs: "@ + x;
    assert(fm =~= "globs: "@ + seq![q] + g + seq![q]);
    assert forall|i: int| 0 <= i < x.len() implies x[i] != '\n' && x[i] != ',' by {
        if 1 <= i < 1 + g.len() {
            assert(x[i] == g[i - 1]);
        }
    }
    assert forall|i: int| 0 <= i < fm.len() implies fm[i] != '\n' by {
        if i >= 7 {
            assert(fm[i] == x[i - 7]);
        }
    }
    lemma_line_scan_append(Seq::<char>::empty(), fm);
    assert(Seq::<char>::empty() + fm =~= fm);
    assert(lines(fm) =~= seq![fm]);
    assert(seq![fm].drop_last() =~= Seq::<Seq<char>>::empty());
    assert(glob_scan(Seq::<Seq<char>>::empty()) == (Seq::<Seq<char>>::empty(), false));
    assert(!is_ws(q));
    assert(fm[0] == 'g' && fm.last() == q);
    assert(trim_start(fm) == fm);
    assert(trim_end(fm) == fm);
    assert(trim(fm) == fm);
    assert(fm.take(6) =~= "globs:"@);
    assert(starts_with(fm, "globs:"@));
    let after = fm.skip(6);
    assert(after =~= seq![' '] + x);
    assert(after.drop_first() =~= x);
    assert(is_ws(' '));
    assert(trim_start(x) == x);
    assert(trim_start(after) == x);
    assert(trim_end(x) == x);
    assert(trim(after) == x);
    lemma_split_none(x, ',');
    assert(split_on(x, ',') =~= seq![x]);
    assert(seq![x].drop_last() =~= Seq::<Seq<char>>::empty());
    lemma_clean_quoted(q, g);
    assert(trim_start(g) == g);
    assert(trim_end(g) == g);
    assert(clean_inline(x) == g);
    assert(inline_globs(Seq::<Seq<char>>::empty()) == Seq::<Seq<char>>::empty());
    assert(seq![x].last() == x);
    assert(inline_globs(seq![x]) == Seq::<Seq<char>>::empty().push(g));
    assert(Seq::<Seq<char>>::empty().push(g) =~= seq![g]);
    assert(Seq::<Seq<char>>::empty() + seq![g] =~= seq![g]);
}

} // verus!
