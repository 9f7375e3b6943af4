//! Skills: markdown files with a `---` frontmatter giving a name and a
//! description. A skill is activated by `/name`.
use vstd::prelude::*;
use crate::text::{
    chars_of, find, find_from_exec, lines, slice_of, split_lines, starts_with, starts_with_exec,
    string_of, trim, trim_chars, trim_matches, trim_matches_exec, trim_start, trim_bounds, views,
    append_chars,
};

verus! {

/// A skill: its name, a one-line description and the prompt text.
pub struct Skill {
    pub name: String,
    pub description: String,
    pub content: String,
}

impl Skill {
    pub open spec fn view(&self) -> (Seq<char>, Seq<char>, Seq<char>) {
        (self.name@, self.description@, self.content@)
    }
}

pub open spec fn dashes() -> Seq<char> {
    seq!['-', '-', '-']
}

/// Frontmatter and body of a file: the text between a leading `---` and
/// the next `---`, and the text after that. Without a leading `---`, or
/// without a closing one, there is no frontmatter and the body is the
/// whole (left-trimmed) text.
pub open spec fn frontmatter_spec(text: Seq<char>) -> (Seq<char>, Seq<char>) {
    let t = trim_start(text);
    if !starts_with(t, dashes()) {
        (seq![], t)
    } else {
        let after = t.skip(3);
        match find(after, dashes()) {
            Some(end) => (after.take(end), after.skip(end + 3)),
            None => (seq![], t),
        }
    }
}

/// Like `frontmatter_spec`, but an unclosed frontmatter gives `None`.
pub open spec fn mdc_frontmatter_spec(text: Seq<char>) -> Option<(Seq<char>, Seq<char>)> {
    let t = trim_start(text);
    if !starts_with(t, dashes()) {
        Some((seq![], t))
    } else {
        let after = t.skip(3);
        match find(after, dashes()) {
            Some(end) => Some((after.take(end), after.skip(end + 3))),
            None => None,
        }
    }
}

/// Locates the frontmatter: `None` for no leading `---`, `Some((3, None))`
/// when unclosed, `Some((3, Some(end)))` with `end` the position of the
/// closing `---` in the text after the opening one.
fn locate_frontmatter(t: &Vec<char>) -> (r: Option<Option<usize>>)
    ensures
        match r {
            None => !starts_with(t@, dashes()),
            Some(None) => starts_with(t@, dashes()) && find(t@.skip(3), dashes()) is None,
            Some(Some(end)) => starts_with(t@, dashes()) && find(t@.skip(3), dashes()) == Some(end as int)
                && 3 + end + 3 <= t@.len(),
        },
{
    let d = chars_of("---");
    proof {
        reveal_strlit("---");
        assert(d@ =~= dashes());
    }
    if !starts_with_exec(t, &d) {
        return None;
    }
    let after = slice_of(t, 3, t.len());
    assert(after@ =~= t@.skip(3));
    match crate::text::find_exec(&after, &d) {
        Some(end) => Some(Some(end)),
        None => Some(None),
    }
}

/// Splits a skill file into frontmatter and body.
pub fn split_frontmatter(text: &str) -> (r: (String, String))
    ensures
        (r.0@, r.1@) == frontmatter_spec(text@),
{
    let all = chars_of(text);
    let (lo, _) = trim_bounds(&all);
    let t = slice_of(&all, lo, all.len());
    match locate_frontmatter(&t) {
        Some(Some(end)) => {
            let fm = string_of(&slice_of(&t, 3, 3 + end));
            let body = string_of(&slice_of(&t, 3 + end + 3, t.len()));
            assert(t@.subrange(3, 3 + end) =~= t@.skip(3).take(end as int));
            assert(t@.subrange(3 + end + 3, t@.len() as int) =~= t@.skip(3).skip(end + 3));
            (fm, body)
        },
        _ => (String::new(), string_of(&t)),
    }
}

/// Splits a Cursor rule file into frontmatter and body; `None` when the
/// frontmatter is not closed.
pub fn parse_mdc_frontmatter(text: &str) -> (r: Option<(String, String)>)
    ensures
        match r {
            Some((a, b)) => mdc_frontmatter_spec(text@) == Some((a@, b@)),
            None => mdc_frontmatter_spec(text@) is None,
        },
{
    let all = chars_of(text);
    let (lo, _) = trim_bounds(&all);
    let t = slice_of(&all, lo, all.len());
    match locate_frontmatter(&t) {
        None => Some((String::new(), string_of(&t))),
        Some(None) => None,
        Some(Some(end)) => {
            let fm = string_of(&slice_of(&t, 3, 3 + end));
            let body = string_of(&slice_of(&t, 3 + end + 3, t.len()));
            assert(t@.subrange(3, 3 + end) =~= t@.skip(3).take(end as int));
            assert(t@.subrange(3 + end + 3, t@.len() as int) =~= t@.skip(3).skip(end + 3));
            Some((fm, body))
        },
    }
}

/// The value of `field:` on the first line (trimmed) of `ls` that starts
/// with it: the rest of that line, trimmed, with surrounding `"` and then
/// `'` removed.
pub open spec fn field_scan(ls: Seq<Seq<char>>, key: Seq<char>) -> Option<Seq<char>>
    decreases ls.len(),
{
    if ls.len() == 0 {
        None
    } else {
        let l = trim(ls[0]);
        if starts_with(l, key) {
            Some(trim_matches(trim_matches(trim(l.skip(key.len() as int)), '"'), '\''))
        } else {
            field_scan(ls.drop_first(), key)
        }
    }
}

/// The value of `field` in a frontmatter.
pub open spec fn field_spec(frontmatter: Seq<char>, field: Seq<char>) -> Option<Seq<char>> {
    field_scan(lines(frontmatter), field.push(':'))
}

/// Reads `field: value` from a frontmatter.
pub fn extract_field(frontmatter: &str, field: &str) -> (r: Option<String>)
    ensures
        crate::text::opt_view(r) == field_spec(frontmatter@, field@),
{
    let fm = chars_of(frontmatter);
    let ls = split_lines(&fm);
    let ghost lv = views(ls@);
    let mut key = chars_of(field);
    key.push(':');
    let mut i: usize = 0;
    assert(lv.skip(0) =~= lv);
    while i < ls.len()
        invariant
            i <= ls.len(),
            lv == views(ls@),
            lv == lines(frontmatter@),
            key@ == field@.push(':'),
            field_scan(lv, key@) == field_scan(lv.skip(i as int), key@),
        decreases ls.len() - i,
    {
        assert(lv.skip(i as int)[0] == ls@[i as int]@);
        assert(lv.skip(i as int).drop_first() =~= lv.skip(i + 1));
        let line = trim_chars(&ls[i]);
        if starts_with_exec(&line, &key) {
            let rest = slice_of(&line, key.len(), line.len());
            assert(rest@ =~= line@.skip(key@.len() as int));
            let a = trim_chars(&rest);
            let b = trim_matches_exec(&a, '"');
            let c = trim_matches_exec(&b, '\'');
            return Some(string_of(&c));
        }
        i = i + 1;
    }
    None
}

/// Builds a skill from a file's text; `stem` (the file name without its
/// extension) names the skill when the frontmatter does not.
pub fn skill_from_text(stem: &str, raw: &str) -> (r: Skill)
    ensures
        r.name@ == match field_spec(frontmatter_spec(raw@).0, "name"@) {
            Some(n) => n,
            None => stem@,
        },
        r.description@ == match field_spec(frontmatter_spec(raw@).0, "description"@) {
            Some(d) => d,
            None => seq![],
        },
        r.content@ == trim(frontmatter_spec(raw@).1),
{
    let (frontmatter, content) = split_frontmatter(raw);
    let name = match extract_field(frontmatter.as_str(), "name") {
        Some(n) => n,
        None => stem.to_owned(),
    };
    let description = match extract_field(frontmatter.as_str(), "description") {
        Some(d) => d,
        None => String::new(),
    };
    let body = chars_of(content.as_str());
    Skill { name, description, content: crate::text::trim_string(&body) }
}

// ───────────────────────── sets of skills ─────────────────────────

/// Skills by name: no two share a name.
pub struct SkillSet {
    pub skills: Vec<Skill>,
}

pub open spec fn skill_views(s: Seq<Skill>) -> Seq<(Seq<char>, Seq<char>, Seq<char>)> {
    s.map_values(|k: Skill| k.view())
}

/// The position of the skill named `name`, if any.
pub open spec fn index_of_name(s: Seq<(Seq<char>, Seq<char>, Seq<char>)>, name: Seq<char>) -> Option<int>
    decreases s.len(),
{
    if s.len() == 0 {
        None
    } else if s.last().0 == name {
        Some(s.len() - 1)
    } else {
        index_of_name(s.drop_last(), name)
    }
}

pub open spec fn names_unique(s: Seq<(Seq<char>, Seq<char>, Seq<char>)>) -> bool {
    forall|i: int, j: int| 0 <= i < s.len() && 0 <= j < s.len() && i != j ==> s[i].0 != s[j].0
}

/// Adding a skill: it replaces the one with the same name, or comes last.
pub open spec fn insert_spec(s: Seq<(Seq<char>, Seq<char>, Seq<char>)>, k: (Seq<char>, Seq<char>, Seq<char>)) -> Seq<(Seq<char>, Seq<char>, Seq<char>)> {
    match index_of_name(s, k.0) {
        Some(i) => s.update(i, k),
        None => s.push(k),
    }
}

/// Adding several skills in order.
pub open spec fn insert_all_spec(s: Seq<(Seq<char>, Seq<char>, Seq<char>)>, ks: Seq<(Seq<char>, Seq<char>, Seq<char>)>) -> Seq<(Seq<char>, Seq<char>, Seq<char>)>
    decreases ks.len(),
{
    if ks.len() == 0 {
        s
    } else {
        insert_spec(insert_all_spec(s, ks.drop_last()), ks.last())
    }
}

pub proof fn lemma_index_of_name(s: Seq<(Seq<char>, Seq<char>, Seq<char>)>, name: Seq<char>)
    ensures
        match index_of_name(s, name) {
            Some(i) => 0 <= i < s.len() && s[i].0 == name,
            None => forall|j: int| 0 <= j < s.len() ==> s[j].0 != name,
        },
    decreases s.len(),
{
    if s.len() > 0 && s.last().0 != name {
        lemma_index_of_name(s.drop_last(), name);
        if index_of_name(s.drop_last(), name) is None {
            assert forall|j: int| 0 <= j < s.len() implies s[j].0 != name by {
                if j < s.len() - 1 {
                    assert(s[j] == s.drop_last()[j]);
                }
            }
        }
    }
}

pub proof fn lemma_insert_unique(s: Seq<(Seq<char>, Seq<char>, Seq<char>)>, k: (Seq<char>, Seq<char>, Seq<char>))
    requires
        names_unique(s),
    ensures
        names_unique(insert_spec(s, k)),
        index_of_name(insert_spec(s, k), k.0) is Some,
        insert_spec(s, k)[index_of_name(insert_spec(s, k), k.0)->0] == k,
{
    lemma_index_of_name(s, k.0);
    let r = insert_spec(s, k);
    lemma_index_of_name(r, k.0);
    match index_of_name(s, k.0) {
        Some(i) => {
            assert(r[i] == k);
        },
        None => {
            assert(r[s.len() as int] == k);
        },
    }
}

impl SkillSet {
    pub open spec fn view(&self) -> Seq<(Seq<char>, Seq<char>, Seq<char>)> {
        skill_views(self.skills@)
    }

    pub open spec fn wf(&self) -> bool {
        names_unique(self.view())
    }

    /// No skills.
    pub fn new() -> (r: SkillSet)
        ensures
            r@ == Seq::<(Seq<char>, Seq<char>, Seq<char>)>::empty(),
            r.wf(),
    {
        let r = SkillSet { skills: Vec::new() };
        assert(r@ =~= Seq::<(Seq<char>, Seq<char>, Seq<char>)>::empty());
        r
    }

    pub fn len(&self) -> (r: usize)
        ensures
            r == self@.len(),
    {
        self.skills.len()
    }

    pub fn is_empty(&self) -> (r: bool)
        ensures
            r == (self@.len() == 0),
    {
        self.skills.len() == 0
    }

    /// The position of the skill named `name`.
    pub fn position(&self, name: &str) -> (r: Option<usize>)
        ensures
            match r {
                Some(i) => index_of_name(self@, name@) == Some(i as int),
                None => index_of_name(self@, name@) is None,
            },
    {
        let n = chars_of(name);
        let mut i = self.skills.len();
        assert(self@.take(i as int) =~= self@);
        while i > 0
            invariant
                i <= self.skills.len(),
                n@ == name@,
                index_of_name(self@, name@) == index_of_name(self@.take(i as int), name@),
            decreases i,
        {
            assert(self@.take(i as int).drop_last() =~= self@.take(i - 1));
            assert(self@.take(i as int).last() == self.skills@[i - 1]@);
            let nm = chars_of(self.skills[i - 1].name.as_str());
            if crate::text::chars_eq(&nm, &n) {
                return Some(i - 1);
            }
            i = i - 1;
        }
        assert(self@.take(0) =~= Seq::<(Seq<char>, Seq<char>, Seq<char>)>::empty());
        None
    }

    /// Adds a skill, replacing the one with the same name.
    pub fn insert(&mut self, skill: Skill)
        requires
            old(self).wf(),
        ensures
            final(self)@ == insert_spec(old(self)@, skill.view()),
            final(self).wf(),
    {
        let ghost k = skill.view();
        proof {
            lemma_insert_unique(self@, k);
            lemma_index_of_name(self@, k.0);
        }
        match self.position(skill.name.as_str()) {
            Some(i) => {
                assert(i < self.skills.len());
                self.skills.set(i, skill);
                assert(self@ =~= old(self)@.update(i as int, k));
            },
            None => {
                self.skills.push(skill);
                assert(self@ =~= old(self)@.push(k));
            },
        }
    }
}

/// Global skills overridden by project skills of the same name.
pub fn load_all_skills(global: SkillSet, project: SkillSet) -> (r: SkillSet)
    requires
        global.wf(),
    ensures
        r@ == insert_all_spec(global@, project@),
        r.wf(),
{
    let mut skills = global;
    let mut project = project;
    let ghost pv = project@;
    let mut rest: Vec<Skill> = Vec::new();
    // take the project skills out in order
    while project.skills.len() > 0
        invariant
            project@ + skill_views(rest@).reverse() == pv,
        decreases project.skills.len(),
    {
        let ghost pbefore = project@;
        let s = project.skills.pop().unwrap();
        let ghost before = skill_views(rest@);
        rest.push(s);
        assert(skill_views(rest@) =~= before.push(s.view()));
        assert(skill_views(rest@).reverse() =~= seq![s.view()] + before.reverse());
        assert(pbefore =~= project@.push(s.view()));
        assert(project@ + skill_views(rest@).reverse() =~= pbefore + before.reverse());
    }
    assert(project@ =~= Seq::<(Seq<char>, Seq<char>, Seq<char>)>::empty());
    assert(skill_views(rest@).reverse() =~= pv);
    let ghost mut i: int = 0;
    assert(pv.take(0) =~= Seq::<(Seq<char>, Seq<char>, Seq<char>)>::empty());
    assert(pv.skip(0) =~= pv);
    while rest.len() > 0
        invariant
            skills.wf(),
            0 <= i,
            i + rest@.len() == pv.len(),
            skill_views(rest@).reverse() == pv.skip(i),
            skills@ == insert_all_spec(global@, pv.take(i)),
        decreases rest.len(),
    {
        let ghost rb = skill_views(rest@);
        let s = rest.pop().unwrap();
        proof {
            assert(rb =~= skill_views(rest@).push(s.view()));
            assert(rb.reverse()[0] == s.view());
            assert(pv.skip(i)[0] == s.view());
            assert(pv.take(i + 1).drop_last() =~= pv.take(i));
            assert(pv.take(i + 1).last() == pv[i]);
            assert(skill_views(rest@).reverse() =~= rb.reverse().drop_first());
            assert(pv.skip(i).drop_first() =~= pv.skip(i + 1));
        }
        skills.insert(s);
        proof {
            i = i + 1;
        }
    }
    assert(pv.take(i) =~= pv);
    skills
}

/// A project skill wins over a global skill of the same name: after
/// merging, looking a name up gives the project's skill when the project
/// has one.
pub proof fn law_project_overrides_global(g: Seq<(Seq<char>, Seq<char>, Seq<char>)>, p: Seq<(Seq<char>, Seq<char>, Seq<char>)>, j: int)
    requires
        names_unique(g),
        names_unique(p),
        0 <= j < p.len(),
    ensures
        ({
            let m = insert_all_spec(g, p);
            index_of_name(m, p[j].0) is Some && m[index_of_name(m, p[j].0)->0] == p[j]
        }),
    decreases p.len(),
{
    lemma_insert_all_unique(g, p);
    let m = insert_all_spec(g, p);
    let pre = insert_all_spec(g, p.drop_last());
    lemma_insert_all_unique(g, p.drop_last());
    if j == p.len() - 1 {
        lemma_insert_unique(pre, p.last());
    } else {
        assert(p.drop_last()[j] == p[j]);
        assert(names_unique(p.drop_last()));
        law_project_overrides_global(g, p.drop_last(), j);
        // inserting a skill of another name keeps this one
        lemma_index_of_name(pre, p[j].0);
        let i = index_of_name(pre, p[j].0)->0;
        lemma_index_of_name(pre, p.last().0);
        assert(p.last().0 != p[j].0);
        lemma_index_of_name(m, p[j].0);
        let k = index_of_name(m, p[j].0)->0;
        lemma_insert_unique(pre, p.last());
        assert(m[i] == pre[i]);
        assert(m[i].0 == p[j].0);
        assert(k == i);
    }
}

proof fn lemma_insert_all_unique(g: Seq<(Seq<char>, Seq<char>, Seq<char>)>, p: Seq<(Seq<char>, Seq<char>, Seq<char>)>)
    requires
        names_unique(g),
    ensures
        names_unique(insert_all_spec(g, p)),
    decreases p.len(),
{
    if p.len() > 0 {
        lemma_insert_all_unique(g, p.drop_last());
        lemma_insert_unique(insert_all_spec(g, p.drop_last()), p.last());
    }
}


/// Where two lists agree on which entries carry `name`, the lookup of
/// `name` gives the same position.
proof fn lemma_index_same_names(s: Seq<(Seq<char>, Seq<char>, Seq<char>)>, s2: Seq<(Seq<char>, Seq<char>, Seq<char>)>, name: Seq<char>)
    requires
        s.len() == s2.len(),
        forall|j: int| 0 <= j < s.len() ==> ((#[trigger] s[j]).0 == name) == (s2[j].0 == name),
    ensures
        index_of_name(s, name) == index_of_name(s2, name),
    decreases s.len(),
{
    if s.len() > 0 {
        assert(s[s.len() - 1] == s.last());
        if s.last().0 != name {
            assert forall|j: int| 0 <= j < s.drop_last().len() implies ((#[trigger] s.drop_last()[j]).0 == name) == (s2.drop_last()[j].0 == name) by {
                assert(s.drop_last()[j] == s[j]);
                assert(s2.drop_last()[j] == s2[j]);
            }
            lemma_index_same_names(s.drop_last(), s2.drop_last(), name);
        }
    }
}

/// Adding a skill of another name leaves the lookup of `name` as it was.
proof fn lemma_insert_other(s: Seq<(Seq<char>, Seq<char>, Seq<char>)>, k: (Seq<char>, Seq<char>, Seq<char>), name: Seq<char>)
    requires
        k.0 != name,
    ensures
        index_of_name(insert_spec(s, k), name) == index_of_name(s, name),
        index_of_name(s, name) matches Some(i) ==> insert_spec(s, k)[i] == s[i],
{
    lemma_index_of_name(s, k.0);
    lemma_index_of_name(s, name);
    match index_of_name(s, k.0) {
        Some(i) => {
            let r = s.update(i, k);
            assert forall|j: int| 0 <= j < s.len() implies ((#[trigger] s[j]).0 == name) == (r[j].0 == name) by {
                if j == i {
                    assert(s[i].0 == k.0);
                }
            }
            lemma_index_same_names(s, r, name);
            if index_of_name(s, name) is Some {
                let x = index_of_name(s, name)->0;
                assert(s[x].0 == name);
                assert(x != i);
            }
        },
        None => {
            assert(s.push(k).drop_last() =~= s);
        },
    }
}

/// Merging keeps every name of both sets and no other: a name is found in
/// the merged set exactly when the global or the project set has it, and
/// a name only the global set has keeps its global skill.
pub proof fn law_merged_names(g: Seq<(Seq<char>, Seq<char>, Seq<char>)>, p: Seq<(Seq<char>, Seq<char>, Seq<char>)>, name: Seq<char>)
    ensures
        ({
            let m = insert_all_spec(g, p);
            &&& (index_of_name(m, name) is Some <==> (index_of_name(g, name) is Some || index_of_name(p, name) is Some))
            &&& (index_of_name(p, name) is None && index_of_name(g, name) is Some) ==> m[index_of_name(m, name)->0] == g[index_of_name(g, name)->0]
        }),
    decreases p.len(),
{
    if p.len() > 0 {
        law_merged_names(g, p.drop_last(), name);
        let pre = insert_all_spec(g, p.drop_last());
        if p.last().0 == name {
            lemma_index_of_name(pre, name);
            lemma_index_of_name(insert_spec(pre, p.last()), name);
            match index_of_name(pre, name) {
                Some(i) => {
                    assert(insert_spec(pre, p.last())[i].0 == name);
                },
                None => {
                    assert(insert_spec(pre, p.last())[pre.len() as int].0 == name);
                },
            }
        } else {
            lemma_insert_other(pre, p.last(), name);
        }
    }
}

} // verus!
