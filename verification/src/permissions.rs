//! Saved allow rules for tool calls, matched with `*` wildcards.
use vstd::prelude::*;
use crate::text::{
    chars_eq, chars_of, ends_with, ends_with_exec, find_from, find_from_exec, join, occurs_at,
    slice_of, starts_with, starts_with_exec, string_views, views,
};

verus! {

/// Wildcard matching: `*` matches any sequence of characters, every other
/// character matches itself.
pub open spec fn wild(p: Seq<char>, t: Seq<char>) -> bool
    decreases p.len(), t.len(),
{
    if p.len() == 0 {
        t.len() == 0
    } else if p[0] == '*' {
        wild(p.drop_first(), t) || (t.len() > 0 && wild(p, t.drop_first()))
    } else {
        t.len() > 0 && t[0] == p[0] && wild(p.drop_first(), t.drop_first())
    }
}

/// Scanner state of `str::split(c)` after reading `s`.
pub open spec fn split_scan(s: Seq<char>, c: char) -> (Seq<Seq<char>>, Seq<char>)
    decreases s.len(),
{
    if s.len() == 0 {
        (seq![], seq![])
    } else {
        let (done, cur) = split_scan(s.drop_last(), c);
        if s.last() == c {
            (done.push(cur), seq![])
        } else {
            (done, cur.push(s.last()))
        }
    }
}

/// `str::split(c)`: the pieces between occurrences of `c` (always at
/// least one).
pub open spec fn split_on(s: Seq<char>, c: char) -> Seq<Seq<char>> {
    let (done, cur) = split_scan(s, c);
    done.push(cur)
}

pub open spec fn no_char(s: Seq<char>, c: char) -> bool {
    forall|i: int| 0 <= i < s.len() ==> s[i] != c
}

pub open spec fn star() -> Seq<char> {
    seq!['*']
}

// ───────────────────────── lemmas on splitting and joining ─────────────────────────

proof fn lemma_join_push(d: Seq<Seq<char>>, w: Seq<char>, sep: Seq<char>)
    ensures
        join(d.push(w), sep) == if d.len() == 0 {
            w
        } else {
            join(d, sep) + sep + w
        },
{
    assert(d.push(w).drop_last() =~= d);
    if d.len() == 0 {
        assert(d.push(w).len() == 1);
    }
}

proof fn lemma_split_scan(s: Seq<char>, c: char)
    ensures
        join(split_on(s, c), seq![c]) == s,
        forall|i: int| 0 <= i < split_on(s, c).len() ==> no_char(#[trigger] split_on(s, c)[i], c),
    decreases s.len(),
{
    if s.len() == 0 {
        assert(split_on(s, c) =~= seq![Seq::<char>::empty()]);
        assert(join(split_on(s, c), seq![c]) =~= s);
    } else {
        let pre = s.drop_last();
        lemma_split_scan(pre, c);
        let (d, cur) = split_scan(pre, c);
        let x = s.last();
        assert(s =~= pre.push(x));
        if x == c {
            lemma_join_push(d.push(cur), seq![], seq![c]);
            assert(join(split_on(s, c), seq![c]) =~= pre + seq![c]);
            assert forall|i: int| 0 <= i < split_on(s, c).len() implies no_char(#[trigger] split_on(s, c)[i], c) by {
                if i < split_on(pre, c).len() {
                    assert(split_on(s, c)[i] == split_on(pre, c)[i]);
                }
            }
        } else {
            lemma_join_push(d, cur, seq![c]);
            lemma_join_push(d, cur.push(x), seq![c]);
            assert(join(split_on(s, c), seq![c]) =~= join(split_on(pre, c), seq![c]).push(x));
            assert forall|i: int| 0 <= i < split_on(s, c).len() implies no_char(#[trigger] split_on(s, c)[i], c) by {
                if i < d.len() {
                    assert(split_on(s, c)[i] == split_on(pre, c)[i]);
                } else {
                    assert(no_char(split_on(pre, c)[d.len() as int], c));
                    assert(split_on(pre, c)[d.len() as int] == cur);
                    assert forall|k: int| 0 <= k < cur.push(x).len() implies cur.push(x)[k] != c by {
                        if k < cur.len() {
                            assert(cur[k] != c);
                        }
                    }
                }
            }
        }
    }
}

proof fn lemma_join_front(a: Seq<Seq<char>>, sep: Seq<char>)
    requires
        a.len() >= 2,
    ensures
        join(a, sep) == a[0] + sep + join(a.drop_first(), sep),
    decreases a.len(),
{
    if a.len() == 2 {
        assert(a.drop_last().len() == 1);
        assert(a.drop_first().len() == 1);
        assert(a.drop_last()[0] == a[0]);
        assert(a.drop_first()[0] == a[1]);
        assert(join(a.drop_last(), sep) == a[0]);
        assert(join(a.drop_first(), sep) == a[1]);
    } else {
        lemma_join_front(a.drop_last(), sep);
        assert(a.drop_last()[0] == a[0]);
        assert(join(a.drop_first(), sep) == join(a.drop_first().drop_last(), sep) + sep + a.drop_first().last());
        assert(a.drop_last().drop_first() =~= a.drop_first().drop_last());
        assert(a.drop_first().last() == a.last());
        assert(join(a, sep) =~= a[0] + sep + join(a.drop_first(), sep));
    }
}

/// The pattern from part `i` on: `parts[i] * parts[i+1] * … * parts[n-1]`.
pub open spec fn rest(parts: Seq<Seq<char>>, i: int) -> Seq<char> {
    join(parts.skip(i), star())
}

proof fn lemma_rest_step(parts: Seq<Seq<char>>, i: int)
    requires
        0 <= i < parts.len() - 1,
    ensures
        rest(parts, i) == parts[i] + star() + rest(parts, i + 1),
{
    lemma_join_front(parts.skip(i), star());
    assert(parts.skip(i).drop_first() =~= parts.skip(i + 1));
}

proof fn lemma_rest_last(parts: Seq<Seq<char>>)
    requires
        parts.len() >= 1,
    ensures
        rest(parts, parts.len() - 1) == parts.last(),
{
    assert(parts.skip(parts.len() - 1) =~= seq![parts.last()]);
}

// ───────────────────────── lemmas on wildcard matching ─────────────────────────

proof fn lemma_wild_literal(q: Seq<char>, r: Seq<char>, t: Seq<char>)
    requires
        no_char(q, '*'),
    ensures
        wild(q + r, t) == (starts_with(t, q) && wild(r, t.skip(q.len() as int))),
    decreases q.len(),
{
    if q.len() == 0 {
        assert(q + r =~= r);
        assert(t.skip(0) =~= t);
        assert(t.take(0) =~= q);
    } else {
        let p = q + r;
        assert(p[0] == q[0]);
        assert(p.drop_first() =~= q.drop_first() + r);
        if t.len() > 0 {
            lemma_wild_literal(q.drop_first(), r, t.drop_first());
            if q.len() <= t.len() {
                assert(t.drop_first().skip(q.len() - 1) =~= t.skip(q.len() as int));
            }
            if starts_with(t, q) {
                assert(t[0] == t.take(q.len() as int)[0]);
                assert(t.drop_first().take(q.len() - 1) =~= t.take(q.len() as int).drop_first());
            }
            if t[0] == q[0] && starts_with(t.drop_first(), q.drop_first()) {
                assert forall|i: int| 0 <= i < q.len() implies t.take(q.len() as int)[i] == q[i] by {
                    if i > 0 {
                        assert(t.drop_first().take(q.len() - 1)[i - 1] == q.drop_first()[i - 1]);
                    }
                }
                assert(t.take(q.len() as int) =~= q);
            }
        }
    }
}

proof fn lemma_star_intro(r: Seq<char>, t: Seq<char>, k: int)
    requires
        0 <= k <= t.len(),
        wild(r, t.skip(k)),
    ensures
        wild(star() + r, t),
    decreases k,
{
    let p = star() + r;
    assert(p.drop_first() =~= r);
    if k == 0 {
        assert(t.skip(0) =~= t);
    } else {
        assert(t.drop_first().skip(k - 1) =~= t.skip(k));
        lemma_star_intro(r, t.drop_first(), k - 1);
    }
}

proof fn lemma_star_elim(r: Seq<char>, t: Seq<char>) -> (k: int)
    requires
        wild(star() + r, t),
    ensures
        0 <= k <= t.len(),
        wild(r, t.skip(k)),
    decreases t.len(),
{
    let p = star() + r;
    assert(p.drop_first() =~= r);
    if wild(r, t) {
        assert(t.skip(0) =~= t);
        0
    } else {
        let k1 = lemma_star_elim(r, t.drop_first());
        assert(t.drop_first().skip(k1) =~= t.skip(k1 + 1));
        k1 + 1
    }
}

proof fn lemma_star_monotone(r: Seq<char>, t: Seq<char>, m: int, m2: int)
    requires
        0 <= m2 <= m <= t.len(),
        wild(star() + r, t.skip(m)),
    ensures
        wild(star() + r, t.skip(m2)),
{
    let k = lemma_star_elim(r, t.skip(m));
    assert(t.skip(m).skip(k) =~= t.skip(m2).skip(m - m2 + k));
    lemma_star_intro(r, t.skip(m2), m - m2 + k);
}

proof fn lemma_double_star(r: Seq<char>, u: Seq<char>)
    ensures
        wild(star() + (star() + r), u) == wild(star() + r, u),
{
    if wild(star() + (star() + r), u) {
        let k = lemma_star_elim(star() + r, u);
        lemma_star_monotone(r, u, k, 0);
        assert(u.skip(0) =~= u);
    }
    if wild(star() + r, u) {
        assert(u.skip(0) =~= u);
        lemma_star_intro(star() + r, u, 0);
    }
}

proof fn lemma_find_from_some(s: Seq<char>, p: Seq<char>, from: int)
    requires
        find_from(s, p, from) is Some,
    ensures
        from <= find_from(s, p, from)->0,
        occurs_at(s, p, find_from(s, p, from)->0),
        forall|m: int| from <= m < find_from(s, p, from)->0 ==> !occurs_at(s, p, m),
    decreases s.len() + 1 - from,
{
    if !occurs_at(s, p, from) {
        lemma_find_from_some(s, p, from + 1);
    }
}

proof fn lemma_find_from_none(s: Seq<char>, p: Seq<char>, from: int, m: int)
    requires
        find_from(s, p, from) is None,
        0 <= from <= m,
    ensures
        !occurs_at(s, p, m),
    decreases s.len() + 1 - from,
{
    if from + p.len() <= s.len() && m > from {
        lemma_find_from_none(s, p, from + 1, m);
    }
}

proof fn lemma_occurs_skip(t: Seq<char>, q: Seq<char>, m: int)
    requires
        0 <= m <= t.len(),
    ensures
        starts_with(t.skip(m), q) == occurs_at(t, q, m),
{
    if starts_with(t.skip(m), q) {
        assert(t.subrange(m, m + q.len()) =~= t.skip(m).take(q.len() as int));
    }
    if occurs_at(t, q, m) {
        assert(t.subrange(m, m + q.len()) =~= t.skip(m).take(q.len() as int));
    }
}

/// A middle part is matched at its first occurrence at or after `pos`.
proof fn lemma_middle(q: Seq<char>, r: Seq<char>, t: Seq<char>, pos: int)
    requires
        q.len() > 0,
        no_char(q, '*'),
        0 <= pos <= t.len(),
    ensures
        wild(star() + (q + (star() + r)), t.skip(pos)) == match find_from(t, q, pos) {
            Some(j) => wild(star() + r, t.skip(j + q.len())),
            None => false,
        },
{
    let u = t.skip(pos);
    if wild(star() + (q + (star() + r)), u) {
        let k = lemma_star_elim(q + (star() + r), u);
        lemma_wild_literal(q, star() + r, u.skip(k));
        assert(u.skip(k) =~= t.skip(pos + k));
        assert(u.skip(k).skip(q.len() as int) =~= t.skip(pos + k + q.len()));
        lemma_occurs_skip(t, q, pos + k);
        match find_from(t, q, pos) {
            Some(j) => {
                lemma_find_from_some(t, q, pos);
                lemma_star_monotone(r, t, pos + k + q.len(), j + q.len());
            },
            None => {
                lemma_find_from_none(t, q, pos, pos + k);
            },
        }
    }
    match find_from(t, q, pos) {
        Some(j) => {
            lemma_find_from_some(t, q, pos);
            if wild(star() + r, t.skip(j + q.len())) {
                lemma_occurs_skip(t, q, j);
                lemma_wild_literal(q, star() + r, t.skip(j));
                assert(t.skip(j).skip(q.len() as int) =~= t.skip(j + q.len()));
                assert(u.skip(j - pos) =~= t.skip(j));
                lemma_star_intro(q + (star() + r), u, j - pos);
            }
        },
        None => {},
    }
}

/// The last part must end the text.
proof fn lemma_last(q: Seq<char>, u: Seq<char>)
    requires
        no_char(q, '*'),
    ensures
        wild(star() + q, u) == ends_with(u, q),
{
    assert(q + seq![] =~= q);
    if wild(star() + q, u) {
        let k = lemma_star_elim(q, u);
        lemma_wild_literal(q, seq![], u.skip(k));
        assert(u.skip(k).skip(q.len() as int) =~= u.skip(k + q.len()));
        assert(u.skip(k) =~= u.skip(k).take(q.len() as int));
        assert(u.skip(u.len() - q.len()) =~= u.skip(k));
    }
    if ends_with(u, q) {
        let k = u.len() - q.len();
        lemma_wild_literal(q, seq![], u.skip(k));
        assert(u.skip(k).take(q.len() as int) =~= u.skip(k));
        assert(u.skip(k).skip(q.len() as int) =~= Seq::<char>::empty());
        lemma_star_intro(q, u, k);
    }
}

// ───────────────────────── executable matching ─────────────────────────

/// `str::split(c)` over characters.
pub fn split_on_exec(v: &Vec<char>, c: char) -> (r: Vec<Vec<char>>)
    ensures
        views(r@) == split_on(v@, c),
{
    let mut done: Vec<Vec<char>> = Vec::new();
    let mut cur: Vec<char> = Vec::new();
    let mut i: usize = 0;
    while i < v.len()
        invariant
            i <= v.len(),
            (views(done@), cur@) == split_scan(v@.take(i as int), c),
        decreases v.len() - i,
    {
        assert(v@.take(i + 1).drop_last() =~= v@.take(i as int));
        if v[i] == c {
            let w = cur;
            done.push(w);
            cur = Vec::new();
            assert(views(done@) =~= split_scan(v@.take(i as int), c).0.push(w@));
        } else {
            cur.push(v[i]);
        }
        i = i + 1;
    }
    assert(v@.take(v.len() as int) =~= v@);
    let w = cur;
    done.push(w);
    assert(views(done@) =~= split_scan(v@, c).0.push(w@));
    done
}

/// Simple glob matching: `*` matches any sequence of characters.
pub fn glob_match(pattern: &str, text: &str) -> (r: bool)
    ensures
        r == wild(pattern@, text@),
{
    let p = chars_of(pattern);
    let t = chars_of(text);
    let parts = split_on_exec(&p, '*');
    let ghost ps = views(parts@);
    proof {
        lemma_split_scan(p@, '*');
        assert(join(ps, star()) == p@);
        assert(ps.skip(0) =~= ps);
    }
    if parts.len() == 1 {
        proof {
            assert(no_char(ps[0], '*'));
            lemma_wild_literal(ps[0], seq![], t@);
            assert(ps[0] + seq![] =~= ps[0]);
            if t@ == p@ {
                assert(t@.take(p@.len() as int) =~= t@);
                assert(t@.skip(p@.len() as int) =~= Seq::<char>::empty());
            }
            if starts_with(t@, ps[0]) && t@.skip(ps[0].len() as int).len() == 0 {
                assert(t@ =~= t@.take(p@.len() as int));
            }
        }
        return chars_eq(&p, &t);
    }
    let n = parts.len();
    // first part: a literal prefix
    let mut pos: usize = 0;
    proof {
        lemma_rest_step(ps, 0);
        assert(no_char(ps[0], '*'));
        assert(p@ == ps[0] + star() + rest(ps, 1));
        assert(ps[0] + star() + rest(ps, 1) =~= ps[0] + (star() + rest(ps, 1)));
        lemma_wild_literal(ps[0], star() + rest(ps, 1), t@);
        assert(t@.skip(0) =~= t@);
    }
    if parts[0].len() != 0 {
        if !starts_with_exec(&t, &parts[0]) {
            return false;
        }
        pos = parts[0].len();
    } else {
        assert(ps[0] + (star() + rest(ps, 1)) =~= star() + rest(ps, 1));
    }
    // middle parts: found at their first occurrence
    let mut i: usize = 1;
    while i < n - 1
        invariant
            1 <= i <= n - 1,
            n == parts.len(),
            ps == views(parts@),
            pos <= t.len(),
            forall|k: int| 0 <= k < ps.len() ==> no_char(#[trigger] ps[k], '*'),
            wild(pattern@, text@) == wild(star() + rest(ps, i as int), t@.skip(pos as int)),
            pattern@ == p@,
            text@ == t@,
        decreases n - i,
    {
        let ghost q = ps[i as int];
        proof {
            lemma_rest_step(ps, i as int);
            assert(no_char(q, '*'));
            assert(q + star() + rest(ps, i + 1) =~= q + (star() + rest(ps, i + 1)));
        }
        if parts[i].len() == 0 {
            proof {
                assert(q + (star() + rest(ps, i + 1)) =~= star() + rest(ps, i + 1));
                lemma_double_star(rest(ps, i + 1), t@.skip(pos as int));
            }
        } else {
            proof {
                lemma_middle(q, rest(ps, i + 1), t@, pos as int);
            }
            match find_from_exec(&t, &parts[i], pos) {
                Some(found) => {
                    proof {
                        lemma_find_from_some(t@, q, pos as int);
                    }
                    pos = found + parts[i].len();
                },
                None => {
                    return false;
                },
            }
        }
        i = i + 1;
    }
    // last part: a literal suffix
    proof {
        lemma_rest_last(ps);
        assert(no_char(ps[n - 1], '*'));
        lemma_last(ps[n - 1], t@.skip(pos as int));
    }
    let last = &parts[n - 1];
    if last.len() != 0 {
        let tail = slice_of(&t, pos, t.len());
        assert(tail@ =~= t@.skip(pos as int));
        if !ends_with_exec(&tail, last) {
            return false;
        }
    } else {
        proof {
            assert(ends_with(t@.skip(pos as int), ps[n - 1])) by {
                assert(t@.skip(pos as int).skip(t@.skip(pos as int).len() - 0) =~= ps[n - 1]);
            }
        }
    }
    true
}

// ───────────────────────── the allow list ─────────────────────────

/// The saved allow rules of a project.
pub struct PermissionsConfig {
    pub allow: Vec<String>,
}

/// Decides whether a command is allowed by the saved rules.
pub struct PermissionManager {
    pub config: PermissionsConfig,
}

impl PermissionsConfig {
    pub open spec fn rules(&self) -> Seq<Seq<char>> {
        string_views(self.allow@)
    }
}

impl PermissionManager {
    /// The rules, in the order they were added.
    pub open spec fn rules(&self) -> Seq<Seq<char>> {
        self.config.rules()
    }

    /// A manager holding the given rules.
    pub fn new(config: PermissionsConfig) -> (r: Self)
        ensures
            r.rules() == config.rules(),
    {
        PermissionManager { config }
    }

    /// Whether some rule matches `command`.
    pub fn is_allowed(&self, command: &str) -> (r: bool)
        ensures
            r == exists|i: int| 0 <= i < self.rules().len() && wild(#[trigger] self.rules()[i], command@),
    {
        let mut i: usize = 0;
        while i < self.config.allow.len()
            invariant
                i <= self.config.allow.len(),
                forall|k: int| 0 <= k < i ==> !wild(#[trigger] self.rules()[k], command@),
            decreases self.config.allow.len() - i,
        {
            if glob_match(self.config.allow[i].as_str(), command) {
                assert(wild(self.rules()[i as int], command@));
                return true;
            }
            i = i + 1;
        }
        false
    }

    /// Adds a rule that allows exactly `command` (its `*`, if any, still
    /// act as wildcards).
    pub fn add_exact(&mut self, command: &str)
        ensures
            final(self).rules() == old(self).rules().push(command@),
    {
        self.config.allow.push(command.to_owned());
        assert(final(self).rules() =~= old(self).rules().push(command@));
    }

    /// Adds a wildcard rule.
    pub fn add_pattern(&mut self, pattern: &str)
        ensures
            final(self).rules() == old(self).rules().push(pattern@),
    {
        self.config.allow.push(pattern.to_owned());
        assert(final(self).rules() =~= old(self).rules().push(pattern@));
    }
}

/// A rule that was added is honoured: after `add_pattern(p)`, every
/// command that `p` matches is allowed, and every command allowed before
/// stays allowed.
pub proof fn law_added_rule_allows(old_rules: Seq<Seq<char>>, new_rules: Seq<Seq<char>>, p: Seq<char>, c: Seq<char>)
    requires
        new_rules == old_rules.push(p),
    ensures
        wild(p, c) ==> exists|i: int| 0 <= i < new_rules.len() && wild(#[trigger] new_rules[i], c),
        (exists|i: int| 0 <= i < old_rules.len() && wild(#[trigger] old_rules[i], c)) ==> exists|i: int|
            0 <= i < new_rules.len() && wild(#[trigger] new_rules[i], c),
{
    if wild(p, c) {
        assert(new_rules[old_rules.len() as int] == p);
    }
    if exists|i: int| 0 <= i < old_rules.len() && wild(#[trigger] old_rules[i], c) {
        let i = choose|i: int| 0 <= i < old_rules.len() && wild(#[trigger] old_rules[i], c);
        assert(new_rules[i] == old_rules[i]);
    }
}

/// A pattern without `*` matches exactly the text equal to it.
pub proof fn law_plain_pattern_is_exact(p: Seq<char>, t: Seq<char>)
    requires
        no_char(p, '*'),
    ensures
        wild(p, t) == (p == t),
{
    lemma_wild_literal(p, seq![], t);
    assert(p + seq![] =~= p);
    if p == t {
        assert(t.take(p.len() as int) =~= t);
        assert(t.skip(p.len() as int) =~= Seq::<char>::empty());
    }
    if starts_with(t, p) && t.skip(p.len() as int).len() == 0 {
        assert(t =~= t.take(p.len() as int));
    }
}

/// A lone `*` matches every text.
pub proof fn law_star_matches_all(t: Seq<char>)
    ensures
        wild(star(), t),
{
    assert(star() + seq![] =~= star());
    assert(t.skip(t.len() as int) =~= Seq::<char>::empty());
    lemma_star_intro(seq![], t, t.len() as int);
}


/// `t` is `ps[0] w1 ps[1] … wk ps[k]` for some texts `w1 … wk`, each
/// possibly empty.
pub open spec fn star_fill(ps: Seq<Seq<char>>, t: Seq<char>) -> bool
    decreases ps.len(),
{
    if ps.len() <= 1 {
        ps.len() == 1 && t == ps[0]
    } else {
        starts_with(t, ps[0]) && exists|j: int|
            ps[0].len() <= j <= t.len() && star_fill(ps.drop_first(), #[trigger] t.skip(j))
    }
}

proof fn lemma_star_fill(ps: Seq<Seq<char>>, t: Seq<char>)
    requires
        ps.len() >= 1,
        forall|i: int| 0 <= i < ps.len() ==> no_char(#[trigger] ps[i], '*'),
    ensures
        wild(join(ps, star()), t) == star_fill(ps, t),
    decreases ps.len(),
{
    if ps.len() == 1 {
        law_plain_pattern_is_exact(ps[0], t);
    } else {
        let q = ps[0];
        let rs = ps.drop_first();
        let r = join(rs, star());
        assert forall|i: int| 0 <= i < rs.len() implies no_char(#[trigger] rs[i], '*') by {
            assert(rs[i] == ps[i + 1]);
        }
        lemma_join_front(ps, star());
        assert(q + star() + r =~= q + (star() + r));
        lemma_wild_literal(q, star() + r, t);
        if wild(join(ps, star()), t) {
            let u = t.skip(q.len() as int);
            let k = lemma_star_elim(r, u);
            let j = q.len() + k;
            assert(u.skip(k) =~= t.skip(j));
            lemma_star_fill(rs, t.skip(j));
            assert(star_fill(rs, t.skip(j)));
        }
        if star_fill(ps, t) {
            let j = choose|j: int| q.len() <= j <= t.len() && star_fill(rs, #[trigger] t.skip(j));
            let u = t.skip(q.len() as int);
            let k = j - q.len();
            assert(u.skip(k) =~= t.skip(j));
            lemma_star_fill(rs, t.skip(j));
            lemma_star_intro(r, u, k);
        }
    }
}

/// A rule matches a command exactly when the command is the rule's pieces
/// between `*`s, in order, with any text (maybe none) where each `*`
/// stands.
pub proof fn law_rule_pieces(p: Seq<char>, t: Seq<char>)
    ensures
        wild(p, t) == star_fill(split_on(p, '*'), t),
{
    lemma_split_scan(p, '*');
    assert(seq!['*'] =~= star());
    lemma_star_fill(split_on(p, '*'), t);
}

} // verus!
