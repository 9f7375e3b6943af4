//! Character-level text primitives shared by the parsers of this crate.
//!
//! Text is modelled as `Seq<char>` (the view of `str` and `String`). The
//! spec functions here describe the standard-library behaviours the
//! parsers rely on (`trim`, `split_whitespace`, `lines`, `find`), and the
//! executable functions compute them over `Vec<char>`.
use vstd::prelude::*;

verus! {

broadcast use vstd::string::group_string_axioms;

// ───────────────────────── spec vocabulary ─────────────────────────

/// Unicode `White_Space` (what `char::is_whitespace` tests).
pub open spec fn is_ws(c: char) -> bool {
    let u = c as u32;
    ||| (9 <= u && u <= 13)
    ||| u == 32
    ||| u == 0x85
    ||| u == 0xa0
    ||| u == 0x1680
    ||| (0x2000 <= u && u <= 0x200a)
    ||| u == 0x2028
    ||| u == 0x2029
    ||| u == 0x202f
    ||| u == 0x205f
    ||| u == 0x3000
}

/// `s` with its leading whitespace removed.
pub open spec fn trim_start(s: Seq<char>) -> Seq<char>
    decreases s.len(),
{
    if s.len() > 0 && is_ws(s[0]) {
        trim_start(s.drop_first())
    } else {
        s
    }
}

/// `s` with its trailing whitespace removed.
pub open spec fn trim_end(s: Seq<char>) -> Seq<char>
    decreases s.len(),
{
    if s.len() > 0 && is_ws(s.last()) {
        trim_end(s.drop_last())
    } else {
        s
    }
}

/// `str::trim`.
pub open spec fn trim(s: Seq<char>) -> Seq<char> {
    trim_end(trim_start(s))
}

/// Scanner state of `split_whitespace` after reading `s`: the finished
/// words and the word being read.
pub open spec fn word_scan(s: Seq<char>) -> (Seq<Seq<char>>, Seq<char>)
    decreases s.len(),
{
    if s.len() == 0 {
        (seq![], seq![])
    } else {
        let (done, cur) = word_scan(s.drop_last());
        let c = s.last();
        if is_ws(c) {
            if cur.len() > 0 {
                (done.push(cur), seq![])
            } else {
                (done, cur)
            }
        } else {
            (done, cur.push(c))
        }
    }
}

/// `str::split_whitespace`: the maximal runs of non-whitespace characters.
pub open spec fn words(s: Seq<char>) -> Seq<Seq<char>> {
    let (done, cur) = word_scan(s);
    if cur.len() > 0 {
        done.push(cur)
    } else {
        done
    }
}

/// `s` without one trailing carriage return, if it has one.
pub open spec fn strip_cr(s: Seq<char>) -> Seq<char> {
    if s.len() > 0 && s.last() == '\r' {
        s.drop_last()
    } else {
        s
    }
}

/// Scanner state of `str::lines` after reading `s`.
pub open spec fn line_scan(s: Seq<char>) -> (Seq<Seq<char>>, Seq<char>)
    decreases s.len(),
{
    if s.len() == 0 {
        (seq![], seq![])
    } else {
        let (done, cur) = line_scan(s.drop_last());
        let c = s.last();
        if c == '\n' {
            (done.push(strip_cr(cur)), seq![])
        } else {
            (done, cur.push(c))
        }
    }
}

/// `str::lines`: lines split at `\n`, a `\r` before the `\n` removed, no
/// empty final line after a trailing `\n`.
pub open spec fn lines(s: Seq<char>) -> Seq<Seq<char>> {
    let (done, cur) = line_scan(s);
    if cur.len() > 0 {
        done.push(cur)
    } else {
        done
    }
}

/// `s` begins with `p`.
pub open spec fn starts_with(s: Seq<char>, p: Seq<char>) -> bool {
    p.len() <= s.len() && s.take(p.len() as int) == p
}

/// `s` ends with `p`.
pub open spec fn ends_with(s: Seq<char>, p: Seq<char>) -> bool {
    p.len() <= s.len() && s.skip(s.len() - p.len()) == p
}

/// `p` occurs in `s` at position `i`.
pub open spec fn occurs_at(s: Seq<char>, p: Seq<char>, i: int) -> bool {
    0 <= i && i + p.len() <= s.len() && s.subrange(i, i + p.len()) == p
}

/// The first position at or after `from` where `p` occurs in `s`.
pub open spec fn find_from(s: Seq<char>, p: Seq<char>, from: int) -> Option<int>
    decreases s.len() + 1 - from,
{
    if from < 0 || from + p.len() > s.len() {
        None
    } else if occurs_at(s, p, from) {
        Some(from)
    } else {
        find_from(s, p, from + 1)
    }
}

/// `str::find`: the first position where `p` occurs in `s`.
pub open spec fn find(s: Seq<char>, p: Seq<char>) -> Option<int> {
    find_from(s, p, 0)
}

/// The first position of character `c` in `s`.
pub open spec fn find_char(s: Seq<char>, c: char) -> Option<int> {
    find(s, seq![c])
}

/// `s` with every occurrence of `c` removed.
pub open spec fn remove_char(s: Seq<char>, c: char) -> Seq<char>
    decreases s.len(),
{
    if s.len() == 0 {
        s
    } else if s.last() == c {
        remove_char(s.drop_last(), c)
    } else {
        remove_char(s.drop_last(), c).push(s.last())
    }
}

/// `s` with all leading and trailing `c` removed (`trim_matches(c)`).
pub open spec fn trim_char_start(s: Seq<char>, c: char) -> Seq<char>
    decreases s.len(),
{
    if s.len() > 0 && s[0] == c {
        trim_char_start(s.drop_first(), c)
    } else {
        s
    }
}

pub open spec fn trim_char_end(s: Seq<char>, c: char) -> Seq<char>
    decreases s.len(),
{
    if s.len() > 0 && s.last() == c {
        trim_char_end(s.drop_last(), c)
    } else {
        s
    }
}

pub open spec fn trim_matches(s: Seq<char>, c: char) -> Seq<char> {
    trim_char_end(trim_char_start(s, c), c)
}

/// The parts joined with `sep` in between (`[T]::join`).
pub open spec fn join(parts: Seq<Seq<char>>, sep: Seq<char>) -> Seq<char>
    decreases parts.len(),
{
    if parts.len() == 0 {
        seq![]
    } else if parts.len() == 1 {
        parts[0]
    } else {
        join(parts.drop_last(), sep) + sep + parts.last()
    }
}

/// The views of a vector of character vectors.
pub open spec fn views(v: Seq<Vec<char>>) -> Seq<Seq<char>> {
    v.map_values(|x: Vec<char>| x@)
}

/// The views of a vector of strings.
pub open spec fn string_views(v: Seq<String>) -> Seq<Seq<char>> {
    v.map_values(|x: String| x@)
}

/// The view of an optional string.
pub open spec fn opt_view(o: Option<String>) -> Option<Seq<char>> {
    match o {
        Some(s) => Some(s@),
        None => None,
    }
}

// ───────────────────────── lemmas ─────────────────────────

pub proof fn lemma_trim_start_suffix(s: Seq<char>, i: int)
    requires
        0 <= i < s.len(),
        is_ws(s[i]),
    ensures
        trim_start(s.subrange(i, s.len() as int)) == trim_start(s.subrange(i + 1, s.len() as int)),
{
    let t = s.subrange(i, s.len() as int);
    assert(t.drop_first() =~= s.subrange(i + 1, s.len() as int));
}

pub proof fn lemma_trim_end_prefix(s: Seq<char>, j: int)
    requires
        0 < j <= s.len(),
        is_ws(s[j - 1]),
    ensures
        trim_end(s.take(j)) == trim_end(s.take(j - 1)),
{
    assert(s.take(j).drop_last() =~= s.take(j - 1));
}

pub proof fn lemma_trim_start_is_suffix(s: Seq<char>)
    ensures
        trim_start(s).len() <= s.len(),
        trim_start(s) =~= s.skip(s.len() - trim_start(s).len()),
        trim_start(s).len() > 0 ==> !is_ws(trim_start(s)[0]),
        forall|k: int| 0 <= k < s.len() - trim_start(s).len() ==> is_ws(#[trigger] s[k]),
    decreases s.len(),
{
    if s.len() > 0 && is_ws(s[0]) {
        lemma_trim_start_is_suffix(s.drop_first());
        assert forall|k: int| 0 <= k < s.len() - trim_start(s).len() implies is_ws(#[trigger] s[k]) by {
            if k > 0 {
                assert(s[k] == s.drop_first()[k - 1]);
            }
        }
    }
}

pub proof fn lemma_trim_end_is_prefix(s: Seq<char>)
    ensures
        trim_end(s).len() <= s.len(),
        trim_end(s) =~= s.take(trim_end(s).len() as int),
        trim_end(s).len() > 0 ==> !is_ws(trim_end(s).last()),
        forall|k: int| trim_end(s).len() <= k < s.len() ==> is_ws(#[trigger] s[k]),
    decreases s.len(),
{
    if s.len() > 0 && is_ws(s.last()) {
        lemma_trim_end_is_prefix(s.drop_last());
        assert forall|k: int| trim_end(s).len() <= k < s.len() implies is_ws(#[trigger] s[k]) by {
            if k < s.len() - 1 {
                assert(s[k] == s.drop_last()[k]);
            }
        }
    }
}

/// A word scan of `a` followed by whitespace then `w` (non-empty, no
/// whitespace) leaves `w` as the word being read.
pub proof fn lemma_word_scan_append_word(a: Seq<char>, w: Seq<char>, k: int)
    requires
        0 < k <= w.len(),
        a.len() > 0,
        is_ws(a.last()),
        forall|i: int| 0 <= i < w.len() ==> !is_ws(#[trigger] w[i]),
    ensures
        word_scan(a + w.take(k)) == (word_scan(a).0, w.take(k)) || (word_scan(a).1.len() == 0
            && word_scan(a + w.take(k)) == (word_scan(a).0, w.take(k))),
        word_scan(a).1.len() == 0,
    decreases k,
{
    assert(word_scan(a).1.len() == 0) by {
        let (d, c) = word_scan(a.drop_last());
        assert(a.drop_last() + seq![a.last()] =~= a);
    }
    let s = a + w.take(k);
    assert(s.drop_last() =~= a + w.take(k - 1));
    assert(s.last() == w[k - 1]);
    if k == 1 {
        assert(a + w.take(0) =~= a);
        assert(seq![w[0]] =~= w.take(1));
    } else {
        lemma_word_scan_append_word(a, w, k - 1);
        assert(w.take(k - 1).push(w[k - 1]) =~= w.take(k));
    }
}

/// Word scan of a single non-empty whitespace-free word.
pub proof fn lemma_word_scan_single(w: Seq<char>, k: int)
    requires
        0 <= k <= w.len(),
        forall|i: int| 0 <= i < w.len() ==> !is_ws(#[trigger] w[i]),
    ensures
        word_scan(w.take(k)) == (Seq::<Seq<char>>::empty(), w.take(k)),
    decreases k,
{
    if k == 0 {
        assert(w.take(0) =~= Seq::<char>::empty());
    } else {
        lemma_word_scan_single(w, k - 1);
        assert(w.take(k).drop_last() =~= w.take(k - 1));
        assert(w.take(k - 1).push(w[k - 1]) =~= w.take(k));
    }
}

/// Joining whitespace-free non-empty words with single spaces and
/// splitting the result at whitespace gives the words back.
pub proof fn lemma_words_of_join(ws: Seq<Seq<char>>)
    requires
        forall|i: int| 0 <= i < ws.len() ==> (#[trigger] ws[i]).len() > 0,
        forall|i: int, j: int| 0 <= i < ws.len() && 0 <= j < ws[i].len() ==> !is_ws(#[trigger] ws[i][j]),
    ensures
        words(join(ws, seq![' '])) == ws,
        word_scan(join(ws, seq![' '])) == (if ws.len() == 0 {
            (Seq::<Seq<char>>::empty(), Seq::<char>::empty())
        } else {
            (ws.drop_last(), ws.last())
        }),
    decreases ws.len(),
{
    if ws.len() == 0 {
        assert(words(join(ws, seq![' '])) =~= ws);
    } else if ws.len() == 1 {
        let w = ws[0];
        assert forall|i: int| 0 <= i < w.len() implies !is_ws(#[trigger] w[i]) by {
            assert(!is_ws(ws[0][i]));
        }
        lemma_word_scan_single(w, w.len() as int);
        assert(w.take(w.len() as int) =~= w);
        assert(ws.drop_last() =~= Seq::<Seq<char>>::empty());
        assert(words(join(ws, seq![' '])) =~= ws);
    } else {
        let pre = ws.drop_last();
        assert forall|i: int| 0 <= i < pre.len() implies (#[trigger] pre[i]).len() > 0 by {
            assert(pre[i] == ws[i]);
        }
        assert forall|i: int, j: int| 0 <= i < pre.len() && 0 <= j < pre[i].len() implies !is_ws(
            #[trigger] pre[i][j],
        ) by {
            assert(pre[i] == ws[i]);
        }
        lemma_words_of_join(pre);
        let jp = join(pre, seq![' ']);
        let a = jp + seq![' '];
        let w = ws.last();
        assert forall|i: int| 0 <= i < w.len() implies !is_ws(#[trigger] w[i]) by {
            assert(!is_ws(ws[ws.len() - 1][i]));
        }
        // scanning the space finishes the last word of `pre`
        assert(a.drop_last() =~= jp);
        assert(word_scan(a) == (pre.drop_last().push(pre.last()), Seq::<char>::empty()));
        assert(pre.drop_last().push(pre.last()) =~= pre);
        lemma_word_scan_append_word(a, w, w.len() as int);
        assert(w.take(w.len() as int) =~= w);
        assert(join(ws, seq![' ']) =~= a + w);
        assert(words(join(ws, seq![' '])) =~= pre.push(w));
        assert(pre.push(w) =~= ws);
    }
}

// ───────────────────────── executable primitives ─────────────────────────

/// `String::push`: the string gains the character at its end, as the
/// standard library documents.
#[verifier::external_body]
pub(crate) fn push_char(s: &mut String, c: char)
    ensures
        final(s)@ == old(s)@.push(c),
{
    s.push(c);
}

/// The characters of a string slice, in order.
pub fn chars_of(s: &str) -> (r: Vec<char>)
    ensures
        r@ == s@,
{
    let mut out: Vec<char> = Vec::new();
    for c in it: s.chars()
        invariant
            out@ == it.seq().take(it.index() as int),
    {
        out.push(c);
    }
    out
}

/// A string holding the characters of `v[lo..hi]`.
pub fn string_of_range(v: &Vec<char>, lo: usize, hi: usize) -> (r: String)
    requires
        lo <= hi <= v.len(),
    ensures
        r@ == v@.subrange(lo as int, hi as int),
{
    let mut s = String::new();
    let mut i = lo;
    while i < hi
        invariant
            lo <= i <= hi <= v.len(),
            s@ == v@.subrange(lo as int, i as int),
        decreases hi - i,
    {
        push_char(&mut s, v[i]);
        i = i + 1;
        assert(s@ =~= v@.subrange(lo as int, i as int));
    }
    s
}

/// A string holding the characters of `v`.
pub fn string_of(v: &Vec<char>) -> (r: String)
    ensures
        r@ == v@,
{
    let r = string_of_range(v, 0, v.len());
    assert(v@.subrange(0, v@.len() as int) =~= v@);
    r
}

/// The characters of `v[lo..hi]`.
pub fn slice_of(v: &Vec<char>, lo: usize, hi: usize) -> (r: Vec<char>)
    requires
        lo <= hi <= v.len(),
    ensures
        r@ == v@.subrange(lo as int, hi as int),
{
    let mut out: Vec<char> = Vec::new();
    let mut i = lo;
    while i < hi
        invariant
            lo <= i <= hi <= v.len(),
            out@ == v@.subrange(lo as int, i as int),
        decreases hi - i,
    {
        out.push(v[i]);
        i = i + 1;
        assert(out@ =~= v@.subrange(lo as int, i as int));
    }
    out
}

/// Appends the characters of `src` to `dst`.
pub fn append_chars(dst: &mut Vec<char>, src: &Vec<char>)
    ensures
        final(dst)@ == old(dst)@ + src@,
{
    let mut i: usize = 0;
    while i < src.len()
        invariant
            i <= src.len(),
            dst@ == old(dst)@ + src@.take(i as int),
        decreases src.len() - i,
    {
        dst.push(src[i]);
        i = i + 1;
        assert(dst@ =~= old(dst)@ + src@.take(i as int));
    }
    assert(src@.take(src.len() as int) =~= src@);
}

/// Appends the characters of `src` to the string `dst`.
pub fn append_str_chars(dst: &mut String, src: &Vec<char>)
    ensures
        final(dst)@ == old(dst)@ + src@,
{
    let mut i: usize = 0;
    while i < src.len()
        invariant
            i <= src.len(),
            dst@ == old(dst)@ + src@.take(i as int),
        decreases src.len() - i,
    {
        push_char(dst, src[i]);
        i = i + 1;
        assert(dst@ =~= old(dst)@ + src@.take(i as int));
    }
    assert(src@.take(src.len() as int) =~= src@);
}

/// Appends a string slice to a string.
pub fn append_str(dst: &mut String, src: &str)
    ensures
        final(dst)@ == old(dst)@ + src@,
{
    let v = chars_of(src);
    append_str_chars(dst, &v);
}

/// `char::is_whitespace`.
pub fn is_ws_char(c: char) -> (r: bool)
    ensures
        r == is_ws(c),
{
    let u = c as u32;
    (9 <= u && u <= 13) || u == 32 || u == 0x85 || u == 0xa0 || u == 0x1680 || (0x2000 <= u && u
        <= 0x200a) || u == 0x2028 || u == 0x2029 || u == 0x202f || u == 0x205f || u == 0x3000
}

/// Equality of two character sequences.
pub fn chars_eq(a: &Vec<char>, b: &Vec<char>) -> (r: bool)
    ensures
        r == (a@ == b@),
{
    if a.len() != b.len() {
        return false;
    }
    let mut i: usize = 0;
    while i < a.len()
        invariant
            a.len() == b.len(),
            i <= a.len(),
            forall|k: int| 0 <= k < i ==> a@[k] == b@[k],
        decreases a.len() - i,
    {
        if a[i] != b[i] {
            return false;
        }
        i = i + 1;
    }
    assert(a@ =~= b@);
    true
}

/// Whether the characters of `a` spell out the string slice `b`.
pub fn chars_eq_str(a: &Vec<char>, b: &str) -> (r: bool)
    ensures
        r == (a@ == b@),
{
    let bv = chars_of(b);
    chars_eq(a, &bv)
}

/// Whether `p` occurs in `s` at `i`.
pub fn occurs_at_exec(s: &Vec<char>, p: &Vec<char>, i: usize) -> (r: bool)
    ensures
        r == occurs_at(s@, p@, i as int),
{
    if i > s.len() || p.len() > s.len() - i {
        return false;
    }
    let mut k: usize = 0;
    while k < p.len()
        invariant
            i + p.len() <= s.len(),
            k <= p.len(),
            forall|m: int| 0 <= m < k ==> s@[i + m] == p@[m],
        decreases p.len() - k,
    {
        if s[i + k] != p[k] {
            assert(s@.subrange(i as int, i + p.len())[k as int] != p@[k as int]);
            return false;
        }
        k = k + 1;
    }
    assert(s@.subrange(i as int, i + p.len()) =~= p@);
    true
}

/// `starts_with`.
pub fn starts_with_exec(s: &Vec<char>, p: &Vec<char>) -> (r: bool)
    ensures
        r == starts_with(s@, p@),
{
    let r = occurs_at_exec(s, p, 0);
    assert(s@.subrange(0, p@.len() as int) =~= s@.take(p@.len() as int));
    r
}

/// `starts_with` against a string slice.
pub fn starts_with_str(s: &Vec<char>, p: &str) -> (r: bool)
    ensures
        r == starts_with(s@, p@),
{
    let pv = chars_of(p);
    starts_with_exec(s, &pv)
}

/// `ends_with`.
pub fn ends_with_exec(s: &Vec<char>, p: &Vec<char>) -> (r: bool)
    ensures
        r == ends_with(s@, p@),
{
    if p.len() > s.len() {
        return false;
    }
    let r = occurs_at_exec(s, p, s.len() - p.len());
    assert(s@.subrange(s@.len() - p@.len(), s@.len() as int) =~= s@.skip(s@.len() - p@.len()));
    r
}

/// The first position at or after `from` where `p` occurs in `s`.
pub fn find_from_exec(s: &Vec<char>, p: &Vec<char>, from: usize) -> (r: Option<usize>)
    ensures
        match r {
            Some(i) => find_from(s@, p@, from as int) == Some(i as int) && occurs_at(s@, p@, i as int) && from <= i,
            None => find_from(s@, p@, from as int) is None,
        },
{
    if from > s.len() || p.len() > s.len() - from {
        return None;
    }
    let mut i = from;
    loop
        invariant
            from <= i <= s.len() - p.len(),
            p.len() <= s.len(),
            find_from(s@, p@, from as int) == find_from(s@, p@, i as int),
        decreases s.len() - i,
    {
        if occurs_at_exec(s, p, i) {
            return Some(i);
        }
        if i >= s.len() - p.len() {
            assert(find_from(s@, p@, i + 1) is None);
            return None;
        }
        i = i + 1;
    }
}

/// The first position where `p` occurs in `s`.
pub fn find_exec(s: &Vec<char>, p: &Vec<char>) -> (r: Option<usize>)
    ensures
        match r {
            Some(i) => find(s@, p@) == Some(i as int) && occurs_at(s@, p@, i as int),
            None => find(s@, p@) is None,
        },
{
    find_from_exec(s, p, 0)
}

/// Bounds `(lo, hi)` of `trim(v)` inside `v`.
pub fn trim_bounds(v: &Vec<char>) -> (r: (usize, usize))
    ensures
        r.0 <= r.1 <= v.len(),
        v@.subrange(r.0 as int, r.1 as int) == trim(v@),
        trim_start(v@) == v@.subrange(r.0 as int, v.len() as int),
{
    let mut i: usize = 0;
    assert(v@.subrange(0, v.len() as int) =~= v@);
    while i < v.len() && is_ws_char(v[i])
        invariant
            i <= v.len(),
            trim_start(v@) == trim_start(v@.subrange(i as int, v.len() as int)),
        decreases v.len() - i,
    {
        proof {
            lemma_trim_start_suffix(v@, i as int);
        }
        i = i + 1;
    }
    let ghost t = v@.subrange(i as int, v.len() as int);
    assert(trim_start(t) == t);
    let mut j: usize = v.len();
    assert(t.take(t.len() as int) =~= t);
    while j > i && is_ws_char(v[j - 1])
        invariant
            i <= j <= v.len(),
            t == v@.subrange(i as int, v.len() as int),
            trim_end(t) == trim_end(t.take(j - i)),
        decreases j,
    {
        proof {
            lemma_trim_end_prefix(t, (j - i) as int);
        }
        j = j - 1;
    }
    assert(t.take(j - i) =~= v@.subrange(i as int, j as int));
    (i, j)
}

/// `str::trim` over characters.
pub fn trim_chars(v: &Vec<char>) -> (r: Vec<char>)
    ensures
        r@ == trim(v@),
{
    let (lo, hi) = trim_bounds(v);
    slice_of(v, lo, hi)
}

/// `str::trim` returning a string.
pub fn trim_string(v: &Vec<char>) -> (r: String)
    ensures
        r@ == trim(v@),
{
    let (lo, hi) = trim_bounds(v);
    string_of_range(v, lo, hi)
}

/// `str::split_whitespace` over characters.
pub fn split_words(v: &Vec<char>) -> (r: Vec<Vec<char>>)
    ensures
        views(r@) == words(v@),
{
    let mut done: Vec<Vec<char>> = Vec::new();
    let mut cur: Vec<char> = Vec::new();
    let mut i: usize = 0;
    while i < v.len()
        invariant
            i <= v.len(),
            (views(done@), cur@) == word_scan(v@.take(i as int)),
        decreases v.len() - i,
    {
        let c = v[i];
        assert(v@.take(i + 1).drop_last() =~= v@.take(i as int));
        if is_ws_char(c) {
            if cur.len() > 0 {
                let w = cur;
                done.push(w);
                cur = Vec::new();
                assert(views(done@) =~= word_scan(v@.take(i as int)).0.push(w@));
            }
        } else {
            cur.push(c);
        }
        i = i + 1;
    }
    assert(v@.take(v.len() as int) =~= v@);
    if cur.len() > 0 {
        let w = cur;
        done.push(w);
        assert(views(done@) =~= word_scan(v@).0.push(w@));
    }
    done
}

/// `str::lines` over characters.
pub fn split_lines(v: &Vec<char>) -> (r: Vec<Vec<char>>)
    ensures
        views(r@) == lines(v@),
{
    let mut done: Vec<Vec<char>> = Vec::new();
    let mut cur: Vec<char> = Vec::new();
    let mut i: usize = 0;
    while i < v.len()
        invariant
            i <= v.len(),
            (views(done@), cur@) == line_scan(v@.take(i as int)),
        decreases v.len() - i,
    {
        let c = v[i];
        assert(v@.take(i + 1).drop_last() =~= v@.take(i as int));
        if c == '\n' {
            let n = cur.len();
            let w = if n > 0 && cur[n - 1] == '\r' {
                slice_of(&cur, 0, n - 1)
            } else {
                cur
            };
            assert(cur@.len() > 0 && cur@.last() == '\r' ==> cur@.subrange(0, n - 1) =~= cur@.drop_last());
            done.push(w);
            cur = Vec::new();
            assert(views(done@) =~= line_scan(v@.take(i as int)).0.push(w@));
        } else {
            cur.push(c);
        }
        i = i + 1;
    }
    assert(v@.take(v.len() as int) =~= v@);
    if cur.len() > 0 {
        let w = cur;
        done.push(w);
        assert(views(done@) =~= line_scan(v@).0.push(w@));
    }
    done
}

/// The parts joined with `sep`.
pub fn join_chars(parts: &Vec<Vec<char>>, sep: &Vec<char>) -> (r: Vec<char>)
    ensures
        r@ == join(views(parts@), sep@),
{
    let mut out: Vec<char> = Vec::new();
    let mut i: usize = 0;
    while i < parts.len()
        invariant
            i <= parts.len(),
            out@ == join(views(parts@.take(i as int)), sep@),
        decreases parts.len() - i,
    {
        if i > 0 {
            append_chars(&mut out, sep);
        }
        append_chars(&mut out, &parts[i]);
        assert(views(parts@.take(i + 1)).drop_last() =~= views(parts@.take(i as int)));
        assert(views(parts@.take(i + 1)).last() == parts@[i as int]@);
        i = i + 1;
        assert(i == 1 ==> views(parts@.take(1)) =~= seq![parts@[0]@]);
    }
    assert(parts@.take(parts.len() as int) =~= parts@);
    out
}

/// `parts[lo..hi]` joined with `sep`.
pub fn join_range(parts: &Vec<Vec<char>>, lo: usize, hi: usize, sep: &Vec<char>) -> (r: Vec<char>)
    requires
        lo <= hi <= parts.len(),
    ensures
        r@ == join(views(parts@).subrange(lo as int, hi as int), sep@),
{
    let ghost all = views(parts@);
    let mut out: Vec<char> = Vec::new();
    let mut i: usize = lo;
    while i < hi
        invariant
            lo <= i <= hi <= parts.len(),
            all == views(parts@),
            out@ == join(all.subrange(lo as int, i as int), sep@),
        decreases hi - i,
    {
        if i > lo {
            append_chars(&mut out, sep);
        }
        append_chars(&mut out, &parts[i]);
        assert(all.subrange(lo as int, i + 1).drop_last() =~= all.subrange(lo as int, i as int));
        assert(all.subrange(lo as int, i + 1).last() == parts@[i as int]@);
        i = i + 1;
        assert(i == lo + 1 ==> all.subrange(lo as int, i as int) =~= seq![parts@[lo as int]@]);
    }
    out
}

/// `s` with every `c` removed (`str::replace(c, "")`).
pub fn remove_char_exec(v: &Vec<char>, c: char) -> (r: Vec<char>)
    ensures
        r@ == remove_char(v@, c),
{
    let mut out: Vec<char> = Vec::new();
    let mut i: usize = 0;
    while i < v.len()
        invariant
            i <= v.len(),
            out@ == remove_char(v@.take(i as int), c),
        decreases v.len() - i,
    {
        assert(v@.take(i + 1).drop_last() =~= v@.take(i as int));
        if v[i] != c {
            out.push(v[i]);
        }
        i = i + 1;
    }
    assert(v@.take(v.len() as int) =~= v@);
    out
}

/// `trim_matches(c)` over characters.
pub fn trim_matches_exec(v: &Vec<char>, c: char) -> (r: Vec<char>)
    ensures
        r@ == trim_matches(v@, c),
{
    let mut i: usize = 0;
    assert(v@.subrange(0, v.len() as int) =~= v@);
    while i < v.len() && v[i] == c
        invariant
            i <= v.len(),
            trim_char_start(v@, c) == trim_char_start(v@.subrange(i as int, v.len() as int), c),
        decreases v.len() - i,
    {
        assert(v@.subrange(i as int, v.len() as int).drop_first() =~= v@.subrange(i + 1, v.len() as int));
        i = i + 1;
    }
    let ghost t = v@.subrange(i as int, v.len() as int);
    let mut j: usize = v.len();
    assert(t.take(t.len() as int) =~= t);
    while j > i && v[j - 1] == c
        invariant
            i <= j <= v.len(),
            t == v@.subrange(i as int, v.len() as int),
            trim_char_end(t, c) == trim_char_end(t.take(j - i), c),
        decreases j,
    {
        assert(t.take(j - i).drop_last() =~= t.take(j - i - 1));
        j = j - 1;
    }
    assert(t.take(j - i) =~= v@.subrange(i as int, j as int));
    slice_of(v, i, j)
}


/// The strings joined with `sep` between them.
pub fn join_strings(parts: &Vec<String>, sep: &str) -> (r: String)
    ensures
        r@ == join(string_views(parts@), sep@),
{
    let mut out = String::new();
    let mut i: usize = 0;
    while i < parts.len()
        invariant
            i <= parts.len(),
            out@ == join(string_views(parts@).take(i as int), sep@),
        decreases parts.len() - i,
    {
        let ghost before = out@;
        if i > 0 {
            append_str(&mut out, sep);
        }
        append_str(&mut out, parts[i].as_str());
        proof {
            let t = string_views(parts@).take(i + 1);
            assert(t.drop_last() =~= string_views(parts@).take(i as int));
            assert(t.last() == parts@[i as int]@);
            if i == 0 {
                assert(out@ =~= t[0]);
            }
        }
        i = i + 1;
    }
    assert(string_views(parts@).take(parts.len() as int) =~= string_views(parts@));
    out
}

/// Whether a string holds only whitespace.
pub fn is_blank(s: &str) -> (r: bool)
    ensures
        r == (trim(s@).len() == 0),
{
    let v = chars_of(s);
    let t = trim_chars(&v);
    t.len() == 0
}

/// A string with the whitespace at both ends removed.
pub fn trimmed(s: &str) -> (r: String)
    ensures
        r@ == trim(s@),
{
    let v = chars_of(s);
    trim_string(&v)
}

} // verus!
