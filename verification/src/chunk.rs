//! Rolling-window chunker used to slice assistant/user messages into
//! embeddable pieces. Approximates tokens by whitespace-separated words.
use vstd::prelude::*;
use crate::text::{chars_of, is_ws, join, join_range, lemma_words_of_join, split_words, views, word_scan, words};

verus! {

pub const WINDOW_TOKENS: usize = 500;
pub const OVERLAP_TOKENS: usize = 50;

/// One embeddable piece of a message.
pub struct ChunkSlice {
    pub text: String,
    pub token_count: usize,
}

/// The windows of `ts` from `start` on: each covers `WINDOW_TOKENS` words
/// (fewer for the last one), and each starts `WINDOW_TOKENS -
/// OVERLAP_TOKENS` words after the one before. Each window is given as
/// its words joined by single spaces and its word count.
pub open spec fn windows(ts: Seq<Seq<char>>, start: int) -> Seq<(Seq<char>, nat)>
    decreases ts.len() - start,
{
    if start < 0 || start >= ts.len() {
        seq![]
    } else {
        let end = if start + 500 <= ts.len() { start + 500 } else { ts.len() as int };
        let here = (join(ts.subrange(start, end), seq![' ']), (end - start) as nat);
        if end == ts.len() {
            seq![here]
        } else {
            seq![here] + windows(ts, start + 450)
        }
    }
}

/// What `split` returns for `input`: no chunk for blank input, the input
/// itself when it has at most one window of words, the windows otherwise.
pub open spec fn chunks_of(input: Seq<char>) -> Seq<(Seq<char>, nat)> {
    let ts = words(input);
    if ts.len() == 0 {
        seq![]
    } else if ts.len() <= 500 {
        seq![(input, ts.len())]
    } else {
        windows(ts, 0)
    }
}

impl ChunkSlice {
    pub open spec fn view(&self) -> (Seq<char>, nat) {
        (self.text@, self.token_count as nat)
    }
}

pub open spec fn chunk_views(cs: Seq<ChunkSlice>) -> Seq<(Seq<char>, nat)> {
    cs.map_values(|c: ChunkSlice| c.view())
}

/// Split `input` into overlapping ~500-token windows. Inputs shorter than
/// one window produce a single chunk. Empty input produces no chunks.
pub fn split(input: &str) -> (r: Vec<ChunkSlice>)
    ensures
        chunk_views(r@) == chunks_of(input@),
{
    let chars = chars_of(input);
    let tokens = split_words(&chars);
    let ghost ts = views(tokens@);
    if tokens.len() == 0 {
        let r: Vec<ChunkSlice> = Vec::new();
        assert(chunk_views(r@) =~= chunks_of(input@));
        return r;
    }
    if tokens.len() <= WINDOW_TOKENS {
        let mut r: Vec<ChunkSlice> = Vec::new();
        r.push(ChunkSlice { text: input.to_owned(), token_count: tokens.len() });
        assert(chunk_views(r@) =~= chunks_of(input@));
        return r;
    }
    let n = tokens.len();
    let sep = chars_of(" ");
    proof {
        reveal_strlit(" ");
        assert(sep@ =~= seq![' ']);
    }
    let mut out: Vec<ChunkSlice> = Vec::new();
    let step = WINDOW_TOKENS - OVERLAP_TOKENS;
    let mut start: usize = 0;
    loop
        invariant_except_break
            chunk_views(out@) + windows(ts, start as int) == windows(ts, 0),
        invariant
            n == tokens.len(),
            ts == views(tokens@),
            n > 500,
            start < n,
            sep@ == seq![' '],
            step == 450,
        ensures
            chunk_views(out@) == windows(ts, 0),
        decreases n - start,
    {
        let end = if n - start >= WINDOW_TOKENS { start + WINDOW_TOKENS } else { n };
        let text_chars = join_range(&tokens, start, end, &sep);
        let text = crate::text::string_of(&text_chars);
        let ghost old_out = chunk_views(out@);
        out.push(ChunkSlice { text, token_count: end - start });
        assert(chunk_views(out@) =~= old_out.push((join(ts.subrange(start as int, end as int), seq![' ']), (end - start) as nat)));
        if end == n {
            assert(chunk_views(out@) =~= windows(ts, 0));
            break;
        }
        assert(chunk_views(out@) + windows(ts, start + 450) =~= old_out + windows(ts, start as int));
        start = start + step;
    }
    out
}

// ───────────────────────── reassembling chunks ─────────────────────────

/// The words of every chunk after the first, without the overlap.
pub open spec fn tail_words(texts: Seq<Seq<char>>) -> Seq<Seq<char>>
    decreases texts.len(),
{
    if texts.len() == 0 {
        seq![]
    } else {
        words(texts[0]).skip(50) + tail_words(texts.drop_first())
    }
}

/// The words of the first chunk followed by the new words of every later
/// chunk.
pub open spec fn reassemble(texts: Seq<Seq<char>>) -> Seq<Seq<char>> {
    if texts.len() == 0 {
        seq![]
    } else {
        words(texts[0]) + tail_words(texts.drop_first())
    }
}

pub open spec fn texts(cs: Seq<(Seq<char>, nat)>) -> Seq<Seq<char>> {
    cs.map_values(|c: (Seq<char>, nat)| c.0)
}

proof fn lemma_words_shape(s: Seq<char>)
    ensures
        forall|i: int| 0 <= i < words(s).len() ==> (#[trigger] words(s)[i]).len() > 0,
        forall|i: int, j: int| 0 <= i < words(s).len() && 0 <= j < words(s)[i].len() ==> !is_ws(#[trigger] words(s)[i][j]),
{
    lemma_word_scan_shape(s);
}

proof fn lemma_word_scan_shape(s: Seq<char>)
    ensures
        forall|i: int| 0 <= i < word_scan(s).0.len() ==> (#[trigger] word_scan(s).0[i]).len() > 0,
        forall|i: int, j: int| 0 <= i < word_scan(s).0.len() && 0 <= j < word_scan(s).0[i].len() ==> !is_ws(#[trigger] word_scan(s).0[i][j]),
        forall|j: int| 0 <= j < word_scan(s).1.len() ==> !is_ws(#[trigger] word_scan(s).1[j]),
        forall|i: int| 0 <= i < words(s).len() ==> (#[trigger] words(s)[i]).len() > 0,
        forall|i: int, j: int| 0 <= i < words(s).len() && 0 <= j < words(s)[i].len() ==> !is_ws(#[trigger] words(s)[i][j]),
    decreases s.len(),
{
    if s.len() > 0 {
        lemma_word_scan_shape(s.drop_last());
        let (d, c) = word_scan(s.drop_last());
        assert forall|j: int| 0 <= j < c.push(s.last()).len() && !is_ws(s.last()) implies !is_ws(#[trigger] c.push(s.last())[j]) by {
            if j < c.len() {
                assert(c.push(s.last())[j] == c[j]);
            }
        }
    }
    let (d, c) = word_scan(s);
    assert forall|i: int| 0 <= i < words(s).len() implies (#[trigger] words(s)[i]).len() > 0 by {
        if i < d.len() {
            assert(words(s)[i] == d[i]);
        }
    }
    assert forall|i: int, j: int| 0 <= i < words(s).len() && 0 <= j < words(s)[i].len() implies !is_ws(#[trigger] words(s)[i][j]) by {
        if i < d.len() {
            assert(words(s)[i] == d[i]);
        }
    }
}

proof fn lemma_window_words(ts: Seq<Seq<char>>, lo: int, hi: int)
    requires
        0 <= lo <= hi <= ts.len(),
        forall|i: int| 0 <= i < ts.len() ==> (#[trigger] ts[i]).len() > 0,
        forall|i: int, j: int| 0 <= i < ts.len() && 0 <= j < ts[i].len() ==> !is_ws(#[trigger] ts[i][j]),
    ensures
        words(join(ts.subrange(lo, hi), seq![' '])) == ts.subrange(lo, hi),
{
    let sub = ts.subrange(lo, hi);
    assert forall|i: int| 0 <= i < sub.len() implies (#[trigger] sub[i]).len() > 0 by {
        assert(sub[i] == ts[lo + i]);
    }
    assert forall|i: int, j: int| 0 <= i < sub.len() && 0 <= j < sub[i].len() implies !is_ws(#[trigger] sub[i][j]) by {
        assert(sub[i] == ts[lo + i]);
    }
    lemma_words_of_join(sub);
}

proof fn lemma_tail_windows(ts: Seq<Seq<char>>, s: int)
    requires
        0 <= s,
        s + 50 < ts.len(),
        forall|i: int| 0 <= i < ts.len() ==> (#[trigger] ts[i]).len() > 0,
        forall|i: int, j: int| 0 <= i < ts.len() && 0 <= j < ts[i].len() ==> !is_ws(#[trigger] ts[i][j]),
    ensures
        tail_words(texts(windows(ts, s))) == ts.subrange(s + 50, ts.len() as int),
    decreases ts.len() - s,
{
    let end = if s + 500 <= ts.len() { s + 500 } else { ts.len() as int };
    let w = texts(windows(ts, s));
    lemma_window_words(ts, s, end);
    assert(w[0] == join(ts.subrange(s, end), seq![' ']));
    assert(words(w[0]).skip(50) =~= ts.subrange(s + 50, end));
    if end == ts.len() {
        assert(w.drop_first() =~= Seq::<Seq<char>>::empty());
        assert(tail_words(w.drop_first()) =~= Seq::<Seq<char>>::empty());
        assert(tail_words(w) =~= ts.subrange(s + 50, ts.len() as int));
    } else {
        assert(w.drop_first() =~= texts(windows(ts, s + 450)));
        lemma_tail_windows(ts, s + 450);
        assert(tail_words(w) =~= ts.subrange(s + 50, ts.len() as int));
    }
}

/// Chunking loses no word: the words of the first chunk followed by the
/// words of each later chunk past its overlap are the words of the input.
pub proof fn law_chunks_lossless(input: Seq<char>)
    ensures
        reassemble(texts(chunks_of(input))) == words(input),
{
    let ts = words(input);
    lemma_words_shape(input);
    if ts.len() == 0 {
        assert(reassemble(texts(chunks_of(input))) =~= ts);
    } else if ts.len() <= 500 {
        let w = texts(chunks_of(input));
        assert(w =~= seq![input]);
        assert(w.drop_first() =~= Seq::<Seq<char>>::empty());
        assert(reassemble(w) =~= ts);
    } else {
        let w = texts(windows(ts, 0));
        lemma_window_words(ts, 0, 500);
        assert(w[0] == join(ts.subrange(0, 500), seq![' ']));
        assert(w.drop_first() =~= texts(windows(ts, 450)));
        lemma_tail_windows(ts, 450);
        assert(reassemble(w) =~= ts);
    }
}

/// Neighbouring windows share `OVERLAP_TOKENS` words: the last 50 words of
/// a window are the first 50 words of the next one.
pub proof fn law_windows_overlap(input: Seq<char>, i: int)
    requires
        words(input).len() > 500,
        0 <= i < chunks_of(input).len() - 1,
    ensures
        words(chunks_of(input)[i].0).skip(450) == words(chunks_of(input)[i + 1].0).take(50),
        words(chunks_of(input)[i].0).len() == 500,
{
    let ts = words(input);
    lemma_words_shape(input);
    lemma_windows_index(ts, 0, i);
    lemma_windows_index(ts, 0, i + 1);
    lemma_window_words(ts, 450 * i, 450 * i + 500);
    let e2 = if 450 * (i + 1) + 500 <= ts.len() { 450 * (i + 1) + 500 } else { ts.len() as int };
    lemma_window_words(ts, 450 * (i + 1), e2);
    assert(ts.subrange(450 * i, 450 * i + 500).skip(450) =~= ts.subrange(450 * (i + 1), e2).take(50));
}

/// Window `k` of `windows(ts, s)` covers words `s + 450 k` on.
proof fn lemma_windows_index(ts: Seq<Seq<char>>, s: int, k: int)
    requires
        0 <= s,
        0 <= k < windows(ts, s).len(),
    ensures
        s + 450 * k < ts.len(),
        k < windows(ts, s).len() - 1 ==> s + 450 * k + 500 < ts.len() + 0 || s + 450 * k + 500 <= ts.len(),
        k < windows(ts, s).len() - 1 ==> windows(ts, s)[k] == (join(ts.subrange(s + 450 * k, s + 450 * k + 500), seq![' ']), 500nat),
        k < windows(ts, s).len() - 1 ==> s + 450 * k + 500 < ts.len(),
        k == windows(ts, s).len() - 1 ==> windows(ts, s)[k] == ({
            let st = s + 450 * k;
            let end = if st + 500 <= ts.len() { st + 500 } else { ts.len() as int };
            (join(ts.subrange(st, end), seq![' ']), (end - st) as nat)
        }),
    decreases ts.len() - s,
{
    let end = if s + 500 <= ts.len() { s + 500 } else { ts.len() as int };
    if k > 0 {
        assert(end != ts.len());
        assert(windows(ts, s)[k] == windows(ts, s + 450)[k - 1]);
        lemma_windows_index(ts, s + 450, k - 1);
    } else {
        if windows(ts, s).len() > 1 {
            assert(end != ts.len());
        }
    }
}


/// Each chunk's token count is the number of words in its text.
pub proof fn law_chunk_token_counts(input: Seq<char>, i: int)
    requires
        0 <= i < chunks_of(input).len(),
    ensures
        chunks_of(input)[i].1 == words(chunks_of(input)[i].0).len(),
{
    let ts = words(input);
    lemma_words_shape(input);
    if ts.len() > 500 {
        lemma_windows_index(ts, 0, i);
        let st = 450 * i;
        let end = if st + 500 <= ts.len() { st + 500 } else { ts.len() as int };
        lemma_window_words(ts, st, end);
    }
}

/// The number of windows from word `s` on, when more than the overlap is
/// left.
proof fn lemma_windows_len(ts: Seq<Seq<char>>, s: int)
    requires
        0 <= s,
        ts.len() - s > 50,
    ensures
        windows(ts, s).len() == (ts.len() - s - 50 + 449) / 450,
    decreases ts.len() - s,
{
    if s + 500 < ts.len() {
        lemma_windows_len(ts, s + 450);
        assert((ts.len() - s - 50 + 449) / 450 == (ts.len() - (s + 450) - 50 + 449) / 450 + 1);
    }
}

/// Input of more than 500 words gives ⌈(n − 50) / 450⌉ chunks; chunk `k`
/// holds words `450 k` up to `450 k + 500` (or the end), so every chunk
/// but the last holds 500 words and the last holds from 51 to 500.
pub proof fn law_chunk_layout(input: Seq<char>)
    requires
        words(input).len() > 500,
    ensures
        ({
            let ts = words(input);
            let n = ts.len() as int;
            let cs = chunks_of(input);
            &&& cs.len() == (n - 50 + 449) / 450
            &&& forall|k: int| 0 <= k < cs.len() ==> {
                let end = if 450 * k + 500 <= n { 450 * k + 500 } else { n };
                #[trigger] cs[k] == (join(ts.subrange(450 * k, end), seq![' ']), (end - 450 * k) as nat)
            }
            &&& forall|k: int| 0 <= k < cs.len() - 1 ==> (#[trigger] cs[k]).1 == 500
            &&& 51 <= cs[cs.len() - 1].1 <= 500
        }),
{
    let ts = words(input);
    let n = ts.len() as int;
    lemma_windows_len(ts, 0);
    let cs = windows(ts, 0);
    assert forall|k: int| 0 <= k < cs.len() implies {
        let end = if 450 * k + 500 <= n { 450 * k + 500 } else { n };
        #[trigger] cs[k] == (join(ts.subrange(450 * k, end), seq![' ']), (end - 450 * k) as nat)
    } by {
        lemma_windows_index(ts, 0, k);
    }
    assert forall|k: int| 0 <= k < cs.len() - 1 implies (#[trigger] cs[k]).1 == 500 by {
        lemma_windows_index(ts, 0, k);
    }
    let q = cs.len() as int;
    let k = q - 1;
    assert(q == (n + 399) / 450);
    assert(450 * q <= n + 399 && 450 * q > n - 51) by (nonlinear_arith)
        requires
            q == (n + 399) / 450,
    ;
    lemma_windows_index(ts, 0, k);
}

} // verus!
