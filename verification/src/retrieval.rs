//! Building the full-text query of a memory search.
use vstd::prelude::*;
use crate::text::{join, remove_char, string_views, views, words};

verus! {

/// The terms of a query, each with its double quotes removed and put in
/// double quotes; terms left empty are dropped.
pub open spec fn fts_terms(ws: Seq<Seq<char>>) -> Seq<Seq<char>>
    decreases ws.len(),
{
    if ws.len() == 0 {
        seq![]
    } else {
        let t = remove_char(ws.last(), '"');
        let pre = fts_terms(ws.drop_last());
        if t.len() > 0 {
            pre.push("\""@ + t + "\""@)
        } else {
            pre
        }
    }
}

/// A query safe for FTS5: its quoted terms joined with ` OR `.
pub open spec fn fts_safe_spec(q: Seq<char>) -> Seq<char> {
    join(fts_terms(words(q)), " OR "@)
}

/// Escapes a query for FTS5 by quoting each term and joining the terms
/// with `OR`.
pub fn fts_safe(query: &str) -> (r: String)
    ensures
        r@ == fts_safe_spec(query@),
{
    let v = crate::text::chars_of(query);
    let ws = crate::text::split_words(&v);
    let ghost wv = views(ws@);
    let mut terms: Vec<String> = Vec::new();
    let mut i: usize = 0;
    assert(wv.take(0) =~= Seq::<Seq<char>>::empty());
    while i < ws.len()
        invariant
            i <= ws.len(),
            wv == views(ws@),
            string_views(terms@) == fts_terms(wv.take(i as int)),
        decreases ws.len() - i,
    {
        let t = crate::text::remove_char_exec(&ws[i], '"');
        assert(wv.take(i + 1).drop_last() =~= wv.take(i as int));
        assert(wv.take(i + 1).last() == ws@[i as int]@);
        if t.len() > 0 {
            let mut q = "\"".to_owned();
            crate::text::append_str_chars(&mut q, &t);
            crate::text::append_str(&mut q, "\"");
            let ghost tb = string_views(terms@);
            terms.push(q);
            assert(string_views(terms@) =~= tb.push(q@));
        }
        i = i + 1;
    }
    assert(wv.take(ws.len() as int) =~= wv);
    crate::text::join_strings(&terms, " OR ")
}

} // verus!
