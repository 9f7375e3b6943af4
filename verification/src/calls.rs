//! Tool calls put together from streamed pieces. Pieces name the call
//! they belong to by index; the finished calls come out in index order.
use vstd::prelude::*;
use crate::text::append_str;
use crate::types::{DeltaSpec, DeltaToolCall, FunctionCall, ToolCall, ToolCallSpec, call_views};

verus! {

/// A call that no piece has filled yet.
pub open spec fn blank_call() -> ToolCallSpec {
    ToolCallSpec { id: seq![], call_type: "function"@, name: seq![], arguments: seq![] }
}

pub open spec fn or_empty(o: Option<Seq<char>>) -> Seq<char> {
    match o {
        Some(s) => s,
        None => seq![],
    }
}

/// A piece applied to a call: a new id replaces the old one, name and
/// argument text are appended.
pub open spec fn apply_delta(c: ToolCallSpec, d: DeltaSpec) -> ToolCallSpec {
    ToolCallSpec {
        id: match d.id {
            Some(i) => i,
            None => c.id,
        },
        call_type: c.call_type,
        name: c.name + or_empty(d.name),
        arguments: c.arguments + or_empty(d.arguments),
    }
}

/// Entries in strictly increasing index order.
pub open spec fn sorted(m: Seq<(u32, ToolCallSpec)>) -> bool {
    forall|i: int, j: int| 0 <= i < j < m.len() ==> m[i].0 < m[j].0
}

/// Where index `k` goes: after every entry with a smaller index.
pub open spec fn insert_pos(m: Seq<(u32, ToolCallSpec)>, k: u32) -> int
    decreases m.len(),
{
    if m.len() == 0 {
        0
    } else if m.last().0 < k {
        m.len() as int
    } else {
        insert_pos(m.drop_last(), k)
    }
}

/// The entries after one more piece.
pub open spec fn assemble(m: Seq<(u32, ToolCallSpec)>, d: DeltaSpec) -> Seq<(u32, ToolCallSpec)> {
    let p = insert_pos(m, d.index);
    if p < m.len() && m[p].0 == d.index {
        m.update(p, (d.index, apply_delta(m[p].1, d)))
    } else {
        m.insert(p, (d.index, apply_delta(blank_call(), d)))
    }
}

/// The entries after a run of pieces, in arrival order.
pub open spec fn assemble_all(m: Seq<(u32, ToolCallSpec)>, ds: Seq<DeltaSpec>) -> Seq<(u32, ToolCallSpec)>
    decreases ds.len(),
{
    if ds.len() == 0 {
        m
    } else {
        assemble(assemble_all(m, ds.drop_last()), ds.last())
    }
}

/// The calls of the entries, in order.
pub open spec fn entry_calls(m: Seq<(u32, ToolCallSpec)>) -> Seq<ToolCallSpec> {
    m.map_values(|e: (u32, ToolCallSpec)| e.1)
}

/// The argument text of all pieces for index `k`, in arrival order.
pub open spec fn args_for(ds: Seq<DeltaSpec>, k: u32) -> Seq<char>
    decreases ds.len(),
{
    if ds.len() == 0 {
        seq![]
    } else if ds.last().index == k {
        args_for(ds.drop_last(), k) + or_empty(ds.last().arguments)
    } else {
        args_for(ds.drop_last(), k)
    }
}

/// The name text of all pieces for index `k`, in arrival order.
pub open spec fn names_for(ds: Seq<DeltaSpec>, k: u32) -> Seq<char>
    decreases ds.len(),
{
    if ds.len() == 0 {
        seq![]
    } else if ds.last().index == k {
        names_for(ds.drop_last(), k) + or_empty(ds.last().name)
    } else {
        names_for(ds.drop_last(), k)
    }
}

/// Some piece is for index `k`.
pub open spec fn has_piece(ds: Seq<DeltaSpec>, k: u32) -> bool {
    exists|j: int| 0 <= j < ds.len() && (#[trigger] ds[j]).index == k
}

/// Some entry has index `k`.
pub open spec fn has_entry(m: Seq<(u32, ToolCallSpec)>, k: u32) -> bool {
    exists|i: int| 0 <= i < m.len() && (#[trigger] m[i]).0 == k
}

pub proof fn lemma_insert_pos(m: Seq<(u32, ToolCallSpec)>, k: u32, p: int)
    requires
        sorted(m),
        0 <= p <= m.len(),
        forall|j: int| 0 <= j < p ==> m[j].0 < k,
        p == m.len() || m[p].0 >= k,
    ensures
        insert_pos(m, k) == p,
    decreases m.len(),
{
    if m.len() > 0 && p < m.len() {
        assert(m.last().0 >= m[p].0);
        lemma_insert_pos(m.drop_last(), k, p);
    }
}

/// Facts of `insert_pos` on sorted entries: every entry before it has a
/// smaller index, every entry from it on has an index at least `k`.
pub proof fn lemma_insert_pos_bounds(m: Seq<(u32, ToolCallSpec)>, k: u32)
    requires
        sorted(m),
    ensures
        0 <= insert_pos(m, k) <= m.len(),
        forall|j: int| 0 <= j < insert_pos(m, k) ==> m[j].0 < k,
        forall|j: int| insert_pos(m, k) <= j < m.len() ==> m[j].0 >= k,
    decreases m.len(),
{
    if m.len() > 0 {
        lemma_insert_pos_bounds(m.drop_last(), k);
        if !(m.last().0 < k) {
            let q = insert_pos(m.drop_last(), k);
            assert forall|j: int| q <= j < m.len() implies m[j].0 >= k by {
                if j < m.len() - 1 {
                    assert(m.drop_last()[j] == m[j]);
                }
            }
            assert forall|j: int| 0 <= j < q implies m[j].0 < k by {
                assert(m.drop_last()[j] == m[j]);
            }
        } else {
            assert forall|j: int| 0 <= j < m.len() implies m[j].0 < k by {
                if j < m.len() - 1 {
                    assert(m[j].0 < m.last().0);
                }
            }
        }
    }
}

pub proof fn lemma_assemble_sorted(m: Seq<(u32, ToolCallSpec)>, d: DeltaSpec)
    requires
        sorted(m),
    ensures
        sorted(assemble(m, d)),
{
    lemma_insert_pos_bounds(m, d.index);
    let p = insert_pos(m, d.index);
    if !(p < m.len() && m[p].0 == d.index) {
        let r = m.insert(p, (d.index, apply_delta(blank_call(), d)));
        m.insert_ensures(p, (d.index, apply_delta(blank_call(), d)));
        assert forall|i: int, j: int| 0 <= i < j < r.len() implies r[i].0 < r[j].0 by {
            if j < p {
            } else if j == p {
            } else if i < p {
                assert(r[j] == m[j - 1]);
            } else if i == p {
                assert(r[j] == m[j - 1]);
            } else {
                assert(r[j] == m[j - 1]);
                assert(r[i] == m[i - 1]);
            }
        }
    }
}

/// The pieces of a streamed answer put together: the calls come out in
/// index order, and the argument text and the name of the call with
/// index `k` are those of the pieces for `k`, joined in arrival order.
pub proof fn law_assembled_calls(ds: Seq<DeltaSpec>)
    ensures
        sorted(assemble_all(seq![], ds)),
        forall|i: int| 0 <= i < assemble_all(seq![], ds).len() ==> {
            let e = #[trigger] assemble_all(seq![], ds)[i];
            &&& e.1.arguments == args_for(ds, e.0)
            &&& e.1.name == names_for(ds, e.0)
        },
        forall|k: u32| #[trigger] has_piece(ds, k) <==> has_entry(assemble_all(seq![], ds), k),
    decreases ds.len(),
{
    if ds.len() > 0 {
        let pre = ds.drop_last();
        let d = ds.last();
        law_assembled_calls(pre);
        let m = assemble_all(seq![], pre);
        let r = assemble_all(seq![], ds);
        assert(r == assemble(m, d));
        lemma_assemble_sorted(m, d);
        lemma_insert_pos_bounds(m, d.index);
        let p = insert_pos(m, d.index);
        if p < m.len() && m[p].0 == d.index {
            assert forall|i: int| 0 <= i < r.len() implies {
                let e = #[trigger] r[i];
                &&& e.1.arguments == args_for(ds, e.0)
                &&& e.1.name == names_for(ds, e.0)
            } by {
                if i != p {
                    assert(r[i] == m[i]);
                    assert(m[i].0 != d.index);
                }
            }
            assert forall|k: u32| has_piece(ds, k) implies #[trigger] has_entry(r, k) by {
                let j = choose|j: int| 0 <= j < ds.len() && (#[trigger] ds[j]).index == k;
                if j == ds.len() - 1 {
                    assert(r[p].0 == k);
                } else {
                    assert(pre[j].index == k);
                    assert(has_piece(pre, k));
                    assert(has_entry(m, k));
                    let i = choose|i: int| 0 <= i < m.len() && (#[trigger] m[i]).0 == k;
                    assert(r[i].0 == k);
                }
            }
            assert forall|k: u32| has_entry(r, k) implies #[trigger] has_piece(ds, k) by {
                let i = choose|i: int| 0 <= i < r.len() && (#[trigger] r[i]).0 == k;
                assert(m[i].0 == k);
                assert(has_entry(m, k));
                assert(has_piece(pre, k));
                let j = choose|j: int| 0 <= j < pre.len() && (#[trigger] pre[j]).index == k;
                assert(ds[j] == pre[j]);
            }
        } else {
            m.insert_ensures(p, (d.index, apply_delta(blank_call(), d)));
            assert(!has_entry(m, d.index)) by {
                if has_entry(m, d.index) {
                    let i = choose|i: int| 0 <= i < m.len() && (#[trigger] m[i]).0 == d.index;
                    if i > p {
                        assert(m[p].0 < m[i].0);
                    }
                }
            }
            assert(!has_piece(pre, d.index));
            assert(args_for(pre, d.index) == Seq::<char>::empty()) by {
                lemma_args_absent(pre, d.index);
            }
            assert(names_for(pre, d.index) == Seq::<char>::empty()) by {
                lemma_args_absent(pre, d.index);
            }
            assert forall|i: int| 0 <= i < r.len() implies {
                let e = #[trigger] r[i];
                &&& e.1.arguments == args_for(ds, e.0)
                &&& e.1.name == names_for(ds, e.0)
            } by {
                if i < p {
                    assert(r[i] == m[i]);
                } else if i > p {
                    assert(r[i] == m[i - 1]);
                }
            }
            assert forall|k: u32| has_piece(ds, k) implies #[trigger] has_entry(r, k) by {
                let j = choose|j: int| 0 <= j < ds.len() && (#[trigger] ds[j]).index == k;
                if j == ds.len() - 1 {
                    assert(r[p].0 == k);
                } else {
                    assert(pre[j].index == k);
                    assert(has_piece(pre, k));
                    assert(has_entry(m, k));
                    let i = choose|i: int| 0 <= i < m.len() && (#[trigger] m[i]).0 == k;
                    if i < p {
                        assert(r[i].0 == k);
                    } else {
                        assert(r[i + 1].0 == k);
                    }
                }
            }
            assert forall|k: u32| has_entry(r, k) implies #[trigger] has_piece(ds, k) by {
                let i = choose|i: int| 0 <= i < r.len() && (#[trigger] r[i]).0 == k;
                if i == p {
                    assert(ds[ds.len() - 1].index == k);
                } else {
                    let i2 = if i < p { i } else { i - 1 };
                    assert(m[i2].0 == k);
                    assert(has_entry(m, k));
                    assert(has_piece(pre, k));
                    let j = choose|j: int| 0 <= j < pre.len() && (#[trigger] pre[j]).index == k;
                    assert(ds[j] == pre[j]);
                }
            }
        }
    }
}

/// With no piece for `k`, nothing is collected for `k`.
pub proof fn lemma_args_absent(ds: Seq<DeltaSpec>, k: u32)
    requires
        forall|j: int| 0 <= j < ds.len() ==> (#[trigger] ds[j]).index != k,
    ensures
        args_for(ds, k) == Seq::<char>::empty(),
        names_for(ds, k) == Seq::<char>::empty(),
    decreases ds.len(),
{
    if ds.len() > 0 {
        assert(ds[ds.len() - 1].index != k);
        assert forall|j: int| 0 <= j < ds.drop_last().len() implies (#[trigger] ds.drop_last()[j]).index != k by {
            assert(ds.drop_last()[j] == ds[j]);
        }
        lemma_args_absent(ds.drop_last(), k);
    }
}

/// Tool calls being put together from streamed pieces.
pub struct PartialCalls {
    pub entries: Vec<(u32, ToolCall)>,
}

pub open spec fn entry_views(s: Seq<(u32, ToolCall)>) -> Seq<(u32, ToolCallSpec)> {
    s.map_values(|e: (u32, ToolCall)| (e.0, e.1.view()))
}

impl PartialCalls {
    pub open spec fn view(&self) -> Seq<(u32, ToolCallSpec)> {
        entry_views(self.entries@)
    }

    pub open spec fn wf(&self) -> bool {
        sorted(self@)
    }

    pub fn new() -> (r: Self)
        ensures
            r@ == Seq::<(u32, ToolCallSpec)>::empty(),
            r.wf(),
    {
        let r = PartialCalls { entries: Vec::new() };
        assert(r@ =~= Seq::<(u32, ToolCallSpec)>::empty());
        r
    }

    pub fn is_empty(&self) -> (r: bool)
        ensures
            r == (self@.len() == 0),
    {
        self.entries.len() == 0
    }

    /// Applies one streamed piece.
    pub fn apply(&mut self, delta: DeltaToolCall)
        requires
            old(self).wf(),
        ensures
            final(self).wf(),
            final(self)@ == assemble(old(self)@, delta.view()),
    {
        let ghost m = self@;
        let ghost d = delta.view();
        let k = delta.index;
        let mut p: usize = 0;
        while p < self.entries.len() && self.entries[p].0 < k
            invariant
                p <= self.entries.len(),
                self@ == m,
                sorted(m),
                forall|j: int| 0 <= j < p ==> m[j].0 < k,
            decreases self.entries.len() - p,
        {
            p = p + 1;
        }
        proof {
            lemma_insert_pos(m, k, p as int);
            lemma_assemble_sorted(m, d);
        }
        if p < self.entries.len() && self.entries[p].0 == k {
            let (idx, mut call) = self.entries.remove(p);
            apply_to(&mut call, delta);
            self.entries.insert(p, (idx, call));
            assert(self@ =~= m.update(p as int, (k, apply_delta(m[p as int].1, d))));
        } else {
            let mut call = ToolCall {
                id: String::new(),
                call_type: "function".to_owned(),
                function: FunctionCall { name: String::new(), arguments: String::new() },
            };
            assert(call.view() == blank_call());
            apply_to(&mut call, delta);
            self.entries.insert(p, (k, call));
            assert(self@ =~= m.insert(p as int, (k, apply_delta(blank_call(), d))));
        }
    }

    /// Takes the finished calls out, in index order.
    pub fn take_calls(&mut self) -> (r: Vec<ToolCall>)
        ensures
            call_views(r@) == entry_calls(old(self)@),
            final(self)@.len() == 0,
            final(self).wf(),
    {
        let mut entries: Vec<(u32, ToolCall)> = Vec::new();
        std::mem::swap(&mut entries, &mut self.entries);
        let mut out: Vec<ToolCall> = Vec::new();
        let ghost m = entry_views(entries@);
        let mut rev: Vec<ToolCall> = Vec::new();
        while entries.len() > 0
            invariant
                m == old(self)@,
                entry_calls(entry_views(entries@)) + call_views(rev@).reverse() == entry_calls(m),
            decreases entries.len(),
        {
            let ghost before = entries@;
            let (_, c) = entries.pop().unwrap();
            let ghost rb = call_views(rev@);
            rev.push(c);
            assert(call_views(rev@) =~= rb.push(c.view()));
            assert(entry_calls(entry_views(before)) =~= entry_calls(entry_views(entries@)).push(c.view()));
            assert(call_views(rev@).reverse() =~= seq![c.view()] + rb.reverse());
        }
        assert(entry_calls(entry_views(entries@)) =~= Seq::<ToolCallSpec>::empty());
        while rev.len() > 0
            invariant
                call_views(out@) + call_views(rev@).reverse() == entry_calls(m),
            decreases rev.len(),
        {
            let ghost rb = rev@;
            let c = rev.pop().unwrap();
            let ghost ob = call_views(out@);
            out.push(c);
            assert(call_views(out@) =~= ob.push(c.view()));
            assert(call_views(rb).reverse() =~= seq![c.view()] + call_views(rev@).reverse());
        }
        assert(call_views(rev@).reverse() =~= Seq::<ToolCallSpec>::empty());
        assert(call_views(out@) =~= entry_calls(m));
        assert(self@ =~= Seq::<(u32, ToolCallSpec)>::empty());
        out
    }
}

fn apply_to(call: &mut ToolCall, delta: DeltaToolCall)
    ensures
        final(call).view() == apply_delta(old(call).view(), delta.view()),
{
    match delta.id {
        Some(id) => {
            call.id = id;
        },
        None => {},
    }
    match &delta.function {
        Some(f) => {
            match &f.name {
                Some(n) => append_str(&mut call.function.name, n.as_str()),
                None => {},
            }
            match &f.arguments {
                Some(a) => append_str(&mut call.function.arguments, a.as_str()),
                None => {},
            }
        },
        None => {},
    }
    assert(call.function.name@ =~= old(call).function.name@ + or_empty(delta.view().name));
    assert(call.function.arguments@ =~= old(call).function.arguments@ + or_empty(delta.view().arguments));
}

} // verus!
