//! Properties that hold across calls: merging, scope restoration, nesting.

use crate::context::{
    capture_begun, capture_ended, entered, exited, gathered, recorded, ScopeState,
};
use crate::tree::{add_path, add_prefixes, merged_paths, root_to_leaf};
use vstd::prelude::*;

verus! {

/// The prefixes of `r` of lengths `lo + 1` to `hi`, shortest first.
pub open spec fn prefixes(r: Seq<usize>, lo: nat, hi: nat) -> Seq<Seq<usize>> {
    Seq::new((hi - lo) as nat, |i: int| r.take(lo + i + 1))
}

/// Captures recorded one after another by leaf points.
pub open spec fn recorded_all(s: ScopeState, cs: Seq<Seq<usize>>) -> ScopeState
    decreases cs.len(),
{
    if cs.len() == 0 {
        s
    } else {
        recorded(recorded_all(s, cs.drop_last()), cs.last())
    }
}

proof fn lemma_add_known(known: Seq<Seq<usize>>, r: Seq<usize>, k: nat)
    requires
        forall|j: int| 1 <= j <= k ==> known.contains(#[trigger] r.take(j)),
    ensures
        add_prefixes(known, r, k) == known,
    decreases k,
{
    if k > 0 {
        lemma_add_known(known, r, (k - 1) as nat);
        assert(known.contains(r.take(k as int)));
    }
}

proof fn lemma_add_fresh(known: Seq<Seq<usize>>, r: Seq<usize>, lo: nat, k: nat)
    requires
        lo <= k <= r.len(),
        forall|j: int| 1 <= j <= lo ==> known.contains(#[trigger] r.take(j)),
        forall|j: int| lo < j <= k ==> !known.contains(#[trigger] r.take(j)),
    ensures
        add_prefixes(known, r, k) == known + prefixes(r, lo, k),
    decreases k,
{
    if k == lo {
        lemma_add_known(known, r, lo);
        assert(known + prefixes(r, lo, k) =~= known);
    } else {
        lemma_add_fresh(known, r, lo, (k - 1) as nat);
        let before = known + prefixes(r, lo, (k - 1) as nat);
        let p = r.take(k as int);
        if before.contains(p) {
            let i = choose|i: int| 0 <= i < before.len() && before[i] == p;
            if i < known.len() {
                assert(known[i] == p);
            } else {
                assert(before[i].len() == i - known.len() + lo + 1);
            }
        }
        assert(add_path(before, p) == before.push(p));
        assert(before.push(p) =~= known + prefixes(r, lo, k));
    }
}

/// The paths of a single capture: one per prefix, each seen once.
pub proof fn lemma_single_capture(c: Seq<usize>)
    ensures
        merged_paths(seq![c]) == prefixes(root_to_leaf(c), 0, c.len()),
{
    let r = root_to_leaf(c);
    assert(seq![c].drop_last() =~= Seq::<Seq<usize>>::empty());
    assert(merged_paths(Seq::<Seq<usize>>::empty()) == Seq::<Seq<usize>>::empty());
    lemma_add_fresh(Seq::empty(), r, 0, c.len());
    assert(Seq::<Seq<usize>>::empty() + prefixes(r, 0, c.len()) =~= prefixes(r, 0, c.len()));
}

/// Two captures with the same addresses merge into the single path of one of
/// them: no node is added for the second, so no branch is duplicated.
pub proof fn lemma_identical_captures_merge(c: Seq<usize>)
    ensures
        merged_paths(seq![c, c]) == merged_paths(seq![c]),
        merged_paths(seq![c]) == prefixes(root_to_leaf(c), 0, c.len()),
{
    let r = root_to_leaf(c);
    lemma_single_capture(c);
    assert(seq![c, c].drop_last() =~= seq![c]);
    let known = prefixes(r, 0, c.len());
    assert forall|j: int| 1 <= j <= c.len() implies known.contains(#[trigger] r.take(j)) by {
        assert(known[j - 1] == r.take(j));
    }
    lemma_add_known(known, r, c.len());
}

/// Two captures whose root-to-leaf addresses agree on exactly their first `k`
/// addresses merge into one chain of `k` shared nodes, below which the first
/// capture's remaining nodes form one branch and the second's another.
pub proof fn lemma_shared_prefix_branches(c1: Seq<usize>, c2: Seq<usize>, k: nat)
    requires
        k < c1.len(),
        k < c2.len(),
        root_to_leaf(c1).take(k as int) == root_to_leaf(c2).take(k as int),
        root_to_leaf(c1)[k as int] != root_to_leaf(c2)[k as int],
    ensures
        merged_paths(seq![c1, c2]) == prefixes(root_to_leaf(c1), 0, c1.len()) + prefixes(
            root_to_leaf(c2),
            k,
            c2.len(),
        ),
        forall|j: int|
            1 <= j <= k ==> #[trigger] root_to_leaf(c1).take(j) == root_to_leaf(c2).take(j),
{
    let r1 = root_to_leaf(c1);
    let r2 = root_to_leaf(c2);
    lemma_single_capture(c1);
    assert(seq![c1, c2].drop_last() =~= seq![c1]);
    let known = prefixes(r1, 0, c1.len());
    assert forall|j: int| 1 <= j <= k implies #[trigger] r1.take(j) == r2.take(j) by {
        assert(r1.take(j) =~= r1.take(k as int).take(j));
        assert(r2.take(j) =~= r2.take(k as int).take(j));
    }
    assert forall|j: int| 1 <= j <= k implies known.contains(#[trigger] r2.take(j)) by {
        assert(known[j - 1] == r1.take(j));
        assert(r1.take(j) == r2.take(j));
    }
    assert forall|j: int| k < j <= c2.len() implies !known.contains(#[trigger] r2.take(j)) by {
        if known.contains(r2.take(j)) {
            let i = choose|i: int| 0 <= i < known.len() && known[i] == r2.take(j);
            assert(known[i].len() == i + 1);
            assert(r1.take(j)[k as int] == r2.take(j)[k as int]);
        }
    }
    lemma_add_fresh(known, r2, k, c2.len());
}

/// Leaving a root scope restores the root boundaries in force before it was
/// entered, whatever nested scopes were entered in between and not left (an
/// unwind), and leaves the accumulator as it finds it.
pub proof fn lemma_root_scope_restores(s: ScopeState, boundary: usize, t: ScopeState)
    requires
        t.frames.len() >= s.frames.len() + 1,
        t.frames.take(s.frames.len() as int + 1) == entered(s, boundary).frames,
        t.collector == s.collector,
    ensures
        exited(entered(s, boundary), s.frames.len()) == s,
        exited(t, s.frames.len()) == s,
{
    assert(entered(s, boundary).frames.take(s.frames.len() as int) =~= s.frames);
    assert(t.frames.take(s.frames.len() as int) =~= t.frames.take(s.frames.len() as int + 1).take(
        s.frames.len() as int,
    ));
}

/// Closing a capture scope puts back the accumulator that opening it
/// displaced, and leaves the root boundaries as it finds them.
pub proof fn lemma_capture_scope_restores(s: ScopeState, t: ScopeState)
    requires
        t.frames == s.frames,
    ensures
        capture_ended(t, s.collector) == s,
{
}

/// A capture scope opened inside another gathers exactly the captures made
/// while it is open, and the enclosing accumulator comes back unchanged: none
/// of those captures is added to it.
pub proof fn lemma_nested_capture(s: ScopeState, cs: Seq<Seq<usize>>)
    ensures
        gathered(recorded_all(capture_begun(s), cs)) == cs,
        capture_ended(recorded_all(capture_begun(s), cs), s.collector).collector == s.collector,
    decreases cs.len(),
{
    lemma_recorded_all_open(capture_begun(s), cs);
    assert(Seq::<Seq<usize>>::empty() + cs =~= cs);
}

proof fn lemma_recorded_all_open(s: ScopeState, cs: Seq<Seq<usize>>)
    requires
        s.collector.is_some(),
    ensures
        recorded_all(s, cs).collector == Some(s.collector.unwrap() + cs),
        recorded_all(s, cs).frames == s.frames,
    decreases cs.len(),
{
    if cs.len() > 0 {
        lemma_recorded_all_open(s, cs.drop_last());
        assert(s.collector.unwrap() + cs.drop_last() + seq![cs.last()] =~= s.collector.unwrap()
            + cs);
        assert((s.collector.unwrap() + cs.drop_last()).push(cs.last()) =~= s.collector.unwrap()
            + cs);
    } else {
        assert(s.collector.unwrap() + cs =~= s.collector.unwrap());
    }
}

} // verus!
