//! Verified operations on one adjacency sequence.

use crate::laws::{lemma_filter_all, lemma_filter_drops};
use crate::model::{avoids, destinations_at, differs_from, edges_avoiding, edges_except};
use crate::model::{visible, visible_at};
use crate::model::{NodeId, OutEdge, Timestamp};
use vstd::prelude::*;

verus! {

/// The destination of `e` if `e` is active at time `t`.
pub fn active_destination(e: &OutEdge, t: Timestamp) -> (r: Option<NodeId>)
    ensures
        r == visible_at(*e, t),
{
    if e.1 <= t {
        Some(e.0)
    } else {
        None
    }
}

/// Scans `edges` front to back and collects the destinations that are active
/// at time `t`.
pub fn scan(edges: &Vec<OutEdge>, t: Timestamp) -> (out: Vec<NodeId>)
    ensures
        out@ == destinations_at(edges@, t),
{
    let ghost f = visible(t);
    let mut out: Vec<NodeId> = Vec::new();
    let mut i: usize = 0;
    while i < edges.len()
        invariant
            i <= edges.len(),
            f == visible(t),
            out@ == edges@.take(i as int).filter_map(f),
        decreases edges.len() - i,
    {
        proof {
            edges@.lemma_filter_map_take_succ(f, i as int);
        }
        match active_destination(&edges[i], t) {
            Some(dst) => {
                out.push(dst);
            },
            None => {},
        }
        i += 1;
    }
    assert(edges@.take(edges.len() as int) =~= edges@);
    out
}

/// Keeps the entries of `edges` that pass `keep` and drops the others, in
/// place and without changing the order, and returns how many were dropped.
/// `test` is what `keep` computes.
fn retain<F: Fn(&OutEdge) -> bool>(
    edges: &mut Vec<OutEdge>,
    keep: F,
    Ghost(test): Ghost<spec_fn(OutEdge) -> bool>,
) -> (dropped: usize)
    requires
        forall|e: OutEdge| #[trigger] keep.requires((&e,)),
        forall|e: OutEdge, kept: bool| #[trigger] keep.ensures((&e,), kept) ==> kept == test(e),
    ensures
        final(edges)@ == old(edges)@.filter(test),
        dropped == old(edges)@.len() - final(edges)@.len(),
{
    let ghost before = edges@;
    let n = edges.len();
    let mut kept: usize = 0;
    let mut i: usize = 0;
    while i < n
        invariant
            kept <= i <= n,
            n == before.len(),
            edges@.len() == n,
            forall|e: OutEdge| #[trigger] keep.requires((&e,)),
            forall|e: OutEdge, kept: bool| #[trigger] keep.ensures((&e,), kept) ==> kept == test(e),
            edges@.take(kept as int) == before.take(i as int).filter(test),
            forall|j: int| i <= j < n ==> edges@[j] == before[j],
        decreases n - i,
    {
        let e = edges[i];
        let ghost held = edges@;
        proof {
            assert(before.take(i + 1) =~= before.take(i as int).push(e));
            before.take(i as int).lemma_filter_push(e, test);
        }
        if keep(&e) {
            edges[kept] = e;
            assert(edges@.take(kept + 1) =~= held.take(kept as int).push(e));
            kept += 1;
        } else {
            assert(edges@.take(kept as int) =~= held.take(kept as int));
        }
        i += 1;
    }
    assert(before.take(n as int) =~= before);
    edges.truncate(kept);
    n - kept
}

/// Removes from `edges` every entry whose destination is `id`, keeping the
/// order of the others.
pub fn retain_avoiding(edges: &mut Vec<OutEdge>, id: NodeId)
    ensures
        final(edges)@ == edges_avoiding(old(edges)@, id),
{
    let keep = |e: &OutEdge| -> (kept: bool)
        ensures
            kept == avoids(id)(*e),
        { e.0 != id };
    retain(edges, keep, Ghost(avoids(id)));
}

/// Removes from `edges` every entry equal to `(dst, ts)`, keeping the order of
/// the others, and tells whether there was one.
pub fn retain_except(edges: &mut Vec<OutEdge>, dst: NodeId, ts: Timestamp) -> (removed: bool)
    ensures
        final(edges)@ == edges_except(old(edges)@, dst, ts),
        removed == old(edges)@.contains((dst, ts)),
        !removed ==> final(edges)@ == old(edges)@,
{
    let keep = |e: &OutEdge| -> (kept: bool)
        ensures
            kept == differs_from(dst, ts)(*e),
        { !(e.0 == dst && e.1 == ts) };
    let ghost before = edges@;
    let dropped = retain(edges, keep, Ghost(differs_from(dst, ts)));
    proof {
        if before.contains((dst, ts)) {
            let i = choose|i: int| 0 <= i < before.len() && before[i] == (dst, ts);
            lemma_filter_drops(before, differs_from(dst, ts), i);
        } else {
            assert forall|i: int| 0 <= i < before.len() implies differs_from(dst, ts)(
                #[trigger] before[i],
            ) by {
                if before[i] == (dst, ts) {
                    assert(before.contains((dst, ts)));
                }
            }
            lemma_filter_all(before, differs_from(dst, ts));
        }
    }
    dropped > 0
}

} // verus!
