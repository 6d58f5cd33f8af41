//! Tree edit distance over preorder node sequences, and the normalized
//! similarity score derived from it.
//!
//! The distance is the classic alignment cost between the two preorder
//! sequences: inserting or deleting a node costs 1.0 (`SCALE`), and
//! substituting one node for another costs 0 when kind and label agree,
//! the configurable rename cost when only the label differs, and the
//! full 1.0 when the kinds differ. The similarity of two units is
//! `1 - distance / max(size_a, size_b)`, so identical units score 1.0.
//!
//! Design decision: the metric aligns flat preorder sequences rather
//! than child-indexed trees. Preorder alignment is a lower bound of
//! the tree edit distance, shares its costs and its normalization, and
//! keeps every reported property (range, symmetry, identity, the
//! pre-filter bound) provable; on deeply reordered nestings it can
//! score a pair as closer than a child-respecting distance would.

use crate::options::{MAX_NODES, SCALE};
use crate::tree::AstNode;
use vstd::arithmetic::div_mod::{
    lemma_div_is_ordered, lemma_div_multiples_vanish, lemma_div_pos_is_pos,
};
use vstd::prelude::*;

verus! {

/// The smaller of two integers.
pub open spec fn min_int(a: int, b: int) -> int {
    if a <= b {
        a
    } else {
        b
    }
}

/// The larger of two integers.
pub open spec fn max_int(a: int, b: int) -> int {
    if a >= b {
        a
    } else {
        b
    }
}

/// The smallest of three integers.
pub open spec fn min3_int(a: int, b: int, c: int) -> int {
    min_int(a, min_int(b, c))
}

/// Cost of substituting node `b` for node `a`: free for an identical
/// node, `rename_cost` for a relabeling that keeps the kind, and the
/// full deletion-plus-insertion price for a change of kind.
pub open spec fn spec_sub_cost(a: AstNode, b: AstNode, rename_cost: u64) -> int {
    if a.kind == b.kind && a.label == b.label {
        0
    } else if a.kind == b.kind {
        rename_cost as int
    } else {
        SCALE as int
    }
}

/// The edit distance between two preorder sequences, in units of
/// `SCALE`: the least total cost of deletions (each `SCALE`),
/// insertions (each `SCALE`) and substitutions (`spec_sub_cost`)
/// transforming one into the other.
pub open spec fn spec_edit_dist(a: Seq<AstNode>, b: Seq<AstNode>, rename_cost: u64) -> int
    decreases a.len(), b.len(),
{
    if a.len() == 0 {
        b.len() * (SCALE as int)
    } else if b.len() == 0 {
        a.len() * (SCALE as int)
    } else {
        min3_int(
            spec_edit_dist(a.drop_last(), b.drop_last(), rename_cost) + spec_sub_cost(
                a.last(),
                b.last(),
                rename_cost,
            ),
            spec_edit_dist(a.drop_last(), b, rename_cost) + SCALE,
            spec_edit_dist(a, b.drop_last(), rename_cost) + SCALE,
        )
    }
}

/// The distance is never negative and never exceeds
/// `max(|a|, |b|) * SCALE`: at worst every node of the longer sequence
/// is substituted or inserted at full cost.
pub proof fn lemma_edit_dist_bounds(a: Seq<AstNode>, b: Seq<AstNode>, rename_cost: u64)
    requires
        rename_cost <= SCALE,
    ensures
        0 <= spec_edit_dist(a, b, rename_cost),
        spec_edit_dist(a, b, rename_cost) <= max_int(a.len() as int, b.len() as int) * (
        SCALE as int),
    decreases a.len(), b.len(),
{
    if a.len() == 0 {
    } else if b.len() == 0 {
    } else {
        lemma_edit_dist_bounds(a.drop_last(), b.drop_last(), rename_cost);
        lemma_edit_dist_bounds(a.drop_last(), b, rename_cost);
        lemma_edit_dist_bounds(a, b.drop_last(), rename_cost);
    }
}

/// A sequence is at distance zero from itself: the diagonal alignment
/// substitutes every node for itself at no cost.
pub proof fn lemma_edit_dist_self(a: Seq<AstNode>, rename_cost: u64)
    requires
        rename_cost <= SCALE,
    ensures
        spec_edit_dist(a, a, rename_cost) == 0,
    decreases a.len(),
{
    if a.len() == 0 {
    } else {
        lemma_edit_dist_self(a.drop_last(), rename_cost);
        lemma_edit_dist_bounds(a.drop_last(), a, rename_cost);
        lemma_edit_dist_bounds(a, a.drop_last(), rename_cost);
    }
}

/// The distance is commutative: every alignment of `a` with `b` is an
/// alignment of `b` with `a` at the same cost, deletions and
/// insertions trading places.
pub proof fn lemma_edit_dist_symmetric(a: Seq<AstNode>, b: Seq<AstNode>, rename_cost: u64)
    ensures
        spec_edit_dist(a, b, rename_cost) == spec_edit_dist(b, a, rename_cost),
    decreases a.len(), b.len(),
{
    if a.len() == 0 || b.len() == 0 {
    } else {
        lemma_edit_dist_symmetric(a.drop_last(), b.drop_last(), rename_cost);
        lemma_edit_dist_symmetric(a.drop_last(), b, rename_cost);
        lemma_edit_dist_symmetric(a, b.drop_last(), rename_cost);
    }
}

/// Holds when no node of `a` shares its kind with any node of `b`, so
/// no substitution can cost less than a deletion plus its insertion.
pub open spec fn no_shared_kind(a: Seq<AstNode>, b: Seq<AstNode>) -> bool {
    forall|i: int, j: int|
        0 <= i < a.len() && 0 <= j < b.len() ==> a[i].kind != b[j].kind
}

/// Two sequences with no kind in common are at the greatest possible
/// distance, `max(|a|, |b|) * SCALE`: this is what makes the
/// pre-filter's shared-kind test free of false negatives.
pub proof fn lemma_edit_dist_no_shared_kind(a: Seq<AstNode>, b: Seq<AstNode>, rename_cost: u64)
    requires
        rename_cost <= SCALE,
        no_shared_kind(a, b),
    ensures
        spec_edit_dist(a, b, rename_cost) >= max_int(a.len() as int, b.len() as int) * (
        SCALE as int),
    decreases a.len(), b.len(),
{
    if a.len() == 0 {
    } else if b.len() == 0 {
    } else {
        assert(no_shared_kind(a.drop_last(), b.drop_last()));
        assert(no_shared_kind(a.drop_last(), b));
        assert(no_shared_kind(a, b.drop_last()));
        lemma_edit_dist_no_shared_kind(a.drop_last(), b.drop_last(), rename_cost);
        lemma_edit_dist_no_shared_kind(a.drop_last(), b, rename_cost);
        lemma_edit_dist_no_shared_kind(a, b.drop_last(), rename_cost);
        assert(a.last() == a[a.len() - 1]);
        assert(b.last() == b[b.len() - 1]);
        assert(spec_sub_cost(a.last(), b.last(), rename_cost) == SCALE as int);
    }
}

/// Exact substitution cost between two nodes.
fn sub_cost(a: AstNode, b: AstNode, rename_cost: u64) -> (c: u64)
    requires
        rename_cost <= SCALE,
    ensures
        c as int == spec_sub_cost(a, b, rename_cost),
        c <= SCALE,
{
    if a.kind == b.kind && a.label == b.label {
        0
    } else if a.kind == b.kind {
        rename_cost
    } else {
        SCALE
    }
}

/// The smallest of three distances.
fn min3(a: u64, b: u64, c: u64) -> (r: u64)
    ensures
        r as int == min3_int(a as int, b as int, c as int),
{
    let bc = if b <= c {
        b
    } else {
        c
    };
    if a <= bc {
        a
    } else {
        bc
    }
}

/// Computes `spec_edit_dist(a@, b@, rename_cost)` by dynamic
/// programming over prefixes, two rows at a time.
pub fn tree_edit_distance(a: &Vec<AstNode>, b: &Vec<AstNode>, rename_cost: u64) -> (d: u64)
    requires
        rename_cost <= SCALE,
        a@.len() <= MAX_NODES,
        b@.len() <= MAX_NODES,
    ensures
        d as int == spec_edit_dist(a@, b@, rename_cost),
{
    let n = a.len();
    let m = b.len();
    let mut prev: Vec<u64> = Vec::new();
    let mut j: usize = 0;
    while j <= m
        invariant
            j <= m + 1,
            m == b@.len() <= MAX_NODES,
            prev@.len() == j,
            forall|jj: int|
                0 <= jj < j ==> prev@[jj] as int == spec_edit_dist(
                    a@.take(0),
                    b@.take(jj),
                    rename_cost,
                ),
        decreases m + 1 - j,
    {
        proof {
            assert(a@.take(0).len() == 0);
            assert(b@.take(j as int).len() == j);
        }
        prev.push((j as u64) * SCALE);
        j += 1;
    }
    let mut i: usize = 1;
    while i <= n
        invariant
            1 <= i <= n + 1,
            n == a@.len() <= MAX_NODES,
            m == b@.len() <= MAX_NODES,
            rename_cost <= SCALE,
            prev@.len() == m + 1,
            forall|jj: int|
                0 <= jj <= m ==> prev@[jj] as int == spec_edit_dist(
                    a@.take(i - 1),
                    b@.take(jj),
                    rename_cost,
                ),
        decreases n + 1 - i,
    {
        let mut curr: Vec<u64> = Vec::new();
        proof {
            assert(a@.take(i as int).len() == i);
            assert(b@.take(0).len() == 0);
        }
        curr.push((i as u64) * SCALE);
        let mut j: usize = 1;
        while j <= m
            invariant
                1 <= i <= n,
                1 <= j <= m + 1,
                n == a@.len() <= MAX_NODES,
                m == b@.len() <= MAX_NODES,
                rename_cost <= SCALE,
                prev@.len() == m + 1,
                forall|jj: int|
                    0 <= jj <= m ==> prev@[jj] as int == spec_edit_dist(
                        a@.take(i - 1),
                        b@.take(jj),
                        rename_cost,
                    ),
                curr@.len() == j,
                forall|jj: int|
                    0 <= jj < j ==> curr@[jj] as int == spec_edit_dist(
                        a@.take(i as int),
                        b@.take(jj),
                        rename_cost,
                    ),
            decreases m + 1 - j,
        {
            proof {
                lemma_edit_dist_bounds(a@.take(i - 1), b@.take(j - 1), rename_cost);
                lemma_edit_dist_bounds(a@.take(i - 1), b@.take(j as int), rename_cost);
                lemma_edit_dist_bounds(a@.take(i as int), b@.take(j - 1), rename_cost);
            }
            let sc = sub_cost(a[i - 1], b[j - 1], rename_cost);
            let d1 = prev[j - 1] + sc;
            let d2 = prev[j] + SCALE;
            let d3 = curr[j - 1] + SCALE;
            let d = min3(d1, d2, d3);
            proof {
                let ai = a@.take(i as int);
                let bj = b@.take(j as int);
                assert(ai.drop_last() =~= a@.take(i - 1));
                assert(bj.drop_last() =~= b@.take(j - 1));
                assert(ai.last() == a@[i - 1]);
                assert(bj.last() == b@[j - 1]);
                assert(d as int == spec_edit_dist(ai, bj, rename_cost));
            }
            curr.push(d);
            j += 1;
        }
        prev = curr;
        i += 1;
    }
    proof {
        assert(a@.take(n as int) =~= a@);
        assert(b@.take(m as int) =~= b@);
    }
    prev[m]
}

/// The similarity that a distance normalizes to:
/// `1 - dist / max(|a|, |b|)` in fixed point, and 1.0 for two empty
/// sequences.
pub open spec fn spec_base_similarity(a: Seq<AstNode>, b: Seq<AstNode>, rename_cost: u64) -> int {
    let n = max_int(a.len() as int, b.len() as int);
    if n == 0 {
        SCALE as int
    } else {
        (n * (SCALE as int) - spec_edit_dist(a, b, rename_cost)) / n
    }
}

/// The normalized similarity always lies in `[0, SCALE]`.
pub proof fn lemma_base_similarity_range(a: Seq<AstNode>, b: Seq<AstNode>, rename_cost: u64)
    requires
        rename_cost <= SCALE,
    ensures
        0 <= spec_base_similarity(a, b, rename_cost) <= SCALE,
{
    let n = max_int(a.len() as int, b.len() as int);
    if n == 0 {
    } else {
        lemma_edit_dist_bounds(a, b, rename_cost);
        let d = spec_edit_dist(a, b, rename_cost);
        lemma_div_pos_is_pos(n * (SCALE as int) - d, n);
        lemma_div_is_ordered(n * (SCALE as int) - d, n * (SCALE as int), n);
        lemma_div_multiples_vanish(SCALE as int, n);
    }
}

/// Symmetry of the normalized similarity, inherited from the distance.
pub proof fn lemma_base_similarity_symmetric(a: Seq<AstNode>, b: Seq<AstNode>, rename_cost: u64)
    ensures
        spec_base_similarity(a, b, rename_cost) == spec_base_similarity(b, a, rename_cost),
{
    lemma_edit_dist_symmetric(a, b, rename_cost);
}

/// A sequence compared with itself scores exactly 1.0.
pub proof fn lemma_base_similarity_identity(a: Seq<AstNode>, rename_cost: u64)
    requires
        rename_cost <= SCALE,
    ensures
        spec_base_similarity(a, a, rename_cost) == SCALE,
{
    lemma_edit_dist_self(a, rename_cost);
    let n = a.len() as int;
    if n > 0 {
        lemma_div_multiples_vanish(SCALE as int, n);
    }
}

/// Computes the normalized similarity of two node sequences.
pub fn base_similarity(a: &Vec<AstNode>, b: &Vec<AstNode>, rename_cost: u64) -> (s: u64)
    requires
        rename_cost <= SCALE,
        a@.len() <= MAX_NODES,
        b@.len() <= MAX_NODES,
    ensures
        s as int == spec_base_similarity(a@, b@, rename_cost),
        s <= SCALE,
{
    proof {
        lemma_base_similarity_range(a@, b@, rename_cost);
    }
    let n = if a.len() >= b.len() {
        a.len()
    } else {
        b.len()
    };
    if n == 0 {
        return SCALE;
    }
    let d = tree_edit_distance(a, b, rename_cost);
    proof {
        lemma_edit_dist_bounds(a@, b@, rename_cost);
    }
    ((n as u64) * SCALE - d) / (n as u64)
}

} // verus!
