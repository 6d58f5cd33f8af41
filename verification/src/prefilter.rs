//! The fast-path pre-filter.
//!
//! Each unit gets a cheap fingerprint: a 64-bit set holding one bit per
//! node kind (kind modulo 64). Two units can only be similar if they
//! share at least one node kind, so a pair whose fingerprints share no
//! bit can be skipped without consulting the exact comparator. The
//! test is false-positive-tolerant and provably false-negative-free:
//! `lemma_prefilter_sound` shows that every pair the exact comparator
//! accepts at a positive threshold passes `might_match`.

use crate::edit::{
    lemma_edit_dist_bounds, lemma_edit_dist_no_shared_kind, max_int, no_shared_kind,
    spec_base_similarity, spec_edit_dist,
};
use crate::funcsim::{spec_function_similarity, spec_size_factor};
use crate::options::SCALE;
use crate::tree::AstNode;
use vstd::arithmetic::div_mod::lemma_div_of0;
use vstd::prelude::*;

verus! {

/// The bit standing for a node's kind.
pub open spec fn kind_mask(n: AstNode) -> u64 {
    1u64 << (n.kind % 64)
}

/// The fingerprint of a node sequence: the union of its kind bits.
pub open spec fn spec_fingerprint(a: Seq<AstNode>) -> u64
    decreases a.len(),
{
    if a.len() == 0 {
        0u64
    } else {
        spec_fingerprint(a.drop_last()) | kind_mask(a.last())
    }
}

/// Whether a pair must be handed to the exact comparator: always at
/// threshold zero or for an empty unit, otherwise exactly when the
/// fingerprints share a bit.
pub open spec fn spec_might_match(f1: u64, f2: u64, threshold: u64) -> bool {
    threshold == 0 || f1 == 0 || f2 == 0 || (f1 & f2) != 0
}

/// Computes the fingerprint of a unit's body.
pub fn fingerprint(body: &Vec<AstNode>) -> (f: u64)
    ensures
        f == spec_fingerprint(body@),
{
    let mut f: u64 = 0;
    let mut i: usize = 0;
    while i < body.len()
        invariant
            i <= body@.len(),
            f == spec_fingerprint(body@.take(i as int)),
        decreases body@.len() - i,
    {
        let k = body[i].kind % 64;
        f = f | (1u64 << k);
        proof {
            assert(body@.take(i + 1).drop_last() =~= body@.take(i as int));
            assert(body@.take(i + 1).last() == body@[i as int]);
        }
        i += 1;
    }
    proof {
        assert(body@.take(body@.len() as int) =~= body@);
    }
    f
}

/// The cheap plausibility test applied before exact comparison.
pub fn might_match(f1: u64, f2: u64, threshold: u64) -> (r: bool)
    ensures
        r == spec_might_match(f1, f2, threshold),
{
    threshold == 0 || f1 == 0 || f2 == 0 || (f1 & f2) != 0
}

/// The kind bit of every node of a sequence is set in its fingerprint.
proof fn lemma_fingerprint_covers(a: Seq<AstNode>, i: int)
    requires
        0 <= i < a.len(),
    ensures
        spec_fingerprint(a) & kind_mask(a[i]) == kind_mask(a[i]),
    decreases a.len(),
{
    let f0 = spec_fingerprint(a.drop_last());
    let m = kind_mask(a.last());
    if i == a.len() - 1 {
        assert((f0 | m) & m == m) by (bit_vector);
    } else {
        lemma_fingerprint_covers(a.drop_last(), i);
        let mi = kind_mask(a[i]);
        assert(f0 & mi == mi ==> (f0 | m) & mi == mi) by (bit_vector);
    }
}

/// Soundness of the pre-filter: a pair that the exact function
/// comparator scores at or above the threshold always passes
/// `might_match`, so fast mode and exhaustive mode report the same
/// pairs. The contrapositive is what the pipeline uses: a skipped pair
/// would have scored below the threshold.
pub proof fn lemma_prefilter_sound(
    a: Seq<AstNode>,
    b: Seq<AstNode>,
    rename_cost: u64,
    size_penalty: bool,
    threshold: u64,
)
    requires
        rename_cost <= SCALE,
        spec_function_similarity(a, b, rename_cost, size_penalty) >= threshold,
    ensures
        spec_might_match(spec_fingerprint(a), spec_fingerprint(b), threshold),
{
    let f1 = spec_fingerprint(a);
    let f2 = spec_fingerprint(b);
    if threshold == 0 || f1 == 0 || f2 == 0 {
    } else if f1 & f2 == 0 {
        // No bit shared: then no kind is shared, the distance is
        // maximal, and the similarity is zero, contradicting the
        // accepted threshold.
        assert(no_shared_kind(a, b)) by {
            if exists|i: int, j: int|
                0 <= i < a.len() && 0 <= j < b.len() && a[i].kind == b[j].kind {
                let (i, j) = choose|i: int, j: int|
                    0 <= i < a.len() && 0 <= j < b.len() && a[i].kind == b[j].kind;
                lemma_fingerprint_covers(a, i);
                lemma_fingerprint_covers(b, j);
                let m = kind_mask(a[i]);
                let s = a[i].kind % 64;
                assert(s < 64 ==> (1u64 << s) != 0) by (bit_vector);
                assert(!(f1 & m == m && f2 & m == m && m != 0 && f1 & f2 == 0)) by (bit_vector);
            }
        }
        // A zero fingerprint comes only from an empty sequence, so
        // both units are non-empty here.
        assert(a.len() > 0 && b.len() > 0);
        let mx = max_int(a.len() as int, b.len() as int);
        lemma_edit_dist_no_shared_kind(a, b, rename_cost);
        lemma_edit_dist_bounds(a, b, rename_cost);
        assert(spec_edit_dist(a, b, rename_cost) == mx * (SCALE as int));
        lemma_div_of0(mx);
        assert(spec_base_similarity(a, b, rename_cost) == 0);
        if size_penalty {
            let f = spec_size_factor(a, b);
            lemma_div_of0(SCALE as int);
            assert(0 * f == 0) by (nonlinear_arith);
            assert(spec_function_similarity(a, b, rename_cost, size_penalty) == 0);
        }
        assert(false);
    }
}

} // verus!
