//! Candidate-pair aggregation for the function engine.
//!
//! Pairs are reported by index into the extractor's output collection,
//! in canonical order: lexicographic by (first index, second index),
//! which — extraction being ordered by file and then line — is the
//! stable key the reporter needs for reproducible output. A unit is
//! never compared against itself, and each unordered pair appears at
//! most once. Fast mode consults the pre-filter before the exact
//! comparator; its soundness proof makes the reported list identical
//! with or without it.

use crate::funcsim::{compare_functions, spec_function_similarity, CodeUnit};
use crate::options::{MAX_NODES, SCALE};
use crate::prefilter::{fingerprint, lemma_prefilter_sound, might_match, spec_fingerprint};
use crate::typesim::{
    naming_score, spec_naming_score, spec_structural_score, spec_type_similarity,
    structural_score, weighted_similarity, TypeComparisonOptions, TypeDefinition,
    TypeLiteralDefinition,
};
use vstd::prelude::*;

verus! {

/// One reported pair of similar functions: indices into the unit list
/// handed to `find_similar_functions`, and the score.
#[derive(Clone, Copy, PartialEq, Eq, Structural, Debug)]
pub struct SimilarFunctionPair {
    /// Index of the first unit; always less than `index2`.
    pub index1: usize,
    /// Index of the second unit.
    pub index2: usize,
    /// The pair's similarity, in `[0, SCALE]`.
    pub similarity: u64,
}

/// Whether the pair `(i, j)` meets the threshold.
pub open spec fn spec_pair_accepted(
    units: Seq<CodeUnit>,
    i: int,
    j: int,
    threshold: u64,
    rename_cost: u64,
    size_penalty: bool,
) -> bool {
    spec_function_similarity(units[i].body@, units[j].body@, rename_cost, size_penalty)
        >= threshold
}

/// The reported pair for indices `(i, j)`.
pub open spec fn spec_pair_at(
    units: Seq<CodeUnit>,
    i: int,
    j: int,
    rename_cost: u64,
    size_penalty: bool,
) -> SimilarFunctionPair {
    SimilarFunctionPair {
        index1: i as usize,
        index2: j as usize,
        similarity: spec_function_similarity(
            units[i].body@,
            units[j].body@,
            rename_cost,
            size_penalty,
        ) as u64,
    }
}

/// The accepted pairs `(i, k)` for `k` in `[j, len)`, in order of `k`.
pub open spec fn spec_pairs_with(
    units: Seq<CodeUnit>,
    threshold: u64,
    rename_cost: u64,
    size_penalty: bool,
    i: int,
    j: int,
) -> Seq<SimilarFunctionPair>
    decreases units.len() - j,
{
    if j < 0 || j >= units.len() {
        Seq::empty()
    } else {
        let rest = spec_pairs_with(units, threshold, rename_cost, size_penalty, i, j + 1);
        if spec_pair_accepted(units, i, j, threshold, rename_cost, size_penalty) {
            seq![spec_pair_at(units, i, j, rename_cost, size_penalty)] + rest
        } else {
            rest
        }
    }
}

/// All accepted pairs with first index at least `i`, in canonical
/// order.
pub open spec fn spec_pairs_from(
    units: Seq<CodeUnit>,
    threshold: u64,
    rename_cost: u64,
    size_penalty: bool,
    i: int,
) -> Seq<SimilarFunctionPair>
    decreases units.len() - i,
{
    if i < 0 || i >= units.len() {
        Seq::empty()
    } else {
        spec_pairs_with(units, threshold, rename_cost, size_penalty, i, i + 1)
            + spec_pairs_from(units, threshold, rename_cost, size_penalty, i + 1)
    }
}

/// The full canonical report: every unordered pair of distinct units
/// whose similarity meets the threshold, exactly once, ordered
/// lexicographically by index.
pub open spec fn spec_similar_function_pairs(
    units: Seq<CodeUnit>,
    threshold: u64,
    rename_cost: u64,
    size_penalty: bool,
) -> Seq<SimilarFunctionPair> {
    spec_pairs_from(units, threshold, rename_cost, size_penalty, 0)
}

/// Reports every pair of distinct units whose similarity meets the
/// threshold. The `fast` toggle only routes pairs through the
/// pre-filter: the postcondition does not mention it, so fast and
/// exhaustive mode provably return the same list.
pub fn find_similar_functions(
    units: &Vec<CodeUnit>,
    threshold: u64,
    rename_cost: u64,
    size_penalty: bool,
    fast: bool,
) -> (pairs: Vec<SimilarFunctionPair>)
    requires
        rename_cost <= SCALE,
        forall|k: int| 0 <= k < units@.len() ==> (#[trigger] units@[k]).body@.len() <= MAX_NODES,
    ensures
        pairs@ == spec_similar_function_pairs(units@, threshold, rename_cost, size_penalty),
        forall|k: int|
            0 <= k < pairs@.len() ==> (#[trigger] pairs@[k]).index1 < pairs@[k].index2
                < units@.len(),
{
    let ghost total = spec_similar_function_pairs(units@, threshold, rename_cost, size_penalty);
    let n = units.len();
    let mut fps: Vec<u64> = Vec::new();
    let mut k: usize = 0;
    while k < n
        invariant
            k <= n,
            n == units@.len(),
            fps@.len() == k,
            forall|q: int| 0 <= q < k ==> fps@[q] == spec_fingerprint(units@[q].body@),
        decreases n - k,
    {
        fps.push(fingerprint(&units[k].body));
        k += 1;
    }
    let mut out: Vec<SimilarFunctionPair> = Vec::new();
    let mut i: usize = 0;
    while i < n
        invariant
            i <= n,
            n == units@.len(),
            rename_cost <= SCALE,
            forall|q: int| 0 <= q < n ==> (#[trigger] units@[q]).body@.len() <= MAX_NODES,
            fps@.len() == n,
            forall|q: int| 0 <= q < n ==> fps@[q] == spec_fingerprint(units@[q].body@),
            out@ + spec_pairs_from(units@, threshold, rename_cost, size_penalty, i as int)
                == total,
            forall|k: int|
                0 <= k < out@.len() ==> (#[trigger] out@[k]).index1 < out@[k].index2 < n,
        decreases n - i,
    {
        let mut j: usize = i + 1;
        while j < n
            invariant
                i < n,
                i < j <= n,
                n == units@.len(),
                rename_cost <= SCALE,
                forall|q: int| 0 <= q < n ==> (#[trigger] units@[q]).body@.len() <= MAX_NODES,
                fps@.len() == n,
                forall|q: int| 0 <= q < n ==> fps@[q] == spec_fingerprint(units@[q].body@),
                out@ + spec_pairs_with(units@, threshold, rename_cost, size_penalty, i as int, j as int)
                    + spec_pairs_from(units@, threshold, rename_cost, size_penalty, i + 1)
                    == total,
                forall|k: int|
                    0 <= k < out@.len() ==> (#[trigger] out@[k]).index1 < out@[k].index2 < n,
            decreases n - j,
        {
            let ghost with_j = spec_pairs_with(
                units@,
                threshold,
                rename_cost,
                size_penalty,
                i as int,
                j as int,
            );
            let ghost with_j1 = spec_pairs_with(
                units@,
                threshold,
                rename_cost,
                size_penalty,
                i as int,
                j + 1,
            );
            let ghost tail = spec_pairs_from(units@, threshold, rename_cost, size_penalty, i + 1);
            let skip = fast && !might_match(fps[i], fps[j], threshold);
            if skip {
                proof {
                    // A skipped pair cannot be accepted: soundness of
                    // the pre-filter.
                    if spec_pair_accepted(
                        units@,
                        i as int,
                        j as int,
                        threshold,
                        rename_cost,
                        size_penalty,
                    ) {
                        lemma_prefilter_sound(
                            units@[i as int].body@,
                            units@[j as int].body@,
                            rename_cost,
                            size_penalty,
                            threshold,
                        );
                    }
                    assert(with_j == with_j1);
                }
            } else {
                let s = compare_functions(&units[i], &units[j], rename_cost, size_penalty);
                if s >= threshold {
                    out.push(SimilarFunctionPair { index1: i, index2: j, similarity: s });
                    proof {
                        assert(with_j == seq![
                            spec_pair_at(units@, i as int, j as int, rename_cost, size_penalty),
                        ] + with_j1);
                        assert(out@ + with_j1 + tail =~= total);
                    }
                } else {
                    proof {
                        assert(with_j == with_j1);
                    }
                }
            }
            j += 1;
        }
        proof {
            assert(spec_pairs_with(
                units@,
                threshold,
                rename_cost,
                size_penalty,
                i as int,
                n as int,
            ) == Seq::<SimilarFunctionPair>::empty());
            assert(out@ + spec_pairs_from(units@, threshold, rename_cost, size_penalty, i + 1)
                =~= out@ + spec_pairs_with(
                units@,
                threshold,
                rename_cost,
                size_penalty,
                i as int,
                n as int,
            ) + spec_pairs_from(units@, threshold, rename_cost, size_penalty, i + 1));
        }
        i += 1;
    }
    proof {
        assert(spec_pairs_from(units@, threshold, rename_cost, size_penalty, n as int)
            == Seq::<SimilarFunctionPair>::empty());
        assert(out@ + Seq::<SimilarFunctionPair>::empty() =~= out@);
    }
    out
}

/// Threshold monotonicity for one row of the pair table.
proof fn lemma_pairs_with_monotone(
    units: Seq<CodeUnit>,
    t1: u64,
    t2: u64,
    rename_cost: u64,
    size_penalty: bool,
    i: int,
    j: int,
)
    requires
        t1 <= t2,
    ensures
        spec_pairs_with(units, t2, rename_cost, size_penalty, i, j).len() <= spec_pairs_with(
            units,
            t1,
            rename_cost,
            size_penalty,
            i,
            j,
        ).len(),
    decreases units.len() - j,
{
    if j < 0 || j >= units.len() {
    } else {
        lemma_pairs_with_monotone(units, t1, t2, rename_cost, size_penalty, i, j + 1);
    }
}

/// Threshold monotonicity for the rows from `i` on.
proof fn lemma_pairs_from_monotone(
    units: Seq<CodeUnit>,
    t1: u64,
    t2: u64,
    rename_cost: u64,
    size_penalty: bool,
    i: int,
)
    requires
        t1 <= t2,
    ensures
        spec_pairs_from(units, t2, rename_cost, size_penalty, i).len() <= spec_pairs_from(
            units,
            t1,
            rename_cost,
            size_penalty,
            i,
        ).len(),
    decreases units.len() - i,
{
    if i < 0 || i >= units.len() {
    } else {
        lemma_pairs_with_monotone(units, t1, t2, rename_cost, size_penalty, i, i + 1);
        lemma_pairs_from_monotone(units, t1, t2, rename_cost, size_penalty, i + 1);
    }
}

/// Threshold monotonicity: for a fixed unit set, raising the
/// similarity threshold never increases the number of reported pairs.
pub proof fn lemma_threshold_monotone(
    units: Seq<CodeUnit>,
    t1: u64,
    t2: u64,
    rename_cost: u64,
    size_penalty: bool,
)
    requires
        t1 <= t2,
    ensures
        spec_similar_function_pairs(units, t2, rename_cost, size_penalty).len()
            <= spec_similar_function_pairs(units, t1, rename_cost, size_penalty).len(),
{
    lemma_pairs_from_monotone(units, t1, t2, rename_cost, size_penalty, 0);
}

/// One reported pair of similar type declarations: indices into the
/// declaration list and the scores. The differences record of a pair
/// can be recovered by handing the two indexed declarations back to
/// `compare_types`.
#[derive(Clone, Copy, PartialEq, Eq, Structural, Debug)]
pub struct SimilarTypePair {
    /// Index of the first declaration; always less than `index2`.
    pub index1: usize,
    /// Index of the second declaration.
    pub index2: usize,
    /// The weighted scalar score.
    pub similarity: u64,
    /// The structural component.
    pub structural_similarity: u64,
    /// The naming component.
    pub naming_similarity: u64,
}

/// One reported pair of a type literal (left) and a type declaration
/// (right).
#[derive(Clone, Copy, PartialEq, Eq, Structural, Debug)]
pub struct TypeLiteralPair {
    /// Index into the literal list.
    pub literal_index: usize,
    /// Index into the declaration list.
    pub type_index: usize,
    /// The weighted scalar score.
    pub similarity: u64,
    /// The structural component.
    pub structural_similarity: u64,
    /// The naming component.
    pub naming_similarity: u64,
}

/// Whether the declaration pair `(i, j)` is eligible — same kind, or
/// cross-kind comparison allowed — and meets the threshold.
pub open spec fn spec_type_pair_accepted(
    types: Seq<TypeDefinition>,
    i: int,
    j: int,
    threshold: u64,
    allow: bool,
    sw: u64,
    nw: u64,
) -> bool {
    &&& (allow || types[i].kind == types[j].kind)
    &&& spec_type_similarity(
        types[i].name@,
        types[i].properties@,
        types[j].name@,
        types[j].properties@,
        sw,
        nw,
    ) >= threshold
}

/// The reported pair for declaration indices `(i, j)`.
pub open spec fn spec_type_pair_at(
    types: Seq<TypeDefinition>,
    i: int,
    j: int,
    sw: u64,
    nw: u64,
) -> SimilarTypePair {
    SimilarTypePair {
        index1: i as usize,
        index2: j as usize,
        similarity: spec_type_similarity(
            types[i].name@,
            types[i].properties@,
            types[j].name@,
            types[j].properties@,
            sw,
            nw,
        ) as u64,
        structural_similarity: spec_structural_score(
            types[i].properties@,
            types[j].properties@,
        ) as u64,
        naming_similarity: spec_naming_score(
            types[i].name@,
            types[i].properties@,
            types[j].name@,
            types[j].properties@,
        ) as u64,
    }
}

/// The accepted type pairs `(i, k)` for `k` in `[j, len)`.
pub open spec fn spec_type_pairs_with(
    types: Seq<TypeDefinition>,
    threshold: u64,
    allow: bool,
    sw: u64,
    nw: u64,
    i: int,
    j: int,
) -> Seq<SimilarTypePair>
    decreases types.len() - j,
{
    if j < 0 || j >= types.len() {
        Seq::empty()
    } else {
        let rest = spec_type_pairs_with(types, threshold, allow, sw, nw, i, j + 1);
        if spec_type_pair_accepted(types, i, j, threshold, allow, sw, nw) {
            seq![spec_type_pair_at(types, i, j, sw, nw)] + rest
        } else {
            rest
        }
    }
}

/// All accepted type pairs with first index at least `i`.
pub open spec fn spec_type_pairs_from(
    types: Seq<TypeDefinition>,
    threshold: u64,
    allow: bool,
    sw: u64,
    nw: u64,
    i: int,
) -> Seq<SimilarTypePair>
    decreases types.len() - i,
{
    if i < 0 || i >= types.len() {
        Seq::empty()
    } else {
        spec_type_pairs_with(types, threshold, allow, sw, nw, i, i + 1) + spec_type_pairs_from(
            types,
            threshold,
            allow,
            sw,
            nw,
            i + 1,
        )
    }
}

/// The canonical type report: every eligible unordered pair of
/// distinct declarations meeting the threshold, once, in index order.
pub open spec fn spec_similar_type_pairs(
    types: Seq<TypeDefinition>,
    threshold: u64,
    allow: bool,
    sw: u64,
    nw: u64,
) -> Seq<SimilarTypePair> {
    spec_type_pairs_from(types, threshold, allow, sw, nw, 0)
}

/// Reports every eligible pair of distinct type declarations whose
/// weighted similarity meets the threshold. By default interfaces are
/// only compared against interfaces and aliases against aliases;
/// `allow_cross_kind_comparison` lifts that restriction.
pub fn find_similar_types(
    types: &Vec<TypeDefinition>,
    threshold: u64,
    options: &TypeComparisonOptions,
) -> (pairs: Vec<SimilarTypePair>)
    requires
        options.wf(),
        forall|k: int| 0 <= k < types@.len() ==> (#[trigger] types@[k]).wf(),
    ensures
        pairs@ == spec_similar_type_pairs(
            types@,
            threshold,
            options.allow_cross_kind_comparison,
            options.structural_weight,
            options.naming_weight,
        ),
        forall|k: int|
            0 <= k < pairs@.len() ==> (#[trigger] pairs@[k]).index1 < pairs@[k].index2
                < types@.len(),
{
    let allow = options.allow_cross_kind_comparison;
    let sw = options.structural_weight;
    let nw = options.naming_weight;
    let ghost total = spec_similar_type_pairs(types@, threshold, allow, sw, nw);
    let n = types.len();
    let mut out: Vec<SimilarTypePair> = Vec::new();
    let mut i: usize = 0;
    while i < n
        invariant
            i <= n,
            n == types@.len(),
            sw <= SCALE,
            nw <= SCALE,
            forall|k: int| 0 <= k < n ==> (#[trigger] types@[k]).wf(),
            out@ + spec_type_pairs_from(types@, threshold, allow, sw, nw, i as int) == total,
            forall|k: int|
                0 <= k < out@.len() ==> (#[trigger] out@[k]).index1 < out@[k].index2 < n,
        decreases n - i,
    {
        let mut j: usize = i + 1;
        while j < n
            invariant
                i < j <= n,
                i < n,
                n == types@.len(),
                sw <= SCALE,
                nw <= SCALE,
                forall|k: int| 0 <= k < n ==> (#[trigger] types@[k]).wf(),
                out@ + spec_type_pairs_with(types@, threshold, allow, sw, nw, i as int, j as int)
                    + spec_type_pairs_from(types@, threshold, allow, sw, nw, i + 1) == total,
                forall|k: int|
                    0 <= k < out@.len() ==> (#[trigger] out@[k]).index1 < out@[k].index2 < n,
            decreases n - j,
        {
            let ghost with_j = spec_type_pairs_with(
                types@,
                threshold,
                allow,
                sw,
                nw,
                i as int,
                j as int,
            );
            let ghost with_j1 = spec_type_pairs_with(
                types@,
                threshold,
                allow,
                sw,
                nw,
                i as int,
                j + 1,
            );
            let ghost tail = spec_type_pairs_from(types@, threshold, allow, sw, nw, i + 1);
            let eligible = allow || types[i].kind == types[j].kind;
            if eligible {
                let st = structural_score(&types[i].properties, &types[j].properties);
                let na = naming_score(
                    &types[i].name,
                    &types[i].properties,
                    &types[j].name,
                    &types[j].properties,
                );
                let sim = weighted_similarity(st, na, sw, nw);
                if sim >= threshold {
                    out.push(
                        SimilarTypePair {
                            index1: i,
                            index2: j,
                            similarity: sim,
                            structural_similarity: st,
                            naming_similarity: na,
                        },
                    );
                    proof {
                        assert(with_j == seq![spec_type_pair_at(types@, i as int, j as int, sw, nw)]
                            + with_j1);
                        assert(out@ + with_j1 + tail =~= total);
                    }
                } else {
                    proof {
                        assert(with_j == with_j1);
                    }
                }
            } else {
                proof {
                    assert(with_j == with_j1);
                }
            }
            j += 1;
        }
        proof {
            assert(out@ + spec_type_pairs_from(types@, threshold, allow, sw, nw, i + 1) =~= out@
                + spec_type_pairs_with(types@, threshold, allow, sw, nw, i as int, n as int)
                + spec_type_pairs_from(types@, threshold, allow, sw, nw, i + 1));
        }
        i += 1;
    }
    proof {
        assert(out@ + Seq::<SimilarTypePair>::empty() =~= out@);
    }
    out
}

/// Whether the literal `li` scored against declaration `ti` meets the
/// threshold. Literal comparison is cross-kind by design.
pub open spec fn spec_literal_pair_accepted(
    lits: Seq<TypeLiteralDefinition>,
    types: Seq<TypeDefinition>,
    li: int,
    ti: int,
    threshold: u64,
    sw: u64,
    nw: u64,
) -> bool {
    spec_type_similarity(
        lits[li].name@,
        lits[li].properties@,
        types[ti].name@,
        types[ti].properties@,
        sw,
        nw,
    ) >= threshold
}

/// The reported pair for literal `li` against declaration `ti`.
pub open spec fn spec_literal_pair_at(
    lits: Seq<TypeLiteralDefinition>,
    types: Seq<TypeDefinition>,
    li: int,
    ti: int,
    sw: u64,
    nw: u64,
) -> TypeLiteralPair {
    TypeLiteralPair {
        literal_index: li as usize,
        type_index: ti as usize,
        similarity: spec_type_similarity(
            lits[li].name@,
            lits[li].properties@,
            types[ti].name@,
            types[ti].properties@,
            sw,
            nw,
        ) as u64,
        structural_similarity: spec_structural_score(
            lits[li].properties@,
            types[ti].properties@,
        ) as u64,
        naming_similarity: spec_naming_score(
            lits[li].name@,
            lits[li].properties@,
            types[ti].name@,
            types[ti].properties@,
        ) as u64,
    }
}

/// The accepted pairs of literal `li` against declarations from `ti`
/// on.
pub open spec fn spec_literal_pairs_with(
    lits: Seq<TypeLiteralDefinition>,
    types: Seq<TypeDefinition>,
    threshold: u64,
    sw: u64,
    nw: u64,
    li: int,
    ti: int,
) -> Seq<TypeLiteralPair>
    decreases types.len() - ti,
{
    if ti < 0 || ti >= types.len() {
        Seq::empty()
    } else {
        let rest = spec_literal_pairs_with(lits, types, threshold, sw, nw, li, ti + 1);
        if spec_literal_pair_accepted(lits, types, li, ti, threshold, sw, nw) {
            seq![spec_literal_pair_at(lits, types, li, ti, sw, nw)] + rest
        } else {
            rest
        }
    }
}

/// All accepted literal pairs with literal index at least `li`.
pub open spec fn spec_literal_pairs_from(
    lits: Seq<TypeLiteralDefinition>,
    types: Seq<TypeDefinition>,
    threshold: u64,
    sw: u64,
    nw: u64,
    li: int,
) -> Seq<TypeLiteralPair>
    decreases lits.len() - li,
{
    if li < 0 || li >= lits.len() {
        Seq::empty()
    } else {
        spec_literal_pairs_with(lits, types, threshold, sw, nw, li, 0) + spec_literal_pairs_from(
            lits,
            types,
            threshold,
            sw,
            nw,
            li + 1,
        )
    }
}

/// The canonical literal report: every (literal, declaration) pair
/// meeting the threshold, literal always the left operand.
pub open spec fn spec_similar_literal_pairs(
    lits: Seq<TypeLiteralDefinition>,
    types: Seq<TypeDefinition>,
    threshold: u64,
    sw: u64,
    nw: u64,
) -> Seq<TypeLiteralPair> {
    spec_literal_pairs_from(lits, types, threshold, sw, nw, 0)
}

/// Reports every type literal similar to a type declaration, with the
/// same scoring as declaration pairs.
pub fn find_similar_type_literals(
    literals: &Vec<TypeLiteralDefinition>,
    types: &Vec<TypeDefinition>,
    threshold: u64,
    options: &TypeComparisonOptions,
) -> (pairs: Vec<TypeLiteralPair>)
    requires
        options.wf(),
        forall|k: int| 0 <= k < literals@.len() ==> (#[trigger] literals@[k]).wf(),
        forall|k: int| 0 <= k < types@.len() ==> (#[trigger] types@[k]).wf(),
    ensures
        pairs@ == spec_similar_literal_pairs(
            literals@,
            types@,
            threshold,
            options.structural_weight,
            options.naming_weight,
        ),
        forall|k: int|
            0 <= k < pairs@.len() ==> (#[trigger] pairs@[k]).literal_index < literals@.len()
                && pairs@[k].type_index < types@.len(),
{
    let sw = options.structural_weight;
    let nw = options.naming_weight;
    let ghost total = spec_similar_literal_pairs(literals@, types@, threshold, sw, nw);
    let nl = literals.len();
    let nt = types.len();
    let mut out: Vec<TypeLiteralPair> = Vec::new();
    let mut li: usize = 0;
    while li < nl
        invariant
            li <= nl,
            nl == literals@.len(),
            nt == types@.len(),
            sw <= SCALE,
            nw <= SCALE,
            forall|k: int| 0 <= k < nl ==> (#[trigger] literals@[k]).wf(),
            forall|k: int| 0 <= k < nt ==> (#[trigger] types@[k]).wf(),
            out@ + spec_literal_pairs_from(literals@, types@, threshold, sw, nw, li as int)
                == total,
            forall|k: int|
                0 <= k < out@.len() ==> (#[trigger] out@[k]).literal_index < nl
                    && out@[k].type_index < nt,
        decreases nl - li,
    {
        let mut ti: usize = 0;
        while ti < nt
            invariant
                li < nl,
                ti <= nt,
                nl == literals@.len(),
                nt == types@.len(),
                sw <= SCALE,
                nw <= SCALE,
                forall|k: int| 0 <= k < nl ==> (#[trigger] literals@[k]).wf(),
                forall|k: int| 0 <= k < nt ==> (#[trigger] types@[k]).wf(),
                out@ + spec_literal_pairs_with(
                    literals@,
                    types@,
                    threshold,
                    sw,
                    nw,
                    li as int,
                    ti as int,
                ) + spec_literal_pairs_from(literals@, types@, threshold, sw, nw, li + 1) == total,
                forall|k: int|
                    0 <= k < out@.len() ==> (#[trigger] out@[k]).literal_index < nl
                        && out@[k].type_index < nt,
            decreases nt - ti,
        {
            let ghost with_t = spec_literal_pairs_with(
                literals@,
                types@,
                threshold,
                sw,
                nw,
                li as int,
                ti as int,
            );
            let ghost with_t1 = spec_literal_pairs_with(
                literals@,
                types@,
                threshold,
                sw,
                nw,
                li as int,
                ti + 1,
            );
            let ghost tail = spec_literal_pairs_from(literals@, types@, threshold, sw, nw, li + 1);
            let st = structural_score(&literals[li].properties, &types[ti].properties);
            let na = naming_score(
                &literals[li].name,
                &literals[li].properties,
                &types[ti].name,
                &types[ti].properties,
            );
            let sim = weighted_similarity(st, na, sw, nw);
            if sim >= threshold {
                out.push(
                    TypeLiteralPair {
                        literal_index: li,
                        type_index: ti,
                        similarity: sim,
                        structural_similarity: st,
                        naming_similarity: na,
                    },
                );
                proof {
                    assert(with_t == seq![
                        spec_literal_pair_at(literals@, types@, li as int, ti as int, sw, nw),
                    ] + with_t1);
                    assert(out@ + with_t1 + tail =~= total);
                }
            } else {
                proof {
                    assert(with_t == with_t1);
                }
            }
            ti += 1;
        }
        proof {
            assert(out@ + spec_literal_pairs_from(literals@, types@, threshold, sw, nw, li + 1)
                =~= out@ + spec_literal_pairs_with(
                literals@,
                types@,
                threshold,
                sw,
                nw,
                li as int,
                nt as int,
            ) + spec_literal_pairs_from(literals@, types@, threshold, sw, nw, li + 1));
        }
        li += 1;
    }
    proof {
        assert(out@ + Seq::<TypeLiteralPair>::empty() =~= out@);
    }
    out
}

/// Threshold monotonicity for one row of the type pair table.
proof fn lemma_type_pairs_with_monotone(
    types: Seq<TypeDefinition>,
    t1: u64,
    t2: u64,
    allow: bool,
    sw: u64,
    nw: u64,
    i: int,
    j: int,
)
    requires
        t1 <= t2,
    ensures
        spec_type_pairs_with(types, t2, allow, sw, nw, i, j).len() <= spec_type_pairs_with(
            types,
            t1,
            allow,
            sw,
            nw,
            i,
            j,
        ).len(),
    decreases types.len() - j,
{
    if j < 0 || j >= types.len() {
    } else {
        lemma_type_pairs_with_monotone(types, t1, t2, allow, sw, nw, i, j + 1);
    }
}

/// Threshold monotonicity for the type rows from `i` on.
proof fn lemma_type_pairs_from_monotone(
    types: Seq<TypeDefinition>,
    t1: u64,
    t2: u64,
    allow: bool,
    sw: u64,
    nw: u64,
    i: int,
)
    requires
        t1 <= t2,
    ensures
        spec_type_pairs_from(types, t2, allow, sw, nw, i).len() <= spec_type_pairs_from(
            types,
            t1,
            allow,
            sw,
            nw,
            i,
        ).len(),
    decreases types.len() - i,
{
    if i < 0 || i >= types.len() {
    } else {
        lemma_type_pairs_with_monotone(types, t1, t2, allow, sw, nw, i, i + 1);
        lemma_type_pairs_from_monotone(types, t1, t2, allow, sw, nw, i + 1);
    }
}

/// Threshold monotonicity for the type engine: raising the threshold
/// never increases the reported pair count.
pub proof fn lemma_type_threshold_monotone(
    types: Seq<TypeDefinition>,
    t1: u64,
    t2: u64,
    allow: bool,
    sw: u64,
    nw: u64,
)
    requires
        t1 <= t2,
    ensures
        spec_similar_type_pairs(types, t2, allow, sw, nw).len() <= spec_similar_type_pairs(
            types,
            t1,
            allow,
            sw,
            nw,
        ).len(),
{
    lemma_type_pairs_from_monotone(types, t1, t2, allow, sw, nw, 0);
}

} // verus!
