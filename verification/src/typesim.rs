//! The type similarity engine.
//!
//! Two type declarations (or a type literal against a declaration) are
//! scored by a weighted sum of a structural score and a naming score.
//! The structural score is a Dice-style overlap over property
//! (name, type, optionality) tuples in half-credit units: a property
//! whose name, type and optionality all recur on the other side earns
//! full credit, one whose name recurs with a different type or
//! optionality earns half credit (the mismatch penalty), and one whose
//! name is absent earns nothing. The naming score is the larger of the
//! edit similarity of the two declaration names and the overlap of
//! property names alone, so identical shapes are never dragged below
//! threshold by unrelated names. Differences are computed
//! unconditionally so that reporting does not depend on the weighting.

use crate::edit::{
    base_similarity, lemma_base_similarity_identity, lemma_base_similarity_range,
    lemma_base_similarity_symmetric, max_int, min_int, spec_base_similarity,
};
use crate::options::{MAX_NODES, SCALE};
use crate::text::{bytes_eq, copy_bytes};
use crate::tree::{byte_nodes, spec_byte_nodes};
use vstd::arithmetic::div_mod::{
    lemma_div_is_ordered, lemma_div_multiples_vanish, lemma_div_pos_is_pos,
};
use vstd::arithmetic::mul::{lemma_mul_inequality, lemma_mul_is_commutative, lemma_mul_nonnegative};
use vstd::prelude::*;

verus! {

/// The kind of a type declaration. Fixed at extraction.
#[derive(Clone, Copy, PartialEq, Eq, Structural, Debug)]
pub enum TypeKind {
    Interface,
    TypeAlias,
    TypeLiteral,
}

/// One property of a type shape.
#[derive(Debug)]
pub struct Property {
    /// Property name.
    pub name: Vec<u8>,
    /// Its type annotation, as written.
    pub type_annotation: Vec<u8>,
    /// Whether the property is optional.
    pub optional: bool,
    /// Whether the property is readonly.
    pub readonly: bool,
}

/// A named type declaration extracted from a file.
#[derive(Debug)]
pub struct TypeDefinition {
    /// Path of the file the declaration was extracted from.
    pub file_path: Vec<u8>,
    /// Declared name.
    pub name: Vec<u8>,
    /// Interface or type alias.
    pub kind: TypeKind,
    /// Generic parameter names.
    pub generics: Vec<Vec<u8>>,
    /// Names of extended types.
    pub extends: Vec<Vec<u8>>,
    /// The ordered property list.
    pub properties: Vec<Property>,
    /// First source line (1-based).
    pub start_line: u32,
    /// Last source line.
    pub end_line: u32,
}

impl TypeDefinition {
    /// Bounds that keep all scoring arithmetic inside `u64`.
    pub open spec fn wf(self) -> bool {
        &&& 1 <= self.start_line <= self.end_line
        &&& self.name@.len() <= MAX_NODES
        &&& self.properties@.len() <= MAX_NODES
    }
}

/// Where an anonymous type literal was found.
#[derive(Debug)]
pub enum TypeLiteralContext {
    /// Return type of the named function.
    FunctionReturn(Vec<u8>),
    /// Type of a parameter (function name, parameter name).
    FunctionParameter(Vec<u8>, Vec<u8>),
    /// Annotation of the named variable.
    VariableDeclaration(Vec<u8>),
    /// Return type of the named arrow function.
    ArrowFunctionReturn(Vec<u8>),
}

/// An anonymous type shape attached to a context; compared against
/// `TypeDefinition` instances, always as the left operand.
#[derive(Debug)]
pub struct TypeLiteralDefinition {
    /// Path of the file the literal was found in.
    pub file_path: Vec<u8>,
    /// The enclosing name(s), rendered as one tag.
    pub name: Vec<u8>,
    /// The syntactic context the literal appeared in.
    pub context: TypeLiteralContext,
    /// The property list of the shape.
    pub properties: Vec<Property>,
    /// Source line of the literal (1-based).
    pub start_line: u32,
}

impl TypeLiteralDefinition {
    /// Bounds that keep all scoring arithmetic inside `u64`.
    pub open spec fn wf(self) -> bool {
        &&& 1 <= self.start_line
        &&& self.name@.len() <= MAX_NODES
        &&& self.properties@.len() <= MAX_NODES
    }
}

/// Options of the type engine.
#[derive(Clone, Copy, Debug)]
pub struct TypeComparisonOptions {
    /// Whether an interface may be compared against a type alias.
    pub allow_cross_kind_comparison: bool,
    /// Weight of the structural score, in `[0, SCALE]`.
    pub structural_weight: u64,
    /// Weight of the naming score, in `[0, SCALE]`.
    pub naming_weight: u64,
}

impl TypeComparisonOptions {
    /// Weights are fixed-point fractions, each at most 1.0.
    pub open spec fn wf(self) -> bool {
        self.structural_weight <= SCALE && self.naming_weight <= SCALE
    }
}

impl Default for TypeComparisonOptions {
    /// Same-kind comparison only, with the default 0.6/0.4 weighting.
    fn default() -> (r: Self)
        ensures
            r == (TypeComparisonOptions {
                allow_cross_kind_comparison: false,
                structural_weight: crate::options::DEFAULT_STRUCTURAL_WEIGHT,
                naming_weight: crate::options::DEFAULT_NAMING_WEIGHT,
            }),
    {
        TypeComparisonOptions {
            allow_cross_kind_comparison: false,
            structural_weight: crate::options::DEFAULT_STRUCTURAL_WEIGHT,
            naming_weight: crate::options::DEFAULT_NAMING_WEIGHT,
        }
    }
}

/// One recorded type mismatch on a shared property name.
#[derive(Debug)]
pub struct TypeMismatch {
    /// The shared property name.
    pub property: Vec<u8>,
    /// Its annotation on the left side.
    pub type1: Vec<u8>,
    /// Its annotation on the right side.
    pub type2: Vec<u8>,
}

/// The differences record of one comparison, kept for reporting even
/// when the weighting suppresses its contribution to the scalar score.
#[derive(Debug)]
pub struct TypeDifferences {
    /// Names present on the left side only.
    pub missing_properties: Vec<Vec<u8>>,
    /// Names present on the right side only.
    pub extra_properties: Vec<Vec<u8>>,
    /// Shared names whose type annotations disagree.
    pub type_mismatches: Vec<TypeMismatch>,
    /// Shared names, with matching types, whose optionality disagrees.
    pub optionality_differences: Vec<Vec<u8>>,
}

/// The outcome of one type comparison.
#[derive(Debug)]
pub struct TypeComparisonResult {
    /// The weighted scalar score, in `[0, SCALE]`.
    pub similarity: u64,
    /// The structural component.
    pub structural_similarity: u64,
    /// The naming component.
    pub naming_similarity: u64,
    /// The full differences record.
    pub differences: TypeDifferences,
}

/// Whether some property of `qs` has the given name.
pub open spec fn has_name(qs: Seq<Property>, name: Seq<u8>) -> bool {
    exists|k: int| 0 <= k < qs.len() && qs[k].name@ == name
}

/// Whether some property of `qs` matches `p` in name and type.
pub open spec fn has_name_type(qs: Seq<Property>, p: Property) -> bool {
    exists|k: int|
        0 <= k < qs.len() && qs[k].name@ == p.name@ && qs[k].type_annotation@
            == p.type_annotation@
}

/// Whether some property of `qs` matches `p` in name, type and
/// optionality.
pub open spec fn has_full(qs: Seq<Property>, p: Property) -> bool {
    exists|k: int|
        0 <= k < qs.len() && qs[k].name@ == p.name@ && qs[k].type_annotation@
            == p.type_annotation@ && qs[k].optional == p.optional
}

/// Credit earned by one property against the other side, in
/// half-units: 2 for a full tuple match, 1 for a shared name with a
/// type or optionality mismatch, 0 for an unshared name.
pub open spec fn spec_prop_credit(qs: Seq<Property>, p: Property) -> int {
    if has_full(qs, p) {
        2
    } else if has_name(qs, p.name@) {
        1
    } else {
        0
    }
}

/// Total credit of `ps` against `qs`.
pub open spec fn spec_credit(ps: Seq<Property>, qs: Seq<Property>) -> int
    decreases ps.len(),
{
    if ps.len() == 0 {
        0
    } else {
        spec_credit(ps.drop_last(), qs) + spec_prop_credit(qs, ps.last())
    }
}

/// Number of properties of `ps` whose name recurs in `qs`.
pub open spec fn spec_count_named(ps: Seq<Property>, qs: Seq<Property>) -> int
    decreases ps.len(),
{
    if ps.len() == 0 {
        0
    } else {
        spec_count_named(ps.drop_last(), qs) + if has_name(qs, ps.last().name@) {
            1int
        } else {
            0int
        }
    }
}

/// The structural score: credit earned in both directions over the
/// total available, and 1.0 for two empty shapes.
pub open spec fn spec_structural_score(ap: Seq<Property>, bp: Seq<Property>) -> int {
    let total = (ap.len() + bp.len()) as int;
    if total == 0 {
        SCALE as int
    } else {
        ((spec_credit(ap, bp) + spec_credit(bp, ap)) * (SCALE as int)) / (2 * total)
    }
}

/// Edit similarity of the two declaration names, one leaf node per
/// byte. The rename cost is irrelevant for leaves and fixed at zero.
pub open spec fn spec_name_similarity(an: Seq<u8>, bn: Seq<u8>) -> int {
    spec_base_similarity(spec_byte_nodes(an), spec_byte_nodes(bn), 0)
}

/// Overlap of property names alone, independent of types.
pub open spec fn spec_prop_name_overlap(ap: Seq<Property>, bp: Seq<Property>) -> int {
    let total = (ap.len() + bp.len()) as int;
    if total == 0 {
        SCALE as int
    } else {
        ((spec_count_named(ap, bp) + spec_count_named(bp, ap)) * (SCALE as int)) / total
    }
}

/// The naming score: the larger of declaration-name similarity and
/// property-name overlap. Taking the larger of the two measures lets
/// declarations of identical shape earn full naming credit whatever
/// their names, so that a shape-identical pair clears the default
/// threshold whenever it is eligible at all.
pub open spec fn spec_naming_score(
    an: Seq<u8>,
    ap: Seq<Property>,
    bn: Seq<u8>,
    bp: Seq<Property>,
) -> int {
    max_int(spec_name_similarity(an, bn), spec_prop_name_overlap(ap, bp))
}

/// The weighted scalar: `structural_weight * structural +
/// naming_weight * naming`, capped at 1.0 (the cap only matters when
/// the weights sum to more than 1.0, which is tolerated with a
/// warning).
pub open spec fn spec_weighted(st: int, na: int, sw: u64, nw: u64) -> int {
    min_int(((sw as int) * st + (nw as int) * na) / (SCALE as int), SCALE as int)
}

/// The scalar similarity the type engine reports.
pub open spec fn spec_type_similarity(
    an: Seq<u8>,
    ap: Seq<Property>,
    bn: Seq<u8>,
    bp: Seq<Property>,
    sw: u64,
    nw: u64,
) -> int {
    spec_weighted(spec_structural_score(ap, bp), spec_naming_score(an, ap, bn, bp), sw, nw)
}

/// Credit is bounded by twice the property count.
proof fn lemma_credit_bounds(ps: Seq<Property>, qs: Seq<Property>)
    ensures
        0 <= spec_credit(ps, qs) <= 2 * ps.len(),
    decreases ps.len(),
{
    if ps.len() == 0 {
    } else {
        lemma_credit_bounds(ps.drop_last(), qs);
    }
}

/// The name count is bounded by the property count.
proof fn lemma_count_named_bounds(ps: Seq<Property>, qs: Seq<Property>)
    ensures
        0 <= spec_count_named(ps, qs) <= ps.len(),
    decreases ps.len(),
{
    if ps.len() == 0 {
    } else {
        lemma_count_named_bounds(ps.drop_last(), qs);
    }
}

/// The structural score lies in `[0, SCALE]`.
pub proof fn lemma_structural_score_range(ap: Seq<Property>, bp: Seq<Property>)
    ensures
        0 <= spec_structural_score(ap, bp) <= SCALE,
{
    let total = (ap.len() + bp.len()) as int;
    if total > 0 {
        lemma_credit_bounds(ap, bp);
        lemma_credit_bounds(bp, ap);
        let c = spec_credit(ap, bp) + spec_credit(bp, ap);
        lemma_mul_nonnegative(c, SCALE as int);
        lemma_div_pos_is_pos(c * (SCALE as int), 2 * total);
        lemma_mul_inequality(c, 2 * total, SCALE as int);
        lemma_div_is_ordered(c * (SCALE as int), (2 * total) * (SCALE as int), 2 * total);
        lemma_div_multiples_vanish(SCALE as int, 2 * total);
    }
}

/// The property-name overlap lies in `[0, SCALE]`.
pub proof fn lemma_prop_name_overlap_range(ap: Seq<Property>, bp: Seq<Property>)
    ensures
        0 <= spec_prop_name_overlap(ap, bp) <= SCALE,
{
    let total = (ap.len() + bp.len()) as int;
    if total > 0 {
        lemma_count_named_bounds(ap, bp);
        lemma_count_named_bounds(bp, ap);
        let c = spec_count_named(ap, bp) + spec_count_named(bp, ap);
        lemma_mul_nonnegative(c, SCALE as int);
        lemma_div_pos_is_pos(c * (SCALE as int), total);
        lemma_mul_inequality(c, total, SCALE as int);
        lemma_div_is_ordered(c * (SCALE as int), total * (SCALE as int), total);
        lemma_div_multiples_vanish(SCALE as int, total);
    }
}

/// The naming score lies in `[0, SCALE]`.
pub proof fn lemma_naming_score_range(an: Seq<u8>, ap: Seq<Property>, bn: Seq<u8>, bp: Seq<Property>)
    ensures
        0 <= spec_naming_score(an, ap, bn, bp) <= SCALE,
{
    lemma_base_similarity_range(spec_byte_nodes(an), spec_byte_nodes(bn), 0);
    lemma_prop_name_overlap_range(ap, bp);
}

/// The weighted scalar lies in `[0, SCALE]` for scores in range.
pub proof fn lemma_weighted_range(st: int, na: int, sw: u64, nw: u64)
    requires
        0 <= st,
        0 <= na,
    ensures
        0 <= spec_weighted(st, na, sw, nw) <= SCALE,
{
    lemma_mul_nonnegative(sw as int, st);
    lemma_mul_nonnegative(nw as int, na);
    lemma_div_pos_is_pos((sw as int) * st + (nw as int) * na, SCALE as int);
}

/// Symmetry: the type engine is commutative in its two operands.
pub proof fn lemma_type_similarity_symmetric(
    an: Seq<u8>,
    ap: Seq<Property>,
    bn: Seq<u8>,
    bp: Seq<Property>,
    sw: u64,
    nw: u64,
)
    ensures
        spec_type_similarity(an, ap, bn, bp, sw, nw) == spec_type_similarity(
            bn,
            bp,
            an,
            ap,
            sw,
            nw,
        ),
        spec_structural_score(ap, bp) == spec_structural_score(bp, ap),
        spec_naming_score(an, ap, bn, bp) == spec_naming_score(bn, bp, an, ap),
{
    lemma_base_similarity_symmetric(spec_byte_nodes(an), spec_byte_nodes(bn), 0);
}

/// Every property of `ps` that recurs in full in `qs` earns full
/// credit.
proof fn lemma_credit_full(ps: Seq<Property>, qs: Seq<Property>)
    requires
        forall|k: int| 0 <= k < ps.len() ==> has_full(qs, #[trigger] ps[k]),
    ensures
        spec_credit(ps, qs) == 2 * ps.len(),
    decreases ps.len(),
{
    if ps.len() > 0 {
        assert(ps.last() == ps[ps.len() - 1]);
        lemma_credit_full(ps.drop_last(), qs);
    }
}

/// Every property of `ps` whose name recurs in `qs` counts.
proof fn lemma_count_named_full(ps: Seq<Property>, qs: Seq<Property>)
    requires
        forall|k: int| 0 <= k < ps.len() ==> has_name(qs, (#[trigger] ps[k]).name@),
    ensures
        spec_count_named(ps, qs) == ps.len(),
    decreases ps.len(),
{
    if ps.len() > 0 {
        assert(ps.last() == ps[ps.len() - 1]);
        lemma_count_named_full(ps.drop_last(), qs);
    }
}

/// Identity: a declaration compared with itself scores exactly 1.0
/// when the weights sum to 1.0 (with other weightings the scalar is
/// `(sw + nw) / SCALE`, which is what proceeding under an invariant
/// warning means).
pub proof fn lemma_type_similarity_identity(an: Seq<u8>, ap: Seq<Property>, sw: u64, nw: u64)
    requires
        sw + nw == SCALE,
    ensures
        spec_type_similarity(an, ap, an, ap, sw, nw) == SCALE,
        spec_structural_score(ap, ap) == SCALE,
        spec_naming_score(an, ap, an, ap) == SCALE,
{
    let l = ap.len() as int;
    assert forall|k: int| 0 <= k < ap.len() implies has_full(ap, #[trigger] ap[k]) by {
        assert(0 <= k < ap.len() && ap[k].name@ == ap[k].name@ && ap[k].type_annotation@
            == ap[k].type_annotation@ && ap[k].optional == ap[k].optional);
    }
    assert forall|k: int| 0 <= k < ap.len() implies has_name(ap, (#[trigger] ap[k]).name@) by {
        assert(0 <= k < ap.len() && ap[k].name@ == ap[k].name@);
    }
    if l > 0 {
        lemma_credit_full(ap, ap);
        lemma_count_named_full(ap, ap);
        assert((2 * l + 2 * l) * (SCALE as int) == (4 * l) * (SCALE as int));
        lemma_div_multiples_vanish(SCALE as int, 4 * l);
        assert(spec_structural_score(ap, ap) == SCALE);
        assert((l + l) * (SCALE as int) == (2 * l) * (SCALE as int));
        lemma_div_multiples_vanish(SCALE as int, 2 * l);
        assert(spec_prop_name_overlap(ap, ap) == SCALE);
    }
    lemma_base_similarity_identity(spec_byte_nodes(an), 0);
    assert(spec_naming_score(an, ap, an, ap) == SCALE);
    assert((sw as int) * (SCALE as int) + (nw as int) * (SCALE as int) == ((sw + nw) as int) * (
    SCALE as int)) by (nonlinear_arith);
    assert(spec_type_similarity(an, ap, an, ap, sw, nw) == SCALE);
}

/// Weight sensitivity: for a fixed pair, raising the naming weight
/// never decreases the naming component's contribution
/// (`naming_weight * naming`) nor, with the structural side fixed, the
/// weighted scalar.
pub proof fn lemma_naming_weight_sensitivity(
    an: Seq<u8>,
    ap: Seq<Property>,
    bn: Seq<u8>,
    bp: Seq<Property>,
    sw: u64,
    nw1: u64,
    nw2: u64,
)
    requires
        nw1 <= nw2,
    ensures
        (nw1 as int) * spec_naming_score(an, ap, bn, bp) <= (nw2 as int) * spec_naming_score(
            an,
            ap,
            bn,
            bp,
        ),
        spec_type_similarity(an, ap, bn, bp, sw, nw1) <= spec_type_similarity(
            an,
            ap,
            bn,
            bp,
            sw,
            nw2,
        ),
{
    let na = spec_naming_score(an, ap, bn, bp);
    let st = spec_structural_score(ap, bp);
    lemma_naming_score_range(an, ap, bn, bp);
    lemma_mul_inequality(nw1 as int, nw2 as int, na);
    lemma_mul_is_commutative(nw1 as int, na);
    lemma_mul_is_commutative(nw2 as int, na);
    lemma_div_is_ordered(
        (sw as int) * st + (nw1 as int) * na,
        (sw as int) * st + (nw2 as int) * na,
        SCALE as int,
    );
}

/// Whether some property of `qs` carries this name.
fn contains_name(qs: &Vec<Property>, name: &Vec<u8>) -> (r: bool)
    ensures
        r == has_name(qs@, name@),
{
    let mut k: usize = 0;
    while k < qs.len()
        invariant
            k <= qs@.len(),
            forall|q: int| 0 <= q < k ==> (#[trigger] qs@[q]).name@ != name@,
        decreases qs@.len() - k,
    {
        if bytes_eq(&qs[k].name, name) {
            return true;
        }
        k += 1;
    }
    false
}

/// Whether some property of `qs` matches `p` in name and type.
fn contains_name_type(qs: &Vec<Property>, p: &Property) -> (r: bool)
    ensures
        r == has_name_type(qs@, *p),
{
    let mut k: usize = 0;
    while k < qs.len()
        invariant
            k <= qs@.len(),
            forall|q: int|
                0 <= q < k ==> !((#[trigger] qs@[q]).name@ == p.name@ && qs@[q].type_annotation@
                    == p.type_annotation@),
        decreases qs@.len() - k,
    {
        if bytes_eq(&qs[k].name, &p.name) && bytes_eq(&qs[k].type_annotation, &p.type_annotation) {
            return true;
        }
        k += 1;
    }
    false
}

/// Whether some property of `qs` matches `p` in name, type and
/// optionality.
fn contains_full(qs: &Vec<Property>, p: &Property) -> (r: bool)
    ensures
        r == has_full(qs@, *p),
{
    let mut k: usize = 0;
    while k < qs.len()
        invariant
            k <= qs@.len(),
            forall|q: int|
                0 <= q < k ==> !((#[trigger] qs@[q]).name@ == p.name@ && qs@[q].type_annotation@
                    == p.type_annotation@ && qs@[q].optional == p.optional),
        decreases qs@.len() - k,
    {
        if bytes_eq(&qs[k].name, &p.name) && bytes_eq(&qs[k].type_annotation, &p.type_annotation)
            && qs[k].optional == p.optional {
            return true;
        }
        k += 1;
    }
    false
}

/// Total credit of `ps` against `qs`, in half-units.
fn credit_sum(ps: &Vec<Property>, qs: &Vec<Property>) -> (c: u64)
    requires
        ps@.len() <= MAX_NODES,
    ensures
        c as int == spec_credit(ps@, qs@),
{
    let mut c: u64 = 0;
    let mut i: usize = 0;
    while i < ps.len()
        invariant
            i <= ps@.len() <= MAX_NODES,
            c as int == spec_credit(ps@.take(i as int), qs@),
            c <= 2 * i,
        decreases ps@.len() - i,
    {
        let p = &ps[i];
        let add: u64 = if contains_full(qs, p) {
            2
        } else if contains_name(qs, &p.name) {
            1
        } else {
            0
        };
        proof {
            assert(ps@.take(i + 1).drop_last() =~= ps@.take(i as int));
            assert(ps@.take(i + 1).last() == ps@[i as int]);
        }
        c += add;
        i += 1;
    }
    proof {
        assert(ps@.take(ps@.len() as int) =~= ps@);
    }
    c
}

/// Number of properties of `ps` whose name recurs in `qs`.
fn count_named_sum(ps: &Vec<Property>, qs: &Vec<Property>) -> (c: u64)
    requires
        ps@.len() <= MAX_NODES,
    ensures
        c as int == spec_count_named(ps@, qs@),
{
    let mut c: u64 = 0;
    let mut i: usize = 0;
    while i < ps.len()
        invariant
            i <= ps@.len() <= MAX_NODES,
            c as int == spec_count_named(ps@.take(i as int), qs@),
            c <= i,
        decreases ps@.len() - i,
    {
        let named = contains_name(qs, &ps[i].name);
        proof {
            assert(ps@.take(i + 1).drop_last() =~= ps@.take(i as int));
            assert(ps@.take(i + 1).last() == ps@[i as int]);
        }
        if named {
            c += 1;
        }
        i += 1;
    }
    proof {
        assert(ps@.take(ps@.len() as int) =~= ps@);
    }
    c
}

/// Computes the structural score of two property lists.
pub fn structural_score(ap: &Vec<Property>, bp: &Vec<Property>) -> (s: u64)
    requires
        ap@.len() <= MAX_NODES,
        bp@.len() <= MAX_NODES,
    ensures
        s as int == spec_structural_score(ap@, bp@),
        s <= SCALE,
{
    proof {
        lemma_structural_score_range(ap@, bp@);
        lemma_credit_bounds(ap@, bp@);
        lemma_credit_bounds(bp@, ap@);
    }
    let la = ap.len();
    let lb = bp.len();
    if la == 0 && lb == 0 {
        return SCALE;
    }
    let c = credit_sum(ap, bp) + credit_sum(bp, ap);
    (c * SCALE) / (2 * ((la as u64) + (lb as u64)))
}

/// Computes the naming score of two named shapes.
pub fn naming_score(an: &Vec<u8>, ap: &Vec<Property>, bn: &Vec<u8>, bp: &Vec<Property>) -> (s: u64)
    requires
        an@.len() <= MAX_NODES,
        bn@.len() <= MAX_NODES,
        ap@.len() <= MAX_NODES,
        bp@.len() <= MAX_NODES,
    ensures
        s as int == spec_naming_score(an@, ap@, bn@, bp@),
        s <= SCALE,
{
    proof {
        lemma_naming_score_range(an@, ap@, bn@, bp@);
        lemma_prop_name_overlap_range(ap@, bp@);
        lemma_base_similarity_range(spec_byte_nodes(an@), spec_byte_nodes(bn@), 0);
        lemma_count_named_bounds(ap@, bp@);
        lemma_count_named_bounds(bp@, ap@);
    }
    let na = byte_nodes(an);
    let nb = byte_nodes(bn);
    let nsim = base_similarity(&na, &nb, 0);
    let la = ap.len();
    let lb = bp.len();
    let overlap: u64 = if la == 0 && lb == 0 {
        SCALE
    } else {
        let c = count_named_sum(ap, bp) + count_named_sum(bp, ap);
        (c * SCALE) / ((la as u64) + (lb as u64))
    };
    if nsim >= overlap {
        nsim
    } else {
        overlap
    }
}

/// Computes the weighted scalar from the two component scores.
pub fn weighted_similarity(st: u64, na: u64, sw: u64, nw: u64) -> (s: u64)
    requires
        st <= SCALE,
        na <= SCALE,
        sw <= SCALE,
        nw <= SCALE,
    ensures
        s as int == spec_weighted(st as int, na as int, sw, nw),
        s <= SCALE,
{
    proof {
        lemma_mul_inequality(sw as int, SCALE as int, st as int);
        lemma_mul_inequality(nw as int, SCALE as int, na as int);
        lemma_mul_is_commutative(SCALE as int, st as int);
        lemma_mul_is_commutative(SCALE as int, na as int);
        lemma_mul_inequality(st as int, SCALE as int, SCALE as int);
        lemma_mul_inequality(na as int, SCALE as int, SCALE as int);
    }
    let v = (sw * st + nw * na) / SCALE;
    if v > SCALE {
        SCALE
    } else {
        v
    }
}

/// The views of a list of byte strings.
pub open spec fn names_view(v: Seq<Vec<u8>>) -> Seq<Seq<u8>> {
    v.map_values(|x: Vec<u8>| x@)
}

/// The views of a list of recorded mismatches.
pub open spec fn mismatches_view(v: Seq<TypeMismatch>) -> Seq<(Seq<u8>, Seq<u8>, Seq<u8>)> {
    v.map_values(|m: TypeMismatch| (m.property@, m.type1@, m.type2@))
}

/// Names of properties of `ap` whose name does not recur in `bp`, in
/// input order.
pub open spec fn spec_missing_names(ap: Seq<Property>, bp: Seq<Property>) -> Seq<Seq<u8>>
    decreases ap.len(),
{
    if ap.len() == 0 {
        Seq::empty()
    } else {
        let rest = spec_missing_names(ap.drop_last(), bp);
        if !has_name(bp, ap.last().name@) {
            rest.push(ap.last().name@)
        } else {
            rest
        }
    }
}

/// Names of properties of `ap` that recur in `bp` with the same type
/// but different optionality, in input order.
pub open spec fn spec_optionality_names(ap: Seq<Property>, bp: Seq<Property>) -> Seq<Seq<u8>>
    decreases ap.len(),
{
    if ap.len() == 0 {
        Seq::empty()
    } else {
        let rest = spec_optionality_names(ap.drop_last(), bp);
        if has_name_type(bp, ap.last()) && !has_full(bp, ap.last()) {
            rest.push(ap.last().name@)
        } else {
            rest
        }
    }
}

/// The annotation of the first property of `qs` carrying `name`, and
/// the empty string where none does.
pub open spec fn spec_first_named_type(qs: Seq<Property>, name: Seq<u8>) -> Seq<u8>
    decreases qs.len(),
{
    if qs.len() == 0 {
        Seq::empty()
    } else if qs.first().name@ == name {
        qs.first().type_annotation@
    } else {
        spec_first_named_type(qs.drop_first(), name)
    }
}

/// The recorded mismatches: properties of `ap` whose name recurs in
/// `bp` under a different annotation, paired with the annotation of
/// the first such `bp` property, in input order.
pub open spec fn spec_mismatch_list(ap: Seq<Property>, bp: Seq<Property>) -> Seq<
    (Seq<u8>, Seq<u8>, Seq<u8>),
>
    decreases ap.len(),
{
    if ap.len() == 0 {
        Seq::empty()
    } else {
        let rest = spec_mismatch_list(ap.drop_last(), bp);
        let p = ap.last();
        if has_name(bp, p.name@) && !has_name_type(bp, p) {
            rest.push((p.name@, p.type_annotation@, spec_first_named_type(bp, p.name@)))
        } else {
            rest
        }
    }
}

/// Collects the names of `ap` absent from `bp`.
fn missing_names(ap: &Vec<Property>, bp: &Vec<Property>) -> (out: Vec<Vec<u8>>)
    ensures
        names_view(out@) == spec_missing_names(ap@, bp@),
{
    let mut out: Vec<Vec<u8>> = Vec::new();
    let mut i: usize = 0;
    while i < ap.len()
        invariant
            i <= ap@.len(),
            names_view(out@) =~= spec_missing_names(ap@.take(i as int), bp@),
        decreases ap@.len() - i,
    {
        proof {
            assert(ap@.take(i + 1).drop_last() =~= ap@.take(i as int));
            assert(ap@.take(i + 1).last() == ap@[i as int]);
        }
        if !contains_name(bp, &ap[i].name) {
            out.push(copy_bytes(&ap[i].name));
        }
        proof {
            assert(names_view(out@) =~= spec_missing_names(ap@.take(i + 1), bp@));
        }
        i += 1;
    }
    proof {
        assert(ap@.take(ap@.len() as int) =~= ap@);
    }
    out
}

/// Collects the names of `ap` whose optionality disagrees with `bp`.
fn optionality_names(ap: &Vec<Property>, bp: &Vec<Property>) -> (out: Vec<Vec<u8>>)
    ensures
        names_view(out@) == spec_optionality_names(ap@, bp@),
{
    let mut out: Vec<Vec<u8>> = Vec::new();
    let mut i: usize = 0;
    while i < ap.len()
        invariant
            i <= ap@.len(),
            names_view(out@) =~= spec_optionality_names(ap@.take(i as int), bp@),
        decreases ap@.len() - i,
    {
        proof {
            assert(ap@.take(i + 1).drop_last() =~= ap@.take(i as int));
            assert(ap@.take(i + 1).last() == ap@[i as int]);
        }
        if contains_name_type(bp, &ap[i]) && !contains_full(bp, &ap[i]) {
            out.push(copy_bytes(&ap[i].name));
        }
        proof {
            assert(names_view(out@) =~= spec_optionality_names(ap@.take(i + 1), bp@));
        }
        i += 1;
    }
    proof {
        assert(ap@.take(ap@.len() as int) =~= ap@);
    }
    out
}

/// The annotation of the first property of `qs` carrying `name`.
fn first_named_type(qs: &Vec<Property>, name: &Vec<u8>) -> (r: Vec<u8>)
    ensures
        r@ == spec_first_named_type(qs@, name@),
{
    proof {
        assert(qs@.skip(0) =~= qs@);
    }
    let mut k: usize = 0;
    while k < qs.len()
        invariant
            k <= qs@.len(),
            spec_first_named_type(qs@, name@) == spec_first_named_type(qs@.skip(k as int), name@),
        decreases qs@.len() - k,
    {
        proof {
            assert(qs@.skip(k as int).first() == qs@[k as int]);
            assert(qs@.skip(k as int).drop_first() =~= qs@.skip(k + 1));
        }
        if bytes_eq(&qs[k].name, name) {
            return copy_bytes(&qs[k].type_annotation);
        }
        k += 1;
    }
    Vec::new()
}

/// Collects the recorded type mismatches of `ap` against `bp`.
fn mismatch_list(ap: &Vec<Property>, bp: &Vec<Property>) -> (out: Vec<TypeMismatch>)
    ensures
        mismatches_view(out@) == spec_mismatch_list(ap@, bp@),
{
    let mut out: Vec<TypeMismatch> = Vec::new();
    let mut i: usize = 0;
    while i < ap.len()
        invariant
            i <= ap@.len(),
            mismatches_view(out@) =~= spec_mismatch_list(ap@.take(i as int), bp@),
        decreases ap@.len() - i,
    {
        proof {
            assert(ap@.take(i + 1).drop_last() =~= ap@.take(i as int));
            assert(ap@.take(i + 1).last() == ap@[i as int]);
        }
        if contains_name(bp, &ap[i].name) && !contains_name_type(bp, &ap[i]) {
            let ty2 = first_named_type(bp, &ap[i].name);
            out.push(
                TypeMismatch {
                    property: copy_bytes(&ap[i].name),
                    type1: copy_bytes(&ap[i].type_annotation),
                    type2: ty2,
                },
            );
        }
        proof {
            assert(mismatches_view(out@) =~= spec_mismatch_list(ap@.take(i + 1), bp@));
        }
        i += 1;
    }
    proof {
        assert(ap@.take(ap@.len() as int) =~= ap@);
    }
    out
}

/// Compares two type declarations: both component scores, the
/// weighted scalar, and the full differences record, computed
/// unconditionally.
pub fn compare_types(a: &TypeDefinition, b: &TypeDefinition, options: &TypeComparisonOptions) -> (r:
    TypeComparisonResult)
    requires
        a.wf(),
        b.wf(),
        options.wf(),
    ensures
        r.structural_similarity as int == spec_structural_score(a.properties@, b.properties@),
        r.naming_similarity as int == spec_naming_score(
            a.name@,
            a.properties@,
            b.name@,
            b.properties@,
        ),
        r.similarity as int == spec_type_similarity(
            a.name@,
            a.properties@,
            b.name@,
            b.properties@,
            options.structural_weight,
            options.naming_weight,
        ),
        r.similarity <= SCALE,
        names_view(r.differences.missing_properties@) == spec_missing_names(
            a.properties@,
            b.properties@,
        ),
        names_view(r.differences.extra_properties@) == spec_missing_names(
            b.properties@,
            a.properties@,
        ),
        mismatches_view(r.differences.type_mismatches@) == spec_mismatch_list(
            a.properties@,
            b.properties@,
        ),
        names_view(r.differences.optionality_differences@) == spec_optionality_names(
            a.properties@,
            b.properties@,
        ),
{
    let st = structural_score(&a.properties, &b.properties);
    let na = naming_score(&a.name, &a.properties, &b.name, &b.properties);
    let sim = weighted_similarity(st, na, options.structural_weight, options.naming_weight);
    TypeComparisonResult {
        similarity: sim,
        structural_similarity: st,
        naming_similarity: na,
        differences: TypeDifferences {
            missing_properties: missing_names(&a.properties, &b.properties),
            extra_properties: missing_names(&b.properties, &a.properties),
            type_mismatches: mismatch_list(&a.properties, &b.properties),
            optionality_differences: optionality_names(&a.properties, &b.properties),
        },
    }
}

/// Compares a type literal (always the left operand) against a type
/// declaration, with the same scoring.
pub fn compare_type_literal(
    lit: &TypeLiteralDefinition,
    def: &TypeDefinition,
    options: &TypeComparisonOptions,
) -> (r: TypeComparisonResult)
    requires
        lit.wf(),
        def.wf(),
        options.wf(),
    ensures
        r.structural_similarity as int == spec_structural_score(lit.properties@, def.properties@),
        r.naming_similarity as int == spec_naming_score(
            lit.name@,
            lit.properties@,
            def.name@,
            def.properties@,
        ),
        r.similarity as int == spec_type_similarity(
            lit.name@,
            lit.properties@,
            def.name@,
            def.properties@,
            options.structural_weight,
            options.naming_weight,
        ),
        r.similarity <= SCALE,
        names_view(r.differences.missing_properties@) == spec_missing_names(
            lit.properties@,
            def.properties@,
        ),
        names_view(r.differences.extra_properties@) == spec_missing_names(
            def.properties@,
            lit.properties@,
        ),
        mismatches_view(r.differences.type_mismatches@) == spec_mismatch_list(
            lit.properties@,
            def.properties@,
        ),
        names_view(r.differences.optionality_differences@) == spec_optionality_names(
            lit.properties@,
            def.properties@,
        ),
{
    let st = structural_score(&lit.properties, &def.properties);
    let na = naming_score(&lit.name, &lit.properties, &def.name, &def.properties);
    let sim = weighted_similarity(st, na, options.structural_weight, options.naming_weight);
    TypeComparisonResult {
        similarity: sim,
        structural_similarity: st,
        naming_similarity: na,
        differences: TypeDifferences {
            missing_properties: missing_names(&lit.properties, &def.properties),
            extra_properties: missing_names(&def.properties, &lit.properties),
            type_mismatches: mismatch_list(&lit.properties, &def.properties),
            optionality_differences: optionality_names(&lit.properties, &def.properties),
        },
    }
}

} // verus!
