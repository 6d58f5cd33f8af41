//! The function similarity engine.
//!
//! Two function bodies are scored by the normalized edit distance of
//! their preorder node sequences; an optional multiplicative size
//! penalty scales the score by `min_size / max_size`, so that a small
//! function contained verbatim in a much larger one is not reported as
//! near-identical on subtree containment alone.

use crate::edit::{
    base_similarity, lemma_base_similarity_identity, lemma_base_similarity_range,
    lemma_base_similarity_symmetric, max_int, min_int, spec_base_similarity,
};
use crate::options::{MAX_NODES, SCALE};
use crate::tree::AstNode;
use vstd::arithmetic::div_mod::{
    lemma_div_is_ordered, lemma_div_multiples_vanish, lemma_div_pos_is_pos,
};
use vstd::arithmetic::mul::{lemma_mul_inequality, lemma_mul_nonnegative};
use vstd::prelude::*;

verus! {

/// One extracted function: its provenance, its parameter names, and
/// its body as a preorder node sequence. Immutable once extracted.
#[derive(Debug)]
pub struct CodeUnit {
    /// Path of the file the function was extracted from.
    pub file_path: Vec<u8>,
    /// Declared name of the function.
    pub name: Vec<u8>,
    /// First source line of the function (1-based).
    pub start_line: u32,
    /// Last source line of the function.
    pub end_line: u32,
    /// Parameter names, in declaration order.
    pub params: Vec<Vec<u8>>,
    /// The body, as preorder nodes.
    pub body: Vec<AstNode>,
    /// The body's raw source text, kept for the body-content filter.
    pub body_text: Vec<u8>,
    /// Number of tokens in the body.
    pub token_count: u32,
    /// Number of source lines covered.
    pub line_count: u32,
}

impl CodeUnit {
    /// Every extracted unit covers a non-empty 1-based line span whose
    /// length is its line count, and its body is small enough for all
    /// distance arithmetic to stay in `u64`.
    pub open spec fn wf(self) -> bool {
        &&& 1 <= self.start_line <= self.end_line
        &&& self.line_count == self.end_line - self.start_line + 1
        &&& self.body@.len() <= MAX_NODES
    }
}

/// The size-penalty factor: `min_size / max_size` in fixed point, and
/// 1.0 when both bodies are empty.
pub open spec fn spec_size_factor(a: Seq<AstNode>, b: Seq<AstNode>) -> int {
    let mx = max_int(a.len() as int, b.len() as int);
    let mn = min_int(a.len() as int, b.len() as int);
    if mx == 0 {
        SCALE as int
    } else {
        (mn * (SCALE as int)) / mx
    }
}

/// The similarity the function engine reports: the normalized edit
/// distance score, multiplied by the size-penalty factor when the
/// penalty is enabled.
pub open spec fn spec_function_similarity(
    a: Seq<AstNode>,
    b: Seq<AstNode>,
    rename_cost: u64,
    size_penalty: bool,
) -> int {
    let base = spec_base_similarity(a, b, rename_cost);
    if size_penalty {
        (base * spec_size_factor(a, b)) / (SCALE as int)
    } else {
        base
    }
}

/// The size factor lies in `[0, SCALE]`.
proof fn lemma_size_factor_range(a: Seq<AstNode>, b: Seq<AstNode>)
    ensures
        0 <= spec_size_factor(a, b) <= SCALE,
{
    let mx = max_int(a.len() as int, b.len() as int);
    let mn = min_int(a.len() as int, b.len() as int);
    if mx > 0 {
        lemma_mul_nonnegative(mn, SCALE as int);
        lemma_div_pos_is_pos(mn * (SCALE as int), mx);
        lemma_mul_inequality(mn, mx, SCALE as int);
        lemma_div_is_ordered(mn * (SCALE as int), mx * (SCALE as int), mx);
        lemma_div_multiples_vanish(SCALE as int, mx);
    }
}

/// The reported similarity lies in `[0, SCALE]`.
pub proof fn lemma_function_similarity_range(
    a: Seq<AstNode>,
    b: Seq<AstNode>,
    rename_cost: u64,
    size_penalty: bool,
)
    requires
        rename_cost <= SCALE,
    ensures
        0 <= spec_function_similarity(a, b, rename_cost, size_penalty) <= SCALE,
{
    lemma_base_similarity_range(a, b, rename_cost);
    if size_penalty {
        let base = spec_base_similarity(a, b, rename_cost);
        let f = spec_size_factor(a, b);
        lemma_size_factor_range(a, b);
        lemma_mul_nonnegative(base, f);
        lemma_div_pos_is_pos(base * f, SCALE as int);
        lemma_mul_inequality(base, SCALE as int, f);
        lemma_mul_inequality(f, SCALE as int, SCALE as int);
        vstd::arithmetic::mul::lemma_mul_is_commutative(SCALE as int, f);
        lemma_div_is_ordered(base * f, (SCALE as int) * (SCALE as int), SCALE as int);
    }
}

/// Symmetry: the engine is commutative in its two arguments.
pub proof fn lemma_function_similarity_symmetric(
    a: Seq<AstNode>,
    b: Seq<AstNode>,
    rename_cost: u64,
    size_penalty: bool,
)
    ensures
        spec_function_similarity(a, b, rename_cost, size_penalty) == spec_function_similarity(
            b,
            a,
            rename_cost,
            size_penalty,
        ),
{
    lemma_base_similarity_symmetric(a, b, rename_cost);
}

/// Identity: a function compared with itself scores exactly 1.0,
/// whether or not the size penalty is enabled.
pub proof fn lemma_function_similarity_identity(a: Seq<AstNode>, rename_cost: u64, size_penalty: bool)
    requires
        rename_cost <= SCALE,
    ensures
        spec_function_similarity(a, a, rename_cost, size_penalty) == SCALE,
{
    lemma_base_similarity_identity(a, rename_cost);
    if size_penalty && a.len() > 0 {
        lemma_div_multiples_vanish(SCALE as int, a.len() as int);
    }
}

/// Scores two function bodies.
pub fn compare_functions(a: &CodeUnit, b: &CodeUnit, rename_cost: u64, size_penalty: bool) -> (s:
    u64)
    requires
        rename_cost <= SCALE,
        a.body@.len() <= MAX_NODES,
        b.body@.len() <= MAX_NODES,
    ensures
        s as int == spec_function_similarity(a.body@, b.body@, rename_cost, size_penalty),
        s <= SCALE,
{
    proof {
        lemma_function_similarity_range(a.body@, b.body@, rename_cost, size_penalty);
    }
    let base = base_similarity(&a.body, &b.body, rename_cost);
    if !size_penalty {
        return base;
    }
    let la = a.body.len();
    let lb = b.body.len();
    let mx = if la >= lb {
        la
    } else {
        lb
    };
    let mn = if la <= lb {
        la
    } else {
        lb
    };
    let factor: u64 = if mx == 0 {
        SCALE
    } else {
        proof {
            lemma_size_factor_range(a.body@, b.body@);
        }
        ((mn as u64) * SCALE) / (mx as u64)
    };
    (base * factor) / SCALE
}

} // verus!
