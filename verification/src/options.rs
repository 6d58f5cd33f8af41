//! Configuration values and the rules that validate them.

use vstd::prelude::*;

verus! {

/// Every score, weight, threshold and cost in the crate is a fixed-point
/// fraction of `SCALE`: the integer `v` stands for the real number
/// `v / SCALE`, so `SCALE` itself is 1.0 (maximal similarity).
pub const SCALE: u64 = 10_000;

/// Default similarity threshold (0.87).
pub const DEFAULT_THRESHOLD: u64 = 8_700;

/// Default cost of relabeling a node in the edit distance (0.3).
pub const DEFAULT_RENAME_COST: u64 = 3_000;

/// Default minimum line count for a function to be considered.
pub const DEFAULT_MIN_LINES: u32 = 3;

/// Default weight of the structural component of a type comparison (0.6).
pub const DEFAULT_STRUCTURAL_WEIGHT: u64 = 6_000;

/// Default weight of the naming component of a type comparison (0.4).
pub const DEFAULT_NAMING_WEIGHT: u64 = 4_000;

/// Default smallest overlap window, in nodes.
pub const DEFAULT_MIN_WINDOW: u32 = 8;

/// Default largest overlap window, in nodes.
pub const DEFAULT_MAX_WINDOW: u32 = 25;

/// Default relative size tolerance between two overlap windows (0.25).
pub const DEFAULT_SIZE_TOLERANCE: u64 = 2_500;

/// Hard cap on the number of nodes in any compared unit, so that every
/// intermediate distance value fits comfortably in a `u64`.
pub const MAX_NODES: usize = 1_000_000;

/// The minimum-size rule applied to extracted functions: either a line
/// minimum or a token minimum, never both at once.
pub enum SizeFilter {
    MinLines(u32),
    MinTokens(u32),
}

/// A configuration fault that is fatal to the whole run.
pub enum ConfigError {
    /// Every analyzer (functions, types, overlap) was switched off.
    NoAnalyzerEnabled,
}

/// A run needs at least one analyzer; with all three switched off there
/// is nothing to do and the run is rejected.
pub fn validate_analyzers(
    functions_enabled: bool,
    types_enabled: bool,
    overlap_enabled: bool,
) -> (r: Result<(), ConfigError>)
    ensures
        r is Ok <==> (functions_enabled || types_enabled || overlap_enabled),
        r is Err ==> r->Err_0 == ConfigError::NoAnalyzerEnabled,
{
    if functions_enabled || types_enabled || overlap_enabled {
        Ok(())
    } else {
        Err(ConfigError::NoAnalyzerEnabled)
    }
}

/// Resolves the mutually exclusive minimum-size options. When both a
/// line minimum and a token minimum are supplied, the token minimum
/// wins and the returned flag asks the caller to emit a warning; a lone
/// line minimum (or neither, falling back to `DEFAULT_MIN_LINES`) is
/// taken as given.
pub fn resolve_size_filter(min_lines: Option<u32>, min_tokens: Option<u32>) -> (r: (
    SizeFilter,
    bool,
))
    ensures
        min_tokens is Some ==> r.0 == SizeFilter::MinTokens(min_tokens->0),
        min_tokens is Some ==> (r.1 <==> min_lines is Some),
        min_tokens is None && min_lines is Some ==> r == (
            SizeFilter::MinLines(min_lines->0),
            false,
        ),
        min_tokens is None && min_lines is None ==> r == (
            SizeFilter::MinLines(DEFAULT_MIN_LINES),
            false,
        ),
{
    match (min_lines, min_tokens) {
        (Some(_), Some(t)) => (SizeFilter::MinTokens(t), true),
        (None, Some(t)) => (SizeFilter::MinTokens(t), false),
        (Some(l), None) => (SizeFilter::MinLines(l), false),
        (None, None) => (SizeFilter::MinLines(DEFAULT_MIN_LINES), false),
    }
}

/// Structural and naming weights are meant to sum to 1.0. A violation
/// is an invariant warning, not a fatal error: the caller logs it and
/// the run proceeds with the given values.
pub fn weights_sum_valid(structural_weight: u64, naming_weight: u64) -> (ok: bool)
    ensures
        ok <==> structural_weight + naming_weight == SCALE,
{
    structural_weight <= SCALE && naming_weight == SCALE - structural_weight
}

} // verus!
