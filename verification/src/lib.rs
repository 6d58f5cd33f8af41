//! Structural code-similarity analysis.
//!
//! The crate detects duplicated or near-duplicate code by comparing
//! structural representations of code units — functions, type
//! declarations, and contiguous node windows — rather than raw text.
//! A front-end parser (an external collaborator) turns source text into
//! flat, arena-indexed node sequences; everything downstream of that
//! point lives here: size and kind filtering, a false-negative-free
//! pre-filter, tree edit distance with a configurable rename cost,
//! weighted type scoring, windowed overlap scanning, and candidate-pair
//! aggregation.
//!
//! All scores are fixed-point fractions of [`options::SCALE`], so a
//! similarity of 1.0 is the integer `SCALE`.

pub mod options;
pub mod text;
pub mod tree;
pub mod edit;
pub mod funcsim;
pub mod prefilter;
pub mod pairs;
pub mod typesim;
pub mod overlap;
pub mod extract;
