//! MinMax-LTTB downsampling orchestration.
//!
//! Reduces a large ordered numeric series to a small target number of
//! indices while preserving the visual shape of the signal: a cheap
//! min/max bucketing prefilter first prunes the series, then the
//! Largest-Triangle-Three-Buckets (LTTB) heuristic selects the final
//! points from the pruned candidate set, and the results are remapped
//! to original-index coordinates.
//!
//! The selection primitives themselves (min/max bucketing, LTTB) are
//! collaborators supplied by the caller through the traits in
//! [`selectors`]; this crate verifies how they are composed.

pub mod minmaxlttb;
pub mod selectors;
