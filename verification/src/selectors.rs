//! Contracts of the selection primitives the orchestrator composes.
//!
//! The min/max bucketing prefilter and the LTTB selector are external
//! collaborators: the orchestrator is agnostic to how they bucket the
//! data or measure triangle areas, and relies only on the guarantees
//! stated here. Each trait pairs an uninterpreted per-implementation
//! specification (`spec_select`) with executable methods whose
//! postconditions tie the returned indices to that specification:
//! every implementation is thereby promised to be deterministic in its
//! logical inputs, which is what makes the serial and parallel
//! strategies interchangeable.

use vstd::prelude::*;

verus! {

/// The indices in `s` are strictly ascending (hence unique).
pub open spec fn strictly_ascending(s: Seq<usize>) -> bool {
    forall|i: int, j: int| 0 <= i < j < s.len() ==> s[i] < s[j]
}

/// Every index in `s` lies below the bound `n`.
pub open spec fn all_below(s: Seq<usize>, n: int) -> bool {
    forall|i: int| 0 <= i < s.len() ==> s[i] < n
}

/// Min/max bucketing prefilter over a series with explicit x-coordinates.
///
/// Given a slice and a target candidate count, an implementation returns
/// an ascending, duplicate-free list of at most `n_out` indices into that
/// slice, marking locally extreme points. The parallel variant partitions
/// the work over `n_threads` workers but must return exactly the indices
/// the serial variant returns for the same logical input.
pub trait MinMaxSelectorWithX<Tx, Ty>: Sized {
    /// The indices this implementation selects, as a function of the
    /// logical input alone (no thread count: both variants return it).
    spec fn spec_select(self, x: Seq<Tx>, y: Seq<Ty>, n_out: int) -> Seq<usize>;

    /// Serial selection.
    fn select(&self, x: &[Tx], y: &[Ty], n_out: usize) -> (r: Vec<usize>)
        requires
            x@.len() == y@.len(),
        ensures
            r@ == self.spec_select(x@, y@, n_out as int),
            strictly_ascending(r@),
            all_below(r@, y@.len() as int),
            r@.len() <= n_out,
    ;

    /// Parallel selection: same output as [`Self::select`] for any
    /// positive thread count.
    fn select_parallel(&self, x: &[Tx], y: &[Ty], n_out: usize, n_threads: usize) -> (r: Vec<
        usize,
    >)
        requires
            x@.len() == y@.len(),
            1 <= n_threads,
        ensures
            r@ == self.spec_select(x@, y@, n_out as int),
            strictly_ascending(r@),
            all_below(r@, y@.len() as int),
            r@.len() <= n_out,
    ;
}

/// Min/max bucketing prefilter over a series without x-coordinates.
///
/// Same guarantees as [`MinMaxSelectorWithX`], with unit spacing assumed.
pub trait MinMaxSelectorWithoutX<Ty>: Sized {
    /// The indices this implementation selects, as a function of the
    /// logical input alone (no thread count: both variants return it).
    spec fn spec_select(self, y: Seq<Ty>, n_out: int) -> Seq<usize>;

    /// Serial selection.
    fn select(&self, y: &[Ty], n_out: usize) -> (r: Vec<usize>)
        ensures
            r@ == self.spec_select(y@, n_out as int),
            strictly_ascending(r@),
            all_below(r@, y@.len() as int),
            r@.len() <= n_out,
    ;

    /// Parallel selection: same output as [`Self::select`] for any
    /// positive thread count.
    fn select_parallel(&self, y: &[Ty], n_out: usize, n_threads: usize) -> (r: Vec<usize>)
        requires
            1 <= n_threads,
        ensures
            r@ == self.spec_select(y@, n_out as int),
            strictly_ascending(r@),
            all_below(r@, y@.len() as int),
            r@.len() <= n_out,
    ;
}

/// Largest-Triangle-Three-Buckets selector over explicit x-coordinates.
///
/// Given x/y arrays and a target count `n_out >= 2`, an implementation
/// returns an ascending index list of length `min(n_out, len)` whose
/// first and last entries are `0` and `len - 1` whenever the input is
/// non-empty.
pub trait LttbSelectorWithX<Tx, Ty>: Sized {
    /// The indices this implementation selects, as a function of the
    /// input alone.
    spec fn spec_select(self, x: Seq<Tx>, y: Seq<Ty>, n_out: int) -> Seq<usize>;

    /// Run the selection.
    fn select(&self, x: &[Tx], y: &[Ty], n_out: usize) -> (r: Vec<usize>)
        requires
            x@.len() == y@.len(),
            2 <= n_out,
        ensures
            r@ == self.spec_select(x@, y@, n_out as int),
            strictly_ascending(r@),
            all_below(r@, y@.len() as int),
            r@.len() == if n_out <= y@.len() {
                n_out as int
            } else {
                y@.len() as int
            },
            y@.len() > 0 ==> r@[0] == 0 && r@[r@.len() - 1] == y@.len() - 1,
    ;
}

/// Largest-Triangle-Three-Buckets selector without x-coordinates,
/// assuming unit spacing.
///
/// Same guarantees as [`LttbSelectorWithX`].
pub trait LttbSelectorWithoutX<Ty>: Sized {
    /// The indices this implementation selects, as a function of the
    /// input alone.
    spec fn spec_select(self, y: Seq<Ty>, n_out: int) -> Seq<usize>;

    /// Run the selection.
    fn select(&self, y: &[Ty], n_out: usize) -> (r: Vec<usize>)
        requires
            2 <= n_out,
        ensures
            r@ == self.spec_select(y@, n_out as int),
            strictly_ascending(r@),
            all_below(r@, y@.len() as int),
            r@.len() == if n_out <= y@.len() {
                n_out as int
            } else {
                y@.len() as int
            },
            y@.len() > 0 ==> r@[0] == 0 && r@[r@.len() - 1] == y@.len() - 1,
    ;
}

} // verus!
