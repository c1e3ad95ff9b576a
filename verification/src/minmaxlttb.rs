//! The MinMax-LTTB orchestration pipeline.
//!
//! Two-stage downsampling: a min/max bucketing prefilter prunes the
//! interior of the series to a candidate set, the endpoints are forced
//! back in, LTTB selects the final points from the gathered candidates,
//! and the selected positions are composed back into original-index
//! coordinates. When the series is too short for prefiltering to pay
//! off, the orchestrator falls back to a direct LTTB call.

use crate::selectors::{
    all_below, strictly_ascending, LttbSelectorWithX, LttbSelectorWithoutX, MinMaxSelectorWithX,
    MinMaxSelectorWithoutX,
};
use vstd::prelude::*;
use vstd::slice::{slice_index_get, slice_subrange};

verus! {

/// Strategy for the with-x prefilter stage: run the selector's serial
/// or its parallel variant. Exactly these two dispatch variants exist.
pub enum MinMaxFunctionWithX<F> {
    Serial(F),
    Parallel(F),
}

impl<F> MinMaxFunctionWithX<F> {
    /// The selector the strategy carries, whichever variant runs it.
    pub open spec fn selector(self) -> F {
        match self {
            MinMaxFunctionWithX::Serial(f) => f,
            MinMaxFunctionWithX::Parallel(f) => f,
        }
    }
}

/// Strategy for the without-x prefilter stage: serial or parallel.
pub enum MinMaxFunctionWithoutX<F> {
    Serial(F),
    Parallel(F),
}

impl<F> MinMaxFunctionWithoutX<F> {
    /// The selector the strategy carries, whichever variant runs it.
    pub open spec fn selector(self) -> F {
        match self {
            MinMaxFunctionWithoutX::Serial(f) => f,
            MinMaxFunctionWithoutX::Parallel(f) => f,
        }
    }
}

/// Prefiltering is worthwhile only when the series is more than
/// `minmax_ratio` times longer than the requested output.
pub open spec fn reduction_gate(n: int, n_out: int, minmax_ratio: int) -> bool {
    n / n_out > minmax_ratio
}

/// The candidate list: prefilter indices (relative to the interior
/// slice of a series of length `n`) shifted up by one into original
/// coordinates, with the endpoints `0` and `n - 1` forced in.
pub open spec fn shifted_candidates(idx: Seq<usize>, n: int) -> Seq<usize> {
    seq![0usize] + idx.map(|_i: int, v: usize| (v + 1) as usize) + seq![(n - 1) as usize]
}

/// `vals` read at each index of `idx`, in candidate order.
pub open spec fn gather_seq<T>(vals: Seq<T>, idx: Seq<usize>) -> Seq<T> {
    idx.map(|_i: int, v: usize| vals[v as int])
}

/// Positions into the candidate list mapped through it, recovering
/// original-array indices.
pub open spec fn compose_seq(cand: Seq<usize>, pos: Seq<usize>) -> Seq<usize> {
    pos.map(|_i: int, p: usize| cand[p as int])
}

/// Mapping ascending positions through an ascending candidate list
/// yields an ascending index list.
pub proof fn lemma_compose_ascending(cand: Seq<usize>, pos: Seq<usize>)
    requires
        strictly_ascending(cand),
        strictly_ascending(pos),
        all_below(pos, cand.len() as int),
    ensures
        strictly_ascending(compose_seq(cand, pos)),
{
}

/// Map positions into the candidate list back to original-array
/// indices: `r[i] == cand[pos[i]]`.
///
/// This is the boundary between the two coordinate systems the
/// pipeline works in (original index space vs. position in the
/// candidate list); both orchestration variants end with this step.
pub fn compose_index(cand: &Vec<usize>, pos: &Vec<usize>) -> (r: Vec<usize>)
    requires
        all_below(pos@, cand@.len() as int),
    ensures
        r@ == compose_seq(cand@, pos@),
        strictly_ascending(cand@) && strictly_ascending(pos@) ==> strictly_ascending(r@),
{
    let mut r: Vec<usize> = Vec::new();
    let mut i: usize = 0;
    while i < pos.len()
        invariant
            all_below(pos@, cand@.len() as int),
            i <= pos@.len(),
            r@.len() == i as int,
            forall|k: int| 0 <= k < i as int ==> r@[k] == cand@[pos@[k] as int],
        decreases pos@.len() - i,
    {
        r.push(cand[pos[i]]);
        i += 1;
    }
    proof {
        assert(r@ =~= compose_seq(cand@, pos@));
        if strictly_ascending(cand@) && strictly_ascending(pos@) {
            lemma_compose_ascending(cand@, pos@);
        }
    }
    r
}

/// Shift prefilter indices from interior-slice coordinates into
/// original coordinates (add one) and force the endpoints `0` and
/// `n - 1` back in: the first and last samples anchor the visual
/// extent of the plot and are never eligible for removal.
pub fn anchor_candidates(index: &Vec<usize>, n: usize) -> (cand: Vec<usize>)
    requires
        2 <= n,
        strictly_ascending(index@),
        all_below(index@, n - 2),
    ensures
        cand@ == shifted_candidates(index@, n as int),
        strictly_ascending(cand@),
        all_below(cand@, n as int),
        cand@.len() == index@.len() + 2,
        cand@[0] == 0,
        cand@[cand@.len() - 1] == n - 1,
{
    let mut cand: Vec<usize> = Vec::new();
    cand.push(0);
    let mut j: usize = 0;
    while j < index.len()
        invariant
            all_below(index@, n - 2),
            2 <= n,
            j <= index@.len(),
            cand@.len() == j + 1,
            cand@[0] == 0,
            forall|t: int| 0 <= t < j ==> cand@[t + 1] == index@[t] + 1,
        decreases index@.len() - j,
    {
        let v = index[j];
        cand.push(v + 1);
        j += 1;
    }
    cand.push(n - 1);
    proof {
        let spec_cand = shifted_candidates(index@, n as int);
        assert forall|t: int| 0 <= t < spec_cand.len() implies cand@[t] == spec_cand[t] by {
            if t == 0 {
            } else if t <= index@.len() {
                assert(index@[t - 1] < n - 2);
                assert(cand@[t] == index@[t - 1] + 1);
            }
        }
        assert(cand@ =~= spec_cand);
        assert forall|i: int, t: int| 0 <= i < t < cand@.len() implies cand@[i] < cand@[t] by {
            if 0 < i {
                assert(index@[i - 1] < n - 2);
                if t <= index@.len() {
                    assert(index@[i - 1] < index@[t - 1]);
                }
            } else {
                if 0 < t && t <= index@.len() {
                    assert(cand@[t] == index@[t - 1] + 1);
                }
            }
        }
    }
    cand
}

/// Read `vals` at each candidate index, in candidate order.
pub fn gather<T: Copy>(vals: &[T], idx: &Vec<usize>) -> (r: Vec<T>)
    requires
        all_below(idx@, vals@.len() as int),
    ensures
        r@ == gather_seq(vals@, idx@),
        r@.len() == idx@.len(),
{
    let mut r: Vec<T> = Vec::new();
    let mut i: usize = 0;
    while i < idx.len()
        invariant
            all_below(idx@, vals@.len() as int),
            i <= idx@.len(),
            r@.len() == i as int,
            forall|k: int| 0 <= k < i as int ==> r@[k] == vals@[idx@[k] as int],
        decreases idx@.len() - i,
    {
        r.push(*slice_index_get(vals, idx[i]));
        i += 1;
    }
    proof {
        assert(r@ =~= gather_seq(vals@, idx@));
    }
    r
}

/// The full with-x pipeline as a function of the logical inputs: gate,
/// prefilter on the interior, re-anchor with endpoints, gather, LTTB on
/// the candidates, compose back to original indices. The thread count
/// of a parallel run never enters: both strategies return this.
pub open spec fn minmaxlttb_with_x_spec<
    Tx,
    Ty,
    F: MinMaxSelectorWithX<Tx, Ty>,
    L: LttbSelectorWithX<Tx, Ty>,
>(f: F, l: L, x: Seq<Tx>, y: Seq<Ty>, n_out: int, minmax_ratio: int) -> Seq<usize> {
    if reduction_gate(x.len() as int, n_out, minmax_ratio) {
        let idx = f.spec_select(
            x.subrange(1, x.len() - 1),
            y.subrange(1, y.len() - 1),
            n_out * minmax_ratio,
        );
        let cand = shifted_candidates(idx, x.len() as int);
        let pos = l.spec_select(gather_seq(x, cand), gather_seq(y, cand), n_out);
        compose_seq(cand, pos)
    } else {
        l.spec_select(x, y, n_out)
    }
}

/// When the reduction gate holds, the series has at least two samples,
/// so its interior slice is well defined.
proof fn lemma_gate_implies_len(n: int, n_out: int, minmax_ratio: int)
    requires
        reduction_gate(n, n_out, minmax_ratio),
        2 <= n_out,
        1 < minmax_ratio,
        0 <= n,
    ensures
        2 <= n,
{
    if n < 2 {
        vstd::arithmetic::div_mod::lemma_basic_div(n, n_out);
        assert(n / n_out <= minmax_ratio);
    }
}

/// MinMax-LTTB orchestration over a series with explicit x-coordinates,
/// parameterized by the prefilter strategy.
///
/// When the series is more than `minmax_ratio` times longer than
/// `n_out`, the prefilter selects `n_out * minmax_ratio` locally
/// extreme interior points, the endpoints are forced in, and LTTB picks
/// the final `n_out` points from the gathered candidates; otherwise
/// LTTB runs directly on the full input.
pub fn minmaxlttb_generic<
    Tx: Copy,
    Ty: Copy,
    F: MinMaxSelectorWithX<Tx, Ty>,
    L: LttbSelectorWithX<Tx, Ty>,
>(
    x: &[Tx],
    y: &[Ty],
    n_out: usize,
    minmax_ratio: usize,
    n_threads: Option<usize>,
    f_minmax: MinMaxFunctionWithX<F>,
    f_lttb: L,
) -> (r: Vec<usize>)
    requires
        x@.len() == y@.len(),
        2 <= n_out,
        1 < minmax_ratio,
        n_out * minmax_ratio <= usize::MAX,
        f_minmax is Parallel ==> n_threads is Some && 1 <= n_threads->0,
    ensures
        r@ == minmaxlttb_with_x_spec(
            f_minmax.selector(),
            f_lttb,
            x@,
            y@,
            n_out as int,
            minmax_ratio as int,
        ),
        strictly_ascending(r@),
        all_below(r@, x@.len() as int),
        r@.len() <= n_out,
        x@.len() > 0 ==> r@.len() >= 1 && r@[0] == 0 && r@[r@.len() - 1] == x@.len() - 1,
        !reduction_gate(x@.len() as int, n_out as int, minmax_ratio as int) ==> r@
            == f_lttb.spec_select(x@, y@, n_out as int) && r@.len() == (if n_out <= x@.len() {
            n_out as int
        } else {
            x@.len() as int
        }),
        reduction_gate(x@.len() as int, n_out as int, minmax_ratio as int) ==> r@.len()
            == vstd::math::min(
            n_out as int,
            f_minmax.selector().spec_select(
                x@.subrange(1, x@.len() - 1),
                y@.subrange(1, y@.len() - 1),
                n_out as int * minmax_ratio as int,
            ).len() as int + 2,
        ),
{
    let ghost fsel = f_minmax.selector();
    let n = x.len();
    if n / n_out > minmax_ratio {
        proof {
            lemma_gate_implies_len(n as int, n_out as int, minmax_ratio as int);
        }
        let xi = slice_subrange(x, 1, n - 1);
        let yi = slice_subrange(y, 1, n - 1);
        let k = n_out * minmax_ratio;
        let index: Vec<usize> = match &f_minmax {
            MinMaxFunctionWithX::Serial(f) => f.select(xi, yi, k),
            MinMaxFunctionWithX::Parallel(f) => f.select_parallel(xi, yi, k, n_threads.unwrap()),
        };
        assert(index@ == fsel.spec_select(xi@, yi@, k as int));
        let cand = anchor_candidates(&index, n);
        let xr = gather(x, &cand);
        let yr = gather(y, &cand);
        let pos = f_lttb.select(xr.as_slice(), yr.as_slice(), n_out);
        let r = compose_index(&cand, &pos);
        proof {
            assert(r@ == compose_seq(cand@, pos@));
            assert(r@[0] == cand@[pos@[0] as int]);
            assert(all_below(r@, x@.len() as int)) by {
                assert(forall|i: int|
                    0 <= i < r@.len() ==> r@[i] == cand@[#[trigger] pos@[i] as int]);
            }
        }
        r
    } else {
        f_lttb.select(x, y, n_out)
    }
}

/// Downsample a series with explicit x-coordinates to at most `n_out`
/// indices, running the prefilter serially.
pub fn minmaxlttb_with_x<
    Tx: Copy,
    Ty: Copy,
    F: MinMaxSelectorWithX<Tx, Ty>,
    L: LttbSelectorWithX<Tx, Ty>,
>(x: &[Tx], y: &[Ty], n_out: usize, minmax_ratio: usize, f_minmax: F, f_lttb: L) -> (r: Vec<
    usize,
>)
    requires
        x@.len() == y@.len(),
        2 <= n_out,
        1 < minmax_ratio,
        n_out * minmax_ratio <= usize::MAX,
    ensures
        r@ == minmaxlttb_with_x_spec(f_minmax, f_lttb, x@, y@, n_out as int, minmax_ratio as int),
        strictly_ascending(r@),
        all_below(r@, x@.len() as int),
        r@.len() <= n_out,
        x@.len() > 0 ==> r@.len() >= 1 && r@[0] == 0 && r@[r@.len() - 1] == x@.len() - 1,
        !reduction_gate(x@.len() as int, n_out as int, minmax_ratio as int) ==> r@
            == f_lttb.spec_select(x@, y@, n_out as int) && r@.len() == (if n_out <= x@.len() {
            n_out as int
        } else {
            x@.len() as int
        }),
        reduction_gate(x@.len() as int, n_out as int, minmax_ratio as int) ==> r@.len()
            == vstd::math::min(
            n_out as int,
            f_minmax.spec_select(
                x@.subrange(1, x@.len() - 1),
                y@.subrange(1, y@.len() - 1),
                n_out as int * minmax_ratio as int,
            ).len() as int + 2,
        ),
{
    minmaxlttb_generic(
        x,
        y,
        n_out,
        minmax_ratio,
        None,
        MinMaxFunctionWithX::Serial(f_minmax),
        f_lttb,
    )
}

/// Downsample a series with explicit x-coordinates to at most `n_out`
/// indices, running the prefilter over `n_threads` workers.
///
/// The postcondition equals the serial one: the thread count never
/// influences which indices come back.
pub fn minmaxlttb_with_x_parallel<
    Tx: Copy,
    Ty: Copy,
    F: MinMaxSelectorWithX<Tx, Ty>,
    L: LttbSelectorWithX<Tx, Ty>,
>(
    x: &[Tx],
    y: &[Ty],
    n_out: usize,
    minmax_ratio: usize,
    n_threads: usize,
    f_minmax: F,
    f_lttb: L,
) -> (r: Vec<usize>)
    requires
        x@.len() == y@.len(),
        2 <= n_out,
        1 < minmax_ratio,
        n_out * minmax_ratio <= usize::MAX,
        1 <= n_threads,
    ensures
        r@ == minmaxlttb_with_x_spec(f_minmax, f_lttb, x@, y@, n_out as int, minmax_ratio as int),
        strictly_ascending(r@),
        all_below(r@, x@.len() as int),
        r@.len() <= n_out,
        x@.len() > 0 ==> r@.len() >= 1 && r@[0] == 0 && r@[r@.len() - 1] == x@.len() - 1,
        !reduction_gate(x@.len() as int, n_out as int, minmax_ratio as int) ==> r@
            == f_lttb.spec_select(x@, y@, n_out as int) && r@.len() == (if n_out <= x@.len() {
            n_out as int
        } else {
            x@.len() as int
        }),
        reduction_gate(x@.len() as int, n_out as int, minmax_ratio as int) ==> r@.len()
            == vstd::math::min(
            n_out as int,
            f_minmax.spec_select(
                x@.subrange(1, x@.len() - 1),
                y@.subrange(1, y@.len() - 1),
                n_out as int * minmax_ratio as int,
            ).len() as int + 2,
        ),
{
    minmaxlttb_generic(
        x,
        y,
        n_out,
        minmax_ratio,
        Some(n_threads),
        MinMaxFunctionWithX::Parallel(f_minmax),
        f_lttb,
    )
}

/// The full without-x pipeline as a function of the logical inputs.
///
/// After prefiltering, the surviving points are irregularly spaced in
/// the original index space, so the second-stage LTTB call uses the
/// candidate indices themselves as x-coordinates: triangle areas are
/// only shape-faithful over the true horizontal gaps. Only the
/// fallback path runs the unit-spacing LTTB selector.
pub open spec fn minmaxlttb_without_x_spec<
    Ty,
    F: MinMaxSelectorWithoutX<Ty>,
    LX: LttbSelectorWithX<usize, Ty>,
    L: LttbSelectorWithoutX<Ty>,
>(f: F, lx: LX, l: L, y: Seq<Ty>, n_out: int, minmax_ratio: int) -> Seq<usize> {
    if reduction_gate(y.len() as int, n_out, minmax_ratio) {
        let idx = f.spec_select(y.subrange(1, y.len() - 1), n_out * minmax_ratio);
        let cand = shifted_candidates(idx, y.len() as int);
        let pos = lx.spec_select(cand, gather_seq(y, cand), n_out);
        compose_seq(cand, pos)
    } else {
        l.spec_select(y, n_out)
    }
}

/// MinMax-LTTB orchestration over a series without x-coordinates,
/// parameterized by the prefilter strategy.
///
/// Same staging as [`minmaxlttb_generic`]; on the reduction path the
/// candidate indices stand in for the x-coordinates of the second
/// stage (see [`minmaxlttb_without_x_spec`]).
pub fn minmaxlttb_generic_without_x<
    Ty: Copy,
    F: MinMaxSelectorWithoutX<Ty>,
    LX: LttbSelectorWithX<usize, Ty>,
    L: LttbSelectorWithoutX<Ty>,
>(
    y: &[Ty],
    n_out: usize,
    minmax_ratio: usize,
    n_threads: Option<usize>,
    f_minmax: MinMaxFunctionWithoutX<F>,
    f_lttb_x: LX,
    f_lttb: L,
) -> (r: Vec<usize>)
    requires
        2 <= n_out,
        1 < minmax_ratio,
        n_out * minmax_ratio <= usize::MAX,
        f_minmax is Parallel ==> n_threads is Some && 1 <= n_threads->0,
    ensures
        r@ == minmaxlttb_without_x_spec(
            f_minmax.selector(),
            f_lttb_x,
            f_lttb,
            y@,
            n_out as int,
            minmax_ratio as int,
        ),
        strictly_ascending(r@),
        all_below(r@, y@.len() as int),
        r@.len() <= n_out,
        y@.len() > 0 ==> r@.len() >= 1 && r@[0] == 0 && r@[r@.len() - 1] == y@.len() - 1,
        !reduction_gate(y@.len() as int, n_out as int, minmax_ratio as int) ==> r@
            == f_lttb.spec_select(y@, n_out as int) && r@.len() == (if n_out <= y@.len() {
            n_out as int
        } else {
            y@.len() as int
        }),
        reduction_gate(y@.len() as int, n_out as int, minmax_ratio as int) ==> r@.len()
            == vstd::math::min(
            n_out as int,
            f_minmax.selector().spec_select(
                y@.subrange(1, y@.len() - 1),
                n_out as int * minmax_ratio as int,
            ).len() as int + 2,
        ),
{
    let ghost fsel = f_minmax.selector();
    let n = y.len();
    if n / n_out > minmax_ratio {
        proof {
            lemma_gate_implies_len(n as int, n_out as int, minmax_ratio as int);
        }
        let yi = slice_subrange(y, 1, n - 1);
        let k = n_out * minmax_ratio;
        let index: Vec<usize> = match &f_minmax {
            MinMaxFunctionWithoutX::Serial(f) => f.select(yi, k),
            MinMaxFunctionWithoutX::Parallel(f) => f.select_parallel(yi, k, n_threads.unwrap()),
        };
        assert(index@ == fsel.spec_select(yi@, k as int));
        let cand = anchor_candidates(&index, n);
        let yr = gather(y, &cand);
        let pos = f_lttb_x.select(cand.as_slice(), yr.as_slice(), n_out);
        let r = compose_index(&cand, &pos);
        proof {
            assert(r@ == compose_seq(cand@, pos@));
            assert(r@[0] == cand@[pos@[0] as int]);
            assert(all_below(r@, y@.len() as int)) by {
                assert(forall|i: int|
                    0 <= i < r@.len() ==> r@[i] == cand@[#[trigger] pos@[i] as int]);
            }
        }
        r
    } else {
        f_lttb.select(y, n_out)
    }
}

/// Downsample a series without x-coordinates to at most `n_out`
/// indices, running the prefilter serially.
pub fn minmaxlttb_without_x<
    Ty: Copy,
    F: MinMaxSelectorWithoutX<Ty>,
    LX: LttbSelectorWithX<usize, Ty>,
    L: LttbSelectorWithoutX<Ty>,
>(y: &[Ty], n_out: usize, minmax_ratio: usize, f_minmax: F, f_lttb_x: LX, f_lttb: L) -> (r: Vec<
    usize,
>)
    requires
        2 <= n_out,
        1 < minmax_ratio,
        n_out * minmax_ratio <= usize::MAX,
    ensures
        r@ == minmaxlttb_without_x_spec(
            f_minmax,
            f_lttb_x,
            f_lttb,
            y@,
            n_out as int,
            minmax_ratio as int,
        ),
        strictly_ascending(r@),
        all_below(r@, y@.len() as int),
        r@.len() <= n_out,
        y@.len() > 0 ==> r@.len() >= 1 && r@[0] == 0 && r@[r@.len() - 1] == y@.len() - 1,
        !reduction_gate(y@.len() as int, n_out as int, minmax_ratio as int) ==> r@
            == f_lttb.spec_select(y@, n_out as int) && r@.len() == (if n_out <= y@.len() {
            n_out as int
        } else {
            y@.len() as int
        }),
        reduction_gate(y@.len() as int, n_out as int, minmax_ratio as int) ==> r@.len()
            == vstd::math::min(
            n_out as int,
            f_minmax.spec_select(
                y@.subrange(1, y@.len() - 1),
                n_out as int * minmax_ratio as int,
            ).len() as int + 2,
        ),
{
    minmaxlttb_generic_without_x(
        y,
        n_out,
        minmax_ratio,
        None,
        MinMaxFunctionWithoutX::Serial(f_minmax),
        f_lttb_x,
        f_lttb,
    )
}

/// Downsample a series without x-coordinates to at most `n_out`
/// indices, running the prefilter over `n_threads` workers.
///
/// The postcondition equals the serial one: the thread count never
/// influences which indices come back.
pub fn minmaxlttb_without_x_parallel<
    Ty: Copy,
    F: MinMaxSelectorWithoutX<Ty>,
    LX: LttbSelectorWithX<usize, Ty>,
    L: LttbSelectorWithoutX<Ty>,
>(
    y: &[Ty],
    n_out: usize,
    minmax_ratio: usize,
    n_threads: usize,
    f_minmax: F,
    f_lttb_x: LX,
    f_lttb: L,
) -> (r: Vec<usize>)
    requires
        2 <= n_out,
        1 < minmax_ratio,
        n_out * minmax_ratio <= usize::MAX,
        1 <= n_threads,
    ensures
        r@ == minmaxlttb_without_x_spec(
            f_minmax,
            f_lttb_x,
            f_lttb,
            y@,
            n_out as int,
            minmax_ratio as int,
        ),
        strictly_ascending(r@),
        all_below(r@, y@.len() as int),
        r@.len() <= n_out,
        y@.len() > 0 ==> r@.len() >= 1 && r@[0] == 0 && r@[r@.len() - 1] == y@.len() - 1,
        !reduction_gate(y@.len() as int, n_out as int, minmax_ratio as int) ==> r@
            == f_lttb.spec_select(y@, n_out as int) && r@.len() == (if n_out <= y@.len() {
            n_out as int
        } else {
            y@.len() as int
        }),
        reduction_gate(y@.len() as int, n_out as int, minmax_ratio as int) ==> r@.len()
            == vstd::math::min(
            n_out as int,
            f_minmax.spec_select(
                y@.subrange(1, y@.len() - 1),
                n_out as int * minmax_ratio as int,
            ).len() as int + 2,
        ),
{
    minmaxlttb_generic_without_x(
        y,
        n_out,
        minmax_ratio,
        Some(n_threads),
        MinMaxFunctionWithoutX::Parallel(f_minmax),
        f_lttb_x,
        f_lttb,
    )
}

/// Parallel determinism (with-x): the orchestrated result is a function
/// of the logical inputs alone. Any two strategies carrying the same
/// selector — serial, or parallel under any thread count — are promised
/// the same index sequence, since the orchestrator's postcondition ties
/// its result to this strategy-independent pipeline value.
pub proof fn lemma_parallel_determinism_with_x<
    Tx,
    Ty,
    F: MinMaxSelectorWithX<Tx, Ty>,
    L: LttbSelectorWithX<Tx, Ty>,
>(
    a: MinMaxFunctionWithX<F>,
    b: MinMaxFunctionWithX<F>,
    l: L,
    x: Seq<Tx>,
    y: Seq<Ty>,
    n_out: int,
    minmax_ratio: int,
)
    requires
        a.selector() == b.selector(),
    ensures
        minmaxlttb_with_x_spec(a.selector(), l, x, y, n_out, minmax_ratio)
            == minmaxlttb_with_x_spec(b.selector(), l, x, y, n_out, minmax_ratio),
{
}

/// Parallel determinism (without-x): as
/// [`lemma_parallel_determinism_with_x`], for the without-x pipeline.
pub proof fn lemma_parallel_determinism_without_x<
    Ty,
    F: MinMaxSelectorWithoutX<Ty>,
    LX: LttbSelectorWithX<usize, Ty>,
    L: LttbSelectorWithoutX<Ty>,
>(
    a: MinMaxFunctionWithoutX<F>,
    b: MinMaxFunctionWithoutX<F>,
    lx: LX,
    l: L,
    y: Seq<Ty>,
    n_out: int,
    minmax_ratio: int,
)
    requires
        a.selector() == b.selector(),
    ensures
        minmaxlttb_without_x_spec(a.selector(), lx, l, y, n_out, minmax_ratio)
            == minmaxlttb_without_x_spec(b.selector(), lx, l, y, n_out, minmax_ratio),
{
}

} // verus!
