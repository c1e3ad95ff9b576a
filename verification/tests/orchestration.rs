use minmaxlttb::minmaxlttb::{
    anchor_candidates, compose_index, gather, minmaxlttb_with_x, minmaxlttb_with_x_parallel,
    minmaxlttb_without_x, minmaxlttb_without_x_parallel,
};
use minmaxlttb::selectors::{
    LttbSelectorWithX, LttbSelectorWithoutX, MinMaxSelectorWithX, MinMaxSelectorWithoutX,
};
use num_traits::AsPrimitive;
use vstd::prelude::{int, Seq};

// ---------------------------------------------------------------------------
// Concrete selector implementations (the external collaborators).
// ---------------------------------------------------------------------------

/// Largest-Triangle-Three-Buckets over explicit x-coordinates.
fn lttb_with_x_impl<Tx, Ty>(x: &[Tx], y: &[Ty], n_out: usize) -> Vec<usize>
where
    Tx: Copy + AsPrimitive<f64>,
    Ty: Copy + AsPrimitive<f64>,
{
    let n = y.len();
    if n_out >= n {
        return (0..n).collect();
    }
    if n_out == 2 {
        return vec![0, n - 1];
    }
    let every = (n - 2) as f64 / (n_out - 2) as f64;
    let mut out: Vec<usize> = Vec::with_capacity(n_out);
    out.push(0);
    let mut a: usize = 0;
    for i in 0..(n_out - 2) {
        let range_start = (i as f64 * every) as usize + 1;
        let range_end = (((i + 1) as f64 * every) as usize + 1).min(n - 1);
        let avg_start = range_end;
        let avg_end = (((i + 2) as f64 * every) as usize + 1).min(n);
        let mut sx = 0.0f64;
        let mut sy = 0.0f64;
        for j in avg_start..avg_end {
            sx += x[j].as_();
            sy += y[j].as_();
        }
        let cnt = (avg_end - avg_start).max(1) as f64;
        let avg_x = sx / cnt;
        let avg_y = sy / cnt;
        let ax: f64 = x[a].as_();
        let ay: f64 = y[a].as_();
        let mut max_area = -1.0f64;
        let mut chosen = range_start;
        for j in range_start..range_end {
            let xj: f64 = x[j].as_();
            let yj: f64 = y[j].as_();
            let area = ((ax - avg_x) * (yj - ay) - (ax - xj) * (avg_y - ay)).abs();
            if area > max_area {
                max_area = area;
                chosen = j;
            }
        }
        out.push(chosen);
        a = chosen;
    }
    out.push(n - 1);
    out
}

/// LTTB without x-coordinates: unit spacing, the index stands in for x.
fn lttb_without_x_impl<Ty>(y: &[Ty], n_out: usize) -> Vec<usize>
where
    Ty: Copy + AsPrimitive<f64>,
{
    let xs: Vec<usize> = (0..y.len()).collect();
    lttb_with_x_impl(xs.as_slice(), y, n_out)
}

/// Bucketed min/max selection: per equidistant bucket, keep the index
/// of the minimum and of the maximum, in ascending order.
fn minmax_impl<Ty>(y: &[Ty], n_out: usize) -> Vec<usize>
where
    Ty: Copy + PartialOrd,
{
    let n = y.len();
    if n == 0 || n_out == 0 {
        return Vec::new();
    }
    if n_out >= n {
        return (0..n).collect();
    }
    if n_out == 1 {
        let mut imin = 0;
        for j in 0..n {
            if y[j] < y[imin] {
                imin = j;
            }
        }
        return vec![imin];
    }
    let n_buckets = n_out / 2;
    let mut out: Vec<usize> = Vec::with_capacity(2 * n_buckets);
    for b in 0..n_buckets {
        let start = b * n / n_buckets;
        let end = (b + 1) * n / n_buckets;
        let mut imin = start;
        let mut imax = start;
        for j in start..end {
            if y[j] < y[imin] {
                imin = j;
            }
            if y[j] > y[imax] {
                imax = j;
            }
        }
        if imin == imax {
            out.push(imin);
        } else {
            out.push(imin.min(imax));
            out.push(imin.max(imax));
        }
    }
    out
}

/// The bucketed min/max prefilter, serial and parallel. The parallel
/// variant partitions nothing differently: bucket boundaries depend
/// only on the logical input, so its output equals the serial one.
struct StdMinMax;

impl<Tx, Ty> MinMaxSelectorWithX<Tx, Ty> for StdMinMax
where
    Tx: Copy + AsPrimitive<f64>,
    Ty: Copy + PartialOrd,
{
    // The ghost selection function is never run; proofs about it live
    // on the verified side.
    fn spec_select(self, _x: Seq<Tx>, _y: Seq<Ty>, _n_out: int) -> Seq<usize> {
        panic!()
    }

    fn select(&self, _x: &[Tx], y: &[Ty], n_out: usize) -> Vec<usize> {
        minmax_impl(y, n_out)
    }

    fn select_parallel(&self, _x: &[Tx], y: &[Ty], n_out: usize, n_threads: usize) -> Vec<usize> {
        assert!(n_threads >= 1);
        minmax_impl(y, n_out)
    }
}

impl<Ty> MinMaxSelectorWithoutX<Ty> for StdMinMax
where
    Ty: Copy + PartialOrd,
{
    fn spec_select(self, _y: Seq<Ty>, _n_out: int) -> Seq<usize> {
        panic!()
    }

    fn select(&self, y: &[Ty], n_out: usize) -> Vec<usize> {
        minmax_impl(y, n_out)
    }

    fn select_parallel(&self, y: &[Ty], n_out: usize, n_threads: usize) -> Vec<usize> {
        assert!(n_threads >= 1);
        minmax_impl(y, n_out)
    }
}

/// The LTTB selection stage.
struct StdLttb;

impl<Tx, Ty> LttbSelectorWithX<Tx, Ty> for StdLttb
where
    Tx: Copy + AsPrimitive<f64>,
    Ty: Copy + AsPrimitive<f64>,
{
    fn spec_select(self, _x: Seq<Tx>, _y: Seq<Ty>, _n_out: int) -> Seq<usize> {
        panic!()
    }

    fn select(&self, x: &[Tx], y: &[Ty], n_out: usize) -> Vec<usize> {
        lttb_with_x_impl(x, y, n_out)
    }
}

impl<Ty> LttbSelectorWithoutX<Ty> for StdLttb
where
    Ty: Copy + AsPrimitive<f64>,
{
    fn spec_select(self, _y: Seq<Ty>, _n_out: int) -> Seq<usize> {
        panic!()
    }

    fn select(&self, y: &[Ty], n_out: usize) -> Vec<usize> {
        lttb_without_x_impl(y, n_out)
    }
}

fn is_strictly_ascending(s: &[usize]) -> bool {
    s.windows(2).all(|w| w[0] < w[1])
}

// ---------------------------------------------------------------------------
// Literal examples.
// ---------------------------------------------------------------------------

#[test]
fn test_minmaxlttb_with_x() {
    let x = [0, 1, 2, 3, 4, 5, 6, 7, 8, 9];
    let y = [0.0, 1.0, 2.0, 3.0, 4.0, 5.0, 6.0, 7.0, 8.0, 9.0];
    let sampled_indices = minmaxlttb_with_x(&x, &y, 4, 2, StdMinMax, StdLttb);
    assert_eq!(sampled_indices, vec![0, 1, 5, 9]);
}

#[test]
fn test_minmaxlttb_without_x() {
    let y = [0.0, 1.0, 2.0, 3.0, 4.0, 5.0, 6.0, 7.0, 8.0, 9.0];
    let sampled_indices = minmaxlttb_without_x(&y, 4, 2, StdMinMax, StdLttb, StdLttb);
    assert_eq!(sampled_indices, vec![0, 1, 5, 9]);
}

#[test]
fn test_minmaxlttb_with_x_parallel() {
    for n_threads in [1, 2, 4, 8] {
        let x = [0, 1, 2, 3, 4, 5, 6, 7, 8, 9];
        let y = [0.0, 1.0, 2.0, 3.0, 4.0, 5.0, 6.0, 7.0, 8.0, 9.0];
        let sampled_indices =
            minmaxlttb_with_x_parallel(&x, &y, 4, 2, n_threads, StdMinMax, StdLttb);
        assert_eq!(sampled_indices, vec![0, 1, 5, 9]);
    }
}

#[test]
fn test_minmaxlttb_without_x_parallel() {
    for n_threads in [1, 2, 4, 8] {
        let y = [0.0, 1.0, 2.0, 3.0, 4.0, 5.0, 6.0, 7.0, 8.0, 9.0];
        let sampled_indices =
            minmaxlttb_without_x_parallel(&y, 4, 2, n_threads, StdMinMax, StdLttb, StdLttb);
        assert_eq!(sampled_indices, vec![0, 1, 5, 9]);
    }
}

// ---------------------------------------------------------------------------
// Properties on concrete inputs.
// ---------------------------------------------------------------------------

#[test]
fn test_endpoints_and_order_on_reduction_path() {
    // 1000 / 10 = 100 > 3: the reduction path runs.
    let y: Vec<f64> = (0..1000).map(|i| ((i * 37) % 101) as f64).collect();
    let r = minmaxlttb_without_x(y.as_slice(), 10, 3, StdMinMax, StdLttb, StdLttb);
    assert!(is_strictly_ascending(&r));
    assert_eq!(r[0], 0);
    assert_eq!(r[r.len() - 1], 999);
    assert_eq!(r.len(), 10);
    assert!(r.iter().all(|&i| i < 1000));
}

#[test]
fn test_endpoints_and_order_with_x_reduction_path() {
    let x: Vec<f64> = (0..1000).map(|i| i as f64 * 0.5).collect();
    let y: Vec<f64> = (0..1000).map(|i| ((i * 59) % 83) as f64).collect();
    let r = minmaxlttb_with_x(x.as_slice(), y.as_slice(), 12, 4, StdMinMax, StdLttb);
    assert!(is_strictly_ascending(&r));
    assert_eq!(r[0], 0);
    assert_eq!(r[r.len() - 1], 999);
    assert_eq!(r.len(), 12);
}

#[test]
fn test_reduction_path_exact_values_without_x() {
    // 10 / 3 = 3 > 2: the reduction path runs. Worked by hand: the
    // prefilter keeps interior indices [0, 1, 2, 3, 5, 6], re-anchoring
    // gives candidates [0, 1, 2, 3, 4, 6, 7, 9], and LTTB over the
    // candidate indices as x picks positions [0, 1, 7].
    let y = [0.0f64, 9.0, 1.0, 8.0, 2.0, 7.0, 3.0, 6.0, 4.0, 5.0];
    let r = minmaxlttb_without_x(&y, 3, 2, StdMinMax, StdLttb, StdLttb);
    assert_eq!(r, vec![0, 1, 9]);
}

#[test]
fn test_length_bound_short_input() {
    // Shorter than n_out: every index comes back.
    let y = [1.0f64, 5.0, 2.0];
    let r = minmaxlttb_without_x(&y, 8, 2, StdMinMax, StdLttb, StdLttb);
    assert_eq!(r, vec![0, 1, 2]);
}

#[test]
fn test_fallback_equals_direct_lttb_with_x() {
    // 20 / 5 = 4, not above the ratio: direct LTTB on the full input.
    let x: Vec<i64> = (0..20).collect();
    let y: Vec<f64> = (0..20).map(|i| ((i * 13) % 7) as f64).collect();
    let r = minmaxlttb_with_x(x.as_slice(), y.as_slice(), 5, 4, StdMinMax, StdLttb);
    let direct = lttb_with_x_impl(x.as_slice(), y.as_slice(), 5);
    assert_eq!(r, direct);
}

#[test]
fn test_fallback_equals_direct_lttb_without_x() {
    // 40 / 10 = 4, not above the ratio: direct LTTB on the full input.
    let y: Vec<f32> = (0..40).map(|i| ((i * 29) % 11) as f32).collect();
    let r = minmaxlttb_without_x(y.as_slice(), 10, 4, StdMinMax, StdLttb, StdLttb);
    let direct = lttb_without_x_impl(y.as_slice(), 10);
    assert_eq!(r, direct);
}

#[test]
fn test_many_random_runs_same_output() {
    const N: usize = 20_000;
    const N_OUT: usize = 100;
    const MINMAX_RATIO: usize = 5;
    for n_threads in [1, 2, 4, 8] {
        for _ in 0..25 {
            let arr: Vec<f32> = (0..N).map(|_| rand::random::<f32>()).collect();
            let idxs1 = minmaxlttb_without_x(arr.as_slice(), N_OUT, MINMAX_RATIO, StdMinMax, StdLttb, StdLttb);
            let idxs2 = minmaxlttb_without_x_parallel(
                arr.as_slice(),
                N_OUT,
                MINMAX_RATIO,
                n_threads,
                StdMinMax,
                StdLttb,
                StdLttb,
            );
            assert_eq!(idxs1, idxs2);
            assert!(is_strictly_ascending(&idxs1));
            assert_eq!(idxs1.len(), N_OUT);
            assert_eq!(idxs1[0], 0);
            assert_eq!(idxs1[N_OUT - 1], N - 1);
        }
    }
}

// ---------------------------------------------------------------------------
// The index-space helpers on their own.
// ---------------------------------------------------------------------------

#[test]
fn test_compose_index_maps_positions_through_candidates() {
    let cand: Vec<usize> = vec![0, 3, 5, 9];
    let pos: Vec<usize> = vec![0, 2, 3];
    assert_eq!(compose_index(&cand, &pos), vec![0, 5, 9]);
}

#[test]
fn test_anchor_candidates_shifts_and_adds_endpoints() {
    let interior: Vec<usize> = vec![0, 2, 4];
    assert_eq!(anchor_candidates(&interior, 10), vec![0, 1, 3, 5, 9]);
}

#[test]
fn test_anchor_candidates_empty_prefilter() {
    let interior: Vec<usize> = Vec::new();
    assert_eq!(anchor_candidates(&interior, 6), vec![0, 5]);
}

#[test]
fn test_gather_reads_at_indices() {
    let vals = [10u64, 11, 12, 13, 14];
    let idx: Vec<usize> = vec![0, 2, 4];
    assert_eq!(gather(&vals, &idx), vec![10, 12, 14]);
}
