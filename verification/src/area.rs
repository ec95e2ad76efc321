//! The integrator: the trapezoidal-rule approximation of the definite
//! integral over the sampled range between the two bound indices.

use vstd::prelude::*;

use crate::fixed::{in_coord_range, MAX_COORD, SCALE};
use crate::sample::SampleSet;

verus! {

/// Why no area could be computed: a bound fell outside the sampled domain,
/// or the bounds are inverted.
#[derive(Clone, Copy, PartialEq, Eq, Structural, Debug)]
pub enum AreaError {
    UndefinedRange,
}

/// Whether the sample set pins down a well-defined integration range: both
/// bound indices were found and they are not inverted.
pub open spec fn range_defined(s: SampleSet) -> bool {
    match (s.lower_index, s.upper_index) {
        (Some(lo), Some(hi)) => lo <= hi,
        _ => false,
    }
}

/// Sum of `y[i] + y[i+1]` over every adjacent pair inside the half-open
/// index range `[lo, hi)`.
pub open spec fn pair_sum(ys: Seq<(i64, i64)>, lo: int, hi: int) -> int
    decreases hi - lo,
{
    if hi <= lo + 1 {
        0
    } else {
        pair_sum(ys, lo, hi - 1) + ys[hi - 2].1 + ys[hi - 1].1
    }
}

/// The trapezoidal-rule area in micro-units: each pair contributes
/// `step * (y1 + y2) / 2`, and one division by the scale turns the
/// micro-by-micro product back into micro-units.
pub open spec fn area_micro(s: SampleSet) -> int {
    (s.step as int) * pair_sum(s.points@, s.lower_index.unwrap() as int, s.upper_index.unwrap() as int)
        / (2 * SCALE as int)
}

/// Compute the signed trapezoidal area over the recorded bound range, or
/// report the range as undefined when either bound index is unset or the
/// bounds are inverted.
pub fn integrate(s: &SampleSet) -> (r: Result<i128, AreaError>)
    requires
        s.wf(),
    ensures
        match r {
            Ok(a) => range_defined(*s) && a as int == area_micro(*s),
            Err(e) => !range_defined(*s) && e == AreaError::UndefinedRange,
        },
{
    let lo: usize;
    let hi: usize;
    match (s.lower_index, s.upper_index) {
        (Some(l), Some(h)) => {
            if l > h {
                return Err(AreaError::UndefinedRange);
            }
            lo = l;
            hi = h;
        },
        _ => {
            return Err(AreaError::UndefinedRange);
        },
    }
    let ghost ys = s.points@;
    let ghost maxc = MAX_COORD as int;
    let n = s.points.len();
    proof {
        assert((n as int) * 1 <= (n as int) * (s.step as int)) by (nonlinear_arith)
            requires
                1 <= s.step,
                n >= 0,
        ;
    }
    let mut i = lo;
    let mut sum: i128 = 0;
    while i + 1 < hi
        invariant
            lo <= hi,
            lo <= i <= hi,
            i < hi || i == lo,
            hi < n,
            n == s.points@.len(),
            ys == s.points@,
            s.wf(),
            n <= 3 * (MAX_COORD as int),
            sum == pair_sum(ys, lo as int, i + 1),
            sum <= (i - lo) * 2 * (MAX_COORD as int),
            -sum <= (i - lo) * 2 * (MAX_COORD as int),
        decreases hi - i,
    {
        let (_, y1) = s.points[i];
        let (_, y2) = s.points[i + 1];
        proof {
            assert(in_coord_range(s.points@[i as int].1 as int));
            assert(in_coord_range(s.points@[i + 1].1 as int));
            assert(i as int - lo as int <= 3 * (MAX_COORD as int)) by (nonlinear_arith)
                requires
                    lo <= i,
                    i <= hi,
                    hi < n,
                    (n as int) <= 3 * (MAX_COORD as int),
            ;
            lemma_sum_grow(
                sum as int,
                i as int - lo as int,
                y1 as int,
                y2 as int,
                MAX_COORD as int,
            );
        }
        sum = sum + (y1 as i128) + (y2 as i128);
        i = i + 1;
    }
    proof {
        assert(sum == pair_sum(ys, lo as int, hi as int));
        lemma_mul_bound(s.step as int, sum as int, i as int - lo as int, n as int, maxc);
    }
    let total: i128 = (s.step as i128) * sum;
    let d: i128 = 2 * (SCALE as i128);
    let area: i128 = if total >= 0 {
        total / d
    } else {
        proof {
            lemma_floor_div_neg(-(total as int), d as int);
        }
        -((-total + d - 1) / d)
    };
    Ok(area)
}

/// One more trapezoid keeps the running sum inside its linear bound.
proof fn lemma_sum_grow(sumv: int, k: int, y1: int, y2: int, maxc: int)
    requires
        maxc >= 1,
        0 <= k <= 3 * maxc,
        sumv <= k * 2 * maxc,
        -sumv <= k * 2 * maxc,
        -maxc <= y1 <= maxc,
        -maxc <= y2 <= maxc,
    ensures
        sumv + y1 + y2 <= (k + 1) * 2 * maxc,
        -(sumv + y1 + y2) <= (k + 1) * 2 * maxc,
        (k + 1) * 2 * maxc <= 8 * maxc * maxc,
{
    assert((k + 1) * 2 * maxc == k * 2 * maxc + 2 * maxc) by (nonlinear_arith);
    assert((k + 1) * 2 * maxc <= 8 * maxc * maxc) by (nonlinear_arith)
        requires
            0 <= k <= 3 * maxc,
            maxc >= 1,
    ;
}

/// The scaled sum stays well inside the 128-bit range.
proof fn lemma_mul_bound(step: int, sum: int, pairs: int, n: int, maxc: int)
    requires
        1 <= step,
        maxc == MAX_COORD as int,
        0 <= pairs <= n,
        n * step <= 3 * maxc,
        sum <= pairs * 2 * maxc,
        -sum <= pairs * 2 * maxc,
        n >= 0,
    ensures
        step * sum <= 6 * maxc * maxc,
        -(step * sum) <= 6 * maxc * maxc,
{
    assert(pairs * step <= n * step) by (nonlinear_arith)
        requires
            pairs <= n,
            step >= 1,
            pairs >= 0,
    ;
    assert(step * sum <= step * (pairs * 2 * maxc) && -(step * sum) <= step * (pairs * 2 * maxc))
        by (nonlinear_arith)
        requires
            step >= 1,
            sum <= pairs * 2 * maxc,
            -sum <= pairs * 2 * maxc,
    ;
    assert(step * (pairs * 2 * maxc) == (pairs * step) * 2 * maxc) by (nonlinear_arith);
    assert((pairs * step) * 2 * maxc <= (3 * maxc) * 2 * maxc) by (nonlinear_arith)
        requires
            pairs * step <= 3 * maxc,
            maxc > 0,
    ;
    assert((3 * maxc) * 2 * maxc == 6 * maxc * maxc) by (nonlinear_arith);
}

/// Floor division of a negative value by a positive one, computed through
/// the ceiling of the magnitudes.
proof fn lemma_floor_div_neg(a: int, d: int)
    requires
        a > 0,
        d > 0,
    ensures
        -((a + d - 1) / d) == (-a) / d,
{
    let q = (a + d - 1) / d;
    vstd::arithmetic::div_mod::lemma_fundamental_div_mod(a + d - 1, d);
    let r = (a + d - 1) % d;
    assert(a + d - 1 == d * q + r);
    assert(q * d == a + d - 1 - r) by (nonlinear_arith)
        requires
            a + d - 1 == d * q + r,
    ;
    assert(q * d >= a);
    assert(q * d < a + d);
    let r2 = q * d - a;
    assert(0 <= r2 < d);
    assert(-a == (-q) * d + r2) by (nonlinear_arith)
        requires
            r2 == q * d - a,
    ;
    vstd::arithmetic::div_mod::lemma_fundamental_div_mod_converse(-a, d, -q, r2);
}

/// What recalculating the area leaves on screen: the trapezoidal area when
/// the range is defined, the previous value otherwise.
pub open spec fn recalc_spec(s: SampleSet, prev: int) -> int {
    if range_defined(s) {
        area_micro(s)
    } else {
        prev
    }
}

/// Recalculating the area twice in a row over the same samples shows the
/// same value as recalculating it once.
pub proof fn lemma_recalculate_idempotent(s: SampleSet, prev: int)
    ensures
        recalc_spec(s, recalc_spec(s, prev)) == recalc_spec(s, prev),
{
}

/// A function that evaluates to zero everywhere yields zero area over any
/// window, bounds and step, whenever the bound range is defined.
pub proof fn lemma_zero_function_zero_area(
    s: SampleSet,
    f: Seq<char>,
    w: crate::sample::PlotWindow,
    b: crate::sample::IntegrationBounds,
    step: int,
)
    requires
        crate::sample::sampled_from(s, f, w, b, step),
        forall|x: int| #[trigger] crate::adapter::eval_micro(f, x) == 0,
        range_defined(s),
    ensures
        area_micro(s) == 0,
{
    assert forall|i: int| 0 <= i < s.points@.len() implies #[trigger] s.points@[i].1 == 0 by {
        assert(s.points@[i].1 == crate::fixed::clamped(
            crate::adapter::eval_micro(f, crate::sample::grid_x(w.x_min as int, step, i)),
        ));
    }
    lemma_zero_curve_zero_area(s);
}

/// On a linear curve the trapezoid rule is exact: the pair sum telescopes
/// to the number of pairs times the sum of the two endpoint values, which
/// is the discrete form of the area of a trapezoid between the endpoints.
pub proof fn lemma_linear_pair_sum(ys: Seq<(i64, i64)>, lo: int, hi: int, a: int, d: int)
    requires
        0 <= lo,
        hi <= ys.len(),
        forall|i: int| lo <= i < hi ==> #[trigger] ys[i].1 == a + i * d,
    ensures
        pair_sum(ys, lo, hi) == if hi <= lo + 1 {
            0
        } else {
            (hi - lo - 1) * (ys[lo].1 + ys[hi - 1].1)
        },
    decreases hi - lo,
{
    if hi <= lo + 1 {
    } else if hi == lo + 2 {
        assert(pair_sum(ys, lo, lo + 1) == 0);
        assert(pair_sum(ys, lo, hi) == ys[lo].1 + ys[lo + 1].1);
        assert(1 * (ys[lo].1 + ys[lo + 1].1) == ys[lo].1 + ys[lo + 1].1) by (nonlinear_arith);
    } else {
        lemma_linear_pair_sum(ys, lo, hi - 1, a, d);
        let m = hi - 1 - lo;
        let p = ys[lo].1 as int;
        let q = ys[hi - 1].1 as int;
        assert(ys[hi - 2].1 == a + (hi - 2) * d);
        assert(ys[hi - 1].1 == a + (hi - 1) * d);
        assert((hi - 2) * d == (hi - 1) * d - d) by (nonlinear_arith);
        assert(ys[hi - 2].1 == q - d);
        assert(pair_sum(ys, lo, hi - 1) == (m - 1) * (p + (q - d)));
        assert(m * (p + q) == (m - 1) * (p + (q - d)) + (q - d) + q) by (nonlinear_arith)
            requires
                p == a + lo * d,
                q == a + (hi - 1) * d,
                m == hi - 1 - lo,
                m >= 2,
        ;
        assert(pair_sum(ys, lo, hi) == m * (p + q));
        assert((hi - lo - 1) * (ys[lo].1 + ys[hi - 1].1) == m * (p + q));
    }
}

/// A curve that is zero at every sample has zero area, whatever range the
/// bounds picked out.
pub proof fn lemma_zero_curve_zero_area(s: SampleSet)
    requires
        s.wf(),
        range_defined(s),
        forall|i: int| 0 <= i < s.points@.len() ==> #[trigger] s.points@[i].1 == 0,
    ensures
        area_micro(s) == 0,
{
    let lo = s.lower_index.unwrap() as int;
    let hi = s.upper_index.unwrap() as int;
    lemma_pair_sum_zero(s.points@, lo, hi);
    assert((s.step as int) * 0 == 0) by (nonlinear_arith);
}

proof fn lemma_pair_sum_zero(ys: Seq<(i64, i64)>, lo: int, hi: int)
    requires
        0 <= lo,
        hi <= ys.len(),
        forall|i: int| 0 <= i < ys.len() ==> #[trigger] ys[i].1 == 0,
    ensures
        pair_sum(ys, lo, hi) == 0,
    decreases hi - lo,
{
    if hi > lo + 1 {
        lemma_pair_sum_zero(ys, lo, hi - 1);
    }
}

} // verus!
