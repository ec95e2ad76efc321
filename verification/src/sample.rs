//! The sampler: walks the plotting window at a fixed step, evaluates the
//! committed function at every grid point, and records where the
//! integration bounds fall in the sample sequence.

use vstd::prelude::*;

use crate::adapter::{eval_at, eval_micro, FuncDef};
use crate::fixed::{clamp_coord, clamped, in_coord_range, MAX_COORD};

verus! {

/// The plotting window.  Once committed, the minima lie strictly below the
/// maxima and all four edges lie in the coordinate range.
#[derive(Clone, Copy, PartialEq, Eq, Structural, Debug)]
pub struct PlotWindow {
    pub x_min: i64,
    pub x_max: i64,
    pub y_min: i64,
    pub y_max: i64,
}

impl PlotWindow {
    /// The four edges lie in the coordinate range.
    pub open spec fn in_range(self) -> bool {
        &&& in_coord_range(self.x_min as int)
        &&& in_coord_range(self.x_max as int)
        &&& in_coord_range(self.y_min as int)
        &&& in_coord_range(self.y_max as int)
    }

    /// The committed-window invariant.
    pub open spec fn wf(self) -> bool {
        &&& self.in_range()
        &&& self.x_min < self.x_max
        &&& self.y_min < self.y_max
    }
}

/// The integration bounds.  No ordering is enforced between them; the
/// integrator reports an inverted pair as an error.
#[derive(Clone, Copy, PartialEq, Eq, Structural, Debug)]
pub struct IntegrationBounds {
    pub lower: i64,
    pub upper: i64,
}

impl IntegrationBounds {
    pub open spec fn in_range(self) -> bool {
        in_coord_range(self.lower as int) && in_coord_range(self.upper as int)
    }
}

/// How many samples a window yields: the step fits into the span rounded
/// upward, none for an empty span.
pub open spec fn sample_count(x_min: int, x_max: int, step: int) -> int {
    if x_max <= x_min {
        0
    } else {
        (x_max - x_min + step - 1) / step
    }
}

/// The sampling grid point with index `i`.
pub open spec fn grid_x(x_min: int, step: int, i: int) -> int {
    x_min + i * step
}

/// `idx` names the first sample whose x-coordinate reaches `bound`, if any
/// sample does.
pub open spec fn first_reaching(points: Seq<(i64, i64)>, bound: int, idx: Option<usize>) -> bool {
    match idx {
        Some(i) => {
            &&& i < points.len()
            &&& points[i as int].0 >= bound
            &&& forall|j: int| 0 <= j < i ==> #[trigger] points[j].0 < bound
        },
        None => forall|j: int| 0 <= j < points.len() ==> #[trigger] points[j].0 < bound,
    }
}

/// The sampled curve: `(x, y)` pairs at every grid point of the window,
/// the step they were taken at, and the positions of the two integration
/// bounds in the sequence.
pub struct SampleSet {
    pub points: Vec<(i64, i64)>,
    pub step: i64,
    pub lower_index: Option<usize>,
    pub upper_index: Option<usize>,
}

impl SampleSet {
    /// What every sample set the sampler builds satisfies: a positive step,
    /// clamped values, indices inside the sequence, and a total walked span
    /// small enough for exact integration.
    pub open spec fn wf(self) -> bool {
        &&& 1 <= self.step <= MAX_COORD
        &&& forall|i: int|
            0 <= i < self.points@.len() ==> in_coord_range(#[trigger] self.points@[i].1 as int)
        &&& (self.points@.len() as int) * (self.step as int) <= 3 * (MAX_COORD as int)
        &&& match self.lower_index {
            Some(i) => i < self.points@.len(),
            None => true,
        }
        &&& match self.upper_index {
            Some(i) => i < self.points@.len(),
            None => true,
        }
    }

    /// An empty sample set, as a fresh session starts with.
    pub fn empty() -> (r: SampleSet)
        ensures
            r.wf(),
            r.points@.len() == 0,
            r.lower_index is None,
            r.upper_index is None,
            r.step == 1000,
    {
        SampleSet { points: Vec::new(), step: 1000, lower_index: None, upper_index: None }
    }
}

/// The full sampler contract: what `sample` returns for a function text
/// `f`, a window, bounds and a step.
pub open spec fn sampled_from(
    r: SampleSet,
    f: Seq<char>,
    w: PlotWindow,
    b: IntegrationBounds,
    step: int,
) -> bool {
    &&& r.wf()
    &&& r.step == step
    &&& r.points@.len() == sample_count(w.x_min as int, w.x_max as int, step)
    &&& forall|i: int|
        0 <= i < r.points@.len() ==> #[trigger] r.points@[i].0 == grid_x(
            w.x_min as int,
            step,
            i,
        )
    &&& forall|i: int|
        0 <= i < r.points@.len() ==> #[trigger] r.points@[i].1 == clamped(
            eval_micro(f, grid_x(w.x_min as int, step, i)),
        )
    &&& forall|i: int|
        0 <= i < r.points@.len() ==> w.x_min <= #[trigger] r.points@[i].0 < w.x_max
    &&& first_reaching(r.points@, b.lower as int, r.lower_index)
    &&& first_reaching(r.points@, b.upper as int, r.upper_index)
}

/// Walk the window from `x_min` in steps of `step` while `x` stays below
/// `x_max`; evaluate the function at every grid point and record, once
/// each, the first sample at or after either integration bound.
pub fn sample(f: &FuncDef, w: &PlotWindow, b: &IntegrationBounds, step: i64) -> (r: SampleSet)
    requires
        w.in_range(),
        1 <= step <= MAX_COORD,
    ensures
        sampled_from(r, f@, *w, *b, step as int),
{
    let mut points: Vec<(i64, i64)> = Vec::new();
    let mut lower_index: Option<usize> = None;
    let mut upper_index: Option<usize> = None;
    let mut x = w.x_min;
    proof {
        assert(0int * (step as int) == 0) by (nonlinear_arith);
        assert(x == grid_x(w.x_min as int, step as int, 0));
    }
    while x < w.x_max
        invariant
            w.in_range(),
            1 <= step <= MAX_COORD,
            w.x_min <= x,
            x == grid_x(w.x_min as int, step as int, points@.len() as int),
            points@.len() > 0 ==> grid_x(w.x_min as int, step as int, points@.len() - 1)
                < w.x_max as int,
            forall|i: int|
                0 <= i < points@.len() ==> #[trigger] points@[i].0 == grid_x(
                    w.x_min as int,
                    step as int,
                    i,
                ),
            forall|i: int|
                0 <= i < points@.len() ==> #[trigger] points@[i].1 == clamped(
                    eval_micro(f@, grid_x(w.x_min as int, step as int, i)),
                ),
            forall|i: int|
                0 <= i < points@.len() ==> in_coord_range(#[trigger] points@[i].1 as int),
            forall|i: int|
                0 <= i < points@.len() ==> w.x_min <= #[trigger] points@[i].0 < w.x_max,
            first_reaching(points@, b.lower as int, lower_index),
            first_reaching(points@, b.upper as int, upper_index),
            match lower_index {
                Some(i) => i < points@.len(),
                None => true,
            },
            match upper_index {
                Some(i) => i < points@.len(),
                None => true,
            },
        decreases w.x_max + step - x,
    {
        let ghost n = points@.len() as int;
        let y_raw = eval_at(f, x);
        let y = clamp_coord(y_raw);
        if lower_index.is_none() && x >= b.lower {
            lower_index = Some(points.len());
        }
        if upper_index.is_none() && x >= b.upper {
            upper_index = Some(points.len());
        }
        let ghost old_points = points@;
        points.push((x, y));
        proof {
            assert(points@ == old_points.push((x, y)));
            assert(points@[n] == (x, y));
            assert(forall|i: int| 0 <= i < n ==> #[trigger] points@[i] == old_points[i]);
            assert((n + 1) * (step as int) == n * (step as int) + step) by (nonlinear_arith);
        }
        x = x + step;
    }
    proof {
        let n = points@.len() as int;
        let span = w.x_max as int - w.x_min as int;
        if n == 0 {
            assert(sample_count(w.x_min as int, w.x_max as int, step as int) == 0);
        } else {
            assert(n * (step as int) >= span);
            assert((n - 1) * (step as int) == n * (step as int) - step) by (nonlinear_arith);
            assert((n - 1) * (step as int) < span);
            lemma_ceil_count(span, step as int, n);
        }
        assert(n * (step as int) <= 3 * (MAX_COORD as int));
    }
    SampleSet { points, step, lower_index, upper_index }
}

/// A count that steps over the span exactly once is its ceiling quotient.
pub(crate) proof fn lemma_ceil_count(span: int, step: int, n: int)
    requires
        step >= 1,
        n >= 1,
        n * step >= span,
        (n - 1) * step < span,
    ensures
        n == (span + step - 1) / step,
{
    let x = span + step - 1;
    let r = x - n * step;
    assert((n - 1) * step == n * step - step) by (nonlinear_arith);
    assert(0 <= r < step);
    vstd::arithmetic::div_mod::lemma_fundamental_div_mod_converse(x, step, n, r);
}

} // verus!
