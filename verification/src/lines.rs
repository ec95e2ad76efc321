//! The bound-line generator: the two vertical marker segments drawn at the
//! integration bounds, and the horizontal zero-line across the window.

use vstd::prelude::*;

use crate::adapter::{eval_at, eval_micro, FuncDef};
use crate::fixed::{clamp_coord, clamped, in_coord_range, MAX_COORD};
use crate::sample::{grid_x, lemma_ceil_count, sample_count, PlotWindow};

verus! {

/// The step that chops a span into about a hundred pieces.  A span of less
/// than a hundred micro-units would truncate to a zero step and loop
/// forever; the step is floored at one micro-unit instead, giving a short
/// line rather than an error.
pub open spec fn line_step(span: int) -> int {
    if span / 100 >= 1 {
        span / 100
    } else {
        1
    }
}

/// What the vertical marker at bound `bx` holds: points every
/// `line_step` from the window's bottom edge up to the curve's height at
/// `bx`, and none at all when that height is at or below the bottom edge.
pub open spec fn vline_from(line: Seq<(i64, i64)>, f: Seq<char>, bx: int, w: PlotWindow) -> bool {
    let h = clamped(eval_micro(f, bx));
    let step = line_step(h - w.y_min);
    &&& line.len() == sample_count(w.y_min as int, h, step)
    &&& forall|i: int| 0 <= i < line.len() ==> (#[trigger] line[i]).0 == bx
    &&& forall|i: int|
        0 <= i < line.len() ==> (#[trigger] line[i]).1 == grid_x(w.y_min as int, step, i)
    &&& forall|i: int| 0 <= i < line.len() ==> w.y_min <= (#[trigger] line[i]).1 < h
}

/// What the horizontal zero-line holds: points at height zero every
/// `line_step` across the window's x-span, and none when the span is empty.
pub open spec fn zero_line_from(line: Seq<(i64, i64)>, w: PlotWindow) -> bool {
    let step = line_step(w.x_max - w.x_min);
    &&& line.len() == sample_count(w.x_min as int, w.x_max as int, step)
    &&& forall|i: int|
        0 <= i < line.len() ==> (#[trigger] line[i]).0 == grid_x(w.x_min as int, step, i)
    &&& forall|i: int| 0 <= i < line.len() ==> (#[trigger] line[i]).1 == 0
    &&& forall|i: int| 0 <= i < line.len() ==> w.x_min <= (#[trigger] line[i]).0 < w.x_max
}

/// Build the vertical marker for the bound at `bx`: from the bottom of the
/// window up to the curve, empty when the curve lies below the window.
pub fn bound_line(f: &FuncDef, bx: i64, w: &PlotWindow) -> (r: Vec<(i64, i64)>)
    requires
        w.in_range(),
        in_coord_range(bx as int),
    ensures
        vline_from(r@, f@, bx as int, *w),
{
    let h = clamp_coord(eval_at(f, bx));
    let step: i64 = if (h - w.y_min) / 100 >= 1 {
        (h - w.y_min) / 100
    } else {
        1
    };
    let mut line: Vec<(i64, i64)> = Vec::new();
    let mut y = w.y_min;
    proof {
        assert(0int * (step as int) == 0) by (nonlinear_arith);
    }
    while y < h
        invariant
            w.in_range(),
            in_coord_range(h as int),
            1 <= step <= 3 * (MAX_COORD as int),
            step == line_step(h as int - w.y_min as int),
            w.y_min <= y,
            y == grid_x(w.y_min as int, step as int, line@.len() as int),
            line@.len() > 0 ==> grid_x(w.y_min as int, step as int, line@.len() - 1)
                < h as int,
            forall|i: int| 0 <= i < line@.len() ==> (#[trigger] line@[i]).0 == bx,
            forall|i: int|
                0 <= i < line@.len() ==> (#[trigger] line@[i]).1 == grid_x(
                    w.y_min as int,
                    step as int,
                    i,
                ),
            forall|i: int| 0 <= i < line@.len() ==> w.y_min <= (#[trigger] line@[i]).1 < h,
        decreases h + step - y,
    {
        let ghost n = line@.len() as int;
        let ghost old_line = line@;
        line.push((bx, y));
        proof {
            assert(line@[n] == (bx, y));
            assert(forall|i: int| 0 <= i < n ==> #[trigger] line@[i] == old_line[i]);
            assert((n + 1) * (step as int) == n * (step as int) + step) by (nonlinear_arith);
        }
        y = y + step;
    }
    proof {
        lemma_line_count(w.y_min as int, h as int, step as int, line@.len() as int);
    }
    line
}

/// Build the horizontal zero-line across the window's x-span.
pub fn zero_line(w: &PlotWindow) -> (r: Vec<(i64, i64)>)
    requires
        w.in_range(),
    ensures
        zero_line_from(r@, *w),
{
    let step: i64 = if (w.x_max - w.x_min) / 100 >= 1 {
        (w.x_max - w.x_min) / 100
    } else {
        1
    };
    let mut line: Vec<(i64, i64)> = Vec::new();
    let mut x = w.x_min;
    proof {
        assert(0int * (step as int) == 0) by (nonlinear_arith);
    }
    while x < w.x_max
        invariant
            w.in_range(),
            1 <= step <= 3 * (MAX_COORD as int),
            step == line_step(w.x_max as int - w.x_min as int),
            w.x_min <= x,
            x == grid_x(w.x_min as int, step as int, line@.len() as int),
            line@.len() > 0 ==> grid_x(w.x_min as int, step as int, line@.len() - 1)
                < w.x_max as int,
            forall|i: int|
                0 <= i < line@.len() ==> (#[trigger] line@[i]).0 == grid_x(
                    w.x_min as int,
                    step as int,
                    i,
                ),
            forall|i: int| 0 <= i < line@.len() ==> (#[trigger] line@[i]).1 == 0,
            forall|i: int| 0 <= i < line@.len() ==> w.x_min <= (#[trigger] line@[i]).0 < w.x_max,
        decreases w.x_max + step - x,
    {
        let ghost n = line@.len() as int;
        let ghost old_line = line@;
        line.push((x, 0));
        proof {
            assert(line@[n] == (x, 0i64));
            assert(forall|i: int| 0 <= i < n ==> #[trigger] line@[i] == old_line[i]);
            assert((n + 1) * (step as int) == n * (step as int) + step) by (nonlinear_arith);
        }
        x = x + step;
    }
    proof {
        lemma_line_count(w.x_min as int, w.x_max as int, step as int, line@.len() as int);
    }
    line
}

/// A walk that just stepped past `stop` took the ceiling number of steps.
proof fn lemma_line_count(start: int, stop: int, step: int, n: int)
    requires
        step >= 1,
        n >= 0,
        n == 0 ==> start >= stop,
        n > 0 ==> grid_x(start, step, n) >= stop && grid_x(start, step, n - 1) < stop,
    ensures
        n == sample_count(start, stop, step),
{
    if n == 0 {
    } else {
        assert(n * step >= stop - start);
        assert((n - 1) * step == n * step - step) by (nonlinear_arith);
        assert((n - 1) * step < stop - start);
        if n == 1 {
            assert(0int * step == 0) by (nonlinear_arith);
            assert(stop > start);
        } else {
            assert(stop > start) by (nonlinear_arith)
                requires
                    (n - 1) * step < stop - start,
                    n >= 2,
                    step >= 1,
            ;
        }
        lemma_ceil_count(stop - start, step, n);
    }
}

} // verus!
