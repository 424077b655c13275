//! Line rasterization by equal steps.
//!
//! A line from `start` to `end` is sampled at `steps + 1` points, where
//! `steps` is the larger of the two coordinate distances. Sample `k` lies
//! `k / steps` of the way from `start` to `end`; it marks the cell that
//! contains it. The samples are taken in exact arithmetic, so the first one
//! is `start` and the last one is `end`. Samples off the grid are dropped.

use vstd::prelude::*;
use vstd::arithmetic::div_mod::lemma_fundamental_div_mod_converse;
use crate::grid::Grid;

verus! {

/// A point in character space. It may lie off the grid.
#[derive(Clone, Copy, Debug, PartialEq, Eq, Structural)]
pub struct ScreenPoint {
    pub x: i32,
    pub y: i32,
}

/// The distance between two coordinates.
pub open spec fn distance(from: int, to: int) -> int {
    if to >= from {
        to - from
    } else {
        from - to
    }
}

/// Whether `v` lies between `a` and `b`, whichever of them is smaller.
pub open spec fn between(a: int, b: int, v: int) -> bool {
    (a <= v <= b) || (b <= v <= a)
}

/// The number of steps from `start` to `end`: the larger of the distances
/// along the two axes.
pub open spec fn steps(start: ScreenPoint, end: ScreenPoint) -> int {
    let across = distance(start.x as int, end.x as int);
    let down = distance(start.y as int, end.y as int);
    if across >= down {
        across
    } else {
        down
    }
}

/// One coordinate of sample `k` out of `n` on the way from `from` to `to`,
/// rounded down to the cell that contains it.
pub open spec fn interpolate(from: int, to: int, k: int, n: int) -> int {
    if n == 0 {
        from
    } else {
        from + (k * (to - from)) / n
    }
}

/// The cell of sample `k` of the line from `start` to `end`, as column and
/// row.
pub open spec fn sample(start: ScreenPoint, end: ScreenPoint, k: int) -> (int, int) {
    let n = steps(start, end);
    (
        interpolate(start.x as int, end.x as int, k, n),
        interpolate(start.y as int, end.y as int, k, n),
    )
}

/// Whether one of the first `count` samples of the line from `start` to
/// `end` falls in column `x` of row `y`.
pub open spec fn sampled_within(
    start: ScreenPoint,
    end: ScreenPoint,
    count: int,
    x: int,
    y: int,
) -> bool {
    exists|k: int| 0 <= k < count && #[trigger] sample(start, end, k) == (x, y)
}

/// Whether a sample of the line from `start` to `end` falls in column `x` of
/// row `y`.
pub open spec fn on_line(start: ScreenPoint, end: ScreenPoint, x: int, y: int) -> bool {
    sampled_within(start, end, steps(start, end) + 1, x, y)
}

/// Draws the line from `start` to `end` on the grid: every cell of the grid
/// that a sample falls in becomes marked, and nothing else changes.
///
/// Every sample is visited, also those off the grid, so the time taken
/// grows with the number of steps.
pub fn draw_line(grid: &mut Grid, start: ScreenPoint, end: ScreenPoint)
    requires
        old(grid).wf(),
    ensures
        final(grid).wf(),
        final(grid).cols() == old(grid).cols(),
        final(grid).rows() == old(grid).rows(),
        forall|x: int, y: int|
            final(grid).marked(x, y) <==> old(grid).marked(x, y) || (old(grid).contains(x, y)
                && on_line(start, end, x, y)),
{
    let dx: i64 = end.x as i64 - start.x as i64;
    let dy: i64 = end.y as i64 - start.y as i64;
    let across: i64 = if dx >= 0 { dx } else { -dx };
    let down: i64 = if dy >= 0 { dy } else { -dy };
    let n: i64 = if across >= down { across } else { down };
    // Sample k lies at start + (qx + rx / n, qy + ry / n).
    let mut k: i64 = 0;
    let mut qx: i64 = 0;
    let mut rx: i64 = 0;
    let mut qy: i64 = 0;
    let mut ry: i64 = 0;
    while k <= n
        invariant
            grid.wf(),
            grid.cols() == old(grid).cols(),
            grid.rows() == old(grid).rows(),
            n == steps(start, end),
            dx == end.x - start.x,
            dy == end.y - start.y,
            -n <= dx <= n,
            -n <= dy <= n,
            0 <= n <= 0xffff_ffff,
            0 <= k <= n + 1,
            -k <= qx <= k,
            -k <= qy <= k,
            n > 0 ==> 0 <= rx < n && 0 <= ry < n,
            k * dx == qx * n + rx,
            k * dy == qy * n + ry,
            forall|x: int, y: int|
                grid.marked(x, y) <==> old(grid).marked(x, y) || (old(grid).contains(x, y)
                    && sampled_within(start, end, k as int, x, y)),
        decreases n + 1 - k,
    {
        proof {
            lemma_sample_is(start, end, k as int, qx as int, rx as int, qy as int, ry as int);
        }
        grid.plot(start.x as i64 + qx, start.y as i64 + qy);
        proof {
            assert forall|x: int, y: int|
                grid.marked(x, y) <==> old(grid).marked(x, y) || (old(grid).contains(x, y)
                    && sampled_within(start, end, k + 1, x, y)) by {
                if sampled_within(start, end, k + 1, x, y) {
                    let j = choose|j: int| 0 <= j < k + 1 && #[trigger] sample(start, end, j) == (x, y);
                    if j < k {
                        assert(sampled_within(start, end, k as int, x, y));
                    }
                }
                if sampled_within(start, end, k as int, x, y) {
                    let j = choose|j: int| 0 <= j < k && #[trigger] sample(start, end, j) == (x, y);
                    assert(0 <= j < k + 1 && sample(start, end, j) == (x, y));
                }
                if x == start.x + qx && y == start.y + qy {
                    assert(sample(start, end, k as int) == (x, y));
                }
            }
            lemma_next_remainder(k as int, dx as int, n as int, qx as int, rx as int);
            lemma_next_remainder(k as int, dy as int, n as int, qy as int, ry as int);
        }
        rx = rx + dx;
        if rx >= n && n > 0 {
            rx = rx - n;
            qx = qx + 1;
        } else if rx < 0 {
            rx = rx + n;
            qx = qx - 1;
        }
        ry = ry + dy;
        if ry >= n && n > 0 {
            ry = ry - n;
            qy = qy + 1;
        } else if ry < 0 {
            ry = ry + n;
            qy = qy - 1;
        }
        k = k + 1;
    }
}

/// The first sample of a line is its start.
pub proof fn law_first_sample_is_start(start: ScreenPoint, end: ScreenPoint)
    ensures
        sample(start, end, 0) == (start.x as int, start.y as int),
        on_line(start, end, start.x as int, start.y as int),
{
    lemma_sample_is(start, end, 0, 0, 0, 0, 0);
}

/// The last sample of a line is its end.
pub proof fn law_last_sample_is_end(start: ScreenPoint, end: ScreenPoint)
    ensures
        sample(start, end, steps(start, end)) == (end.x as int, end.y as int),
        on_line(start, end, end.x as int, end.y as int),
{
    let n = steps(start, end);
    let dx = end.x - start.x;
    let dy = end.y - start.y;
    assert(n * dx == dx * n + 0) by (nonlinear_arith);
    assert(n * dy == dy * n + 0) by (nonlinear_arith);
    lemma_sample_is(start, end, n, dx, 0, dy, 0);
}

/// A line from a point to itself has one sample, the point: it passes
/// through that cell and through no other.
pub proof fn law_point_line_is_one_cell(point: ScreenPoint, x: int, y: int)
    ensures
        steps(point, point) == 0,
        on_line(point, point, x, y) <==> x == point.x && y == point.y,
{
    if x == point.x && y == point.y {
        assert(sample(point, point, 0) == (x, y));
    }
}

/// Every sample of a line lies in the box spanned by its two ends.
pub proof fn law_samples_stay_between_ends(start: ScreenPoint, end: ScreenPoint, k: int)
    requires
        0 <= k <= steps(start, end),
    ensures
        between(start.x as int, end.x as int, sample(start, end, k).0),
        between(start.y as int, end.y as int, sample(start, end, k).1),
{
    let n = steps(start, end);
    lemma_interpolate_between(start.x as int, end.x as int, k, n);
    lemma_interpolate_between(start.y as int, end.y as int, k, n);
}

/// A line has no gaps: each sample lies in a cell next to the cell of the
/// sample before it, across, down or diagonally, and never in the same
/// cell.
pub proof fn law_samples_are_neighbours(start: ScreenPoint, end: ScreenPoint, k: int)
    requires
        0 <= k < steps(start, end),
    ensures
        distance(sample(start, end, k).0, sample(start, end, k + 1).0) <= 1,
        distance(sample(start, end, k).1, sample(start, end, k + 1).1) <= 1,
        sample(start, end, k) != sample(start, end, k + 1),
{
    let n = steps(start, end);
    lemma_interpolate_step(start.x as int, end.x as int, k, n);
    lemma_interpolate_step(start.y as int, end.y as int, k, n);
    if distance(start.x as int, end.x as int) == n {
        lemma_interpolate_unit(start.x as int, end.x as int, k, n);
        lemma_interpolate_unit(start.x as int, end.x as int, k + 1, n);
    } else {
        lemma_interpolate_unit(start.y as int, end.y as int, k, n);
        lemma_interpolate_unit(start.y as int, end.y as int, k + 1, n);
    }
}

/// No two samples of a line fall in the same cell, so a line that lies on
/// the grid marks one cell more than it has steps.
pub proof fn law_samples_are_distinct(start: ScreenPoint, end: ScreenPoint, j: int, k: int)
    requires
        0 <= j <= steps(start, end),
        0 <= k <= steps(start, end),
        j != k,
    ensures
        sample(start, end, j) != sample(start, end, k),
{
    let n = steps(start, end);
    if distance(start.x as int, end.x as int) == n {
        lemma_interpolate_unit(start.x as int, end.x as int, j, n);
        lemma_interpolate_unit(start.x as int, end.x as int, k, n);
    } else {
        lemma_interpolate_unit(start.y as int, end.y as int, j, n);
        lemma_interpolate_unit(start.y as int, end.y as int, k, n);
    }
}

/// A line along a row passes through exactly the cells of that row from one
/// end to the other.
pub proof fn law_horizontal_line(start: ScreenPoint, end: ScreenPoint, x: int, y: int)
    requires
        start.y == end.y,
    ensures
        on_line(start, end, x, y) <==> y == start.y && between(start.x as int, end.x as int, x),
{
    let n = steps(start, end);
    if on_line(start, end, x, y) {
        let k = choose|k: int| 0 <= k < n + 1 && #[trigger] sample(start, end, k) == (x, y);
        law_samples_stay_between_ends(start, end, k);
    }
    if y == start.y && between(start.x as int, end.x as int, x) {
        let k = distance(start.x as int, x);
        lemma_interpolate_unit(start.x as int, end.x as int, k, n);
        lemma_interpolate_flat(start.y as int, k, n);
        assert(sample(start, end, k) == (x, y));
    }
}

/// A line along a column passes through exactly the cells of that column
/// from one end to the other.
pub proof fn law_vertical_line(start: ScreenPoint, end: ScreenPoint, x: int, y: int)
    requires
        start.x == end.x,
    ensures
        on_line(start, end, x, y) <==> x == start.x && between(start.y as int, end.y as int, y),
{
    let n = steps(start, end);
    if on_line(start, end, x, y) {
        let k = choose|k: int| 0 <= k < n + 1 && #[trigger] sample(start, end, k) == (x, y);
        law_samples_stay_between_ends(start, end, k);
    }
    if x == start.x && between(start.y as int, end.y as int, y) {
        let k = distance(start.y as int, y);
        lemma_interpolate_unit(start.y as int, end.y as int, k, n);
        lemma_interpolate_flat(start.x as int, k, n);
        assert(sample(start, end, k) == (x, y));
    }
}

/// Along the axis that sets the number of steps, sample `k` lies `k` cells
/// from the start.
proof fn lemma_interpolate_unit(from: int, to: int, k: int, n: int)
    requires
        n == distance(from, to),
        0 <= k <= n,
    ensures
        interpolate(from, to, k, n) == if to >= from {
            from + k
        } else {
            from - k
        },
{
    if n > 0 {
        if to >= from {
            assert(k * (to - from) == k * n + 0) by (nonlinear_arith)
                requires
                    to - from == n,
            ;
            lemma_fundamental_div_mod_converse(k * (to - from), n, k, 0);
        } else {
            assert(k * (to - from) == (-k) * n + 0) by (nonlinear_arith)
                requires
                    to - from == -n,
            ;
            lemma_fundamental_div_mod_converse(k * (to - from), n, -k, 0);
        }
    }
}

/// From one sample to the next a coordinate changes by one cell at most.
proof fn lemma_interpolate_step(from: int, to: int, k: int, n: int)
    requires
        0 < n,
        distance(from, to) <= n,
    ensures
        distance(interpolate(from, to, k, n), interpolate(from, to, k + 1, n)) <= 1,
{
    let d = to - from;
    let q = (k * d) / n;
    let r = (k * d) % n;
    vstd::arithmetic::div_mod::lemma_fundamental_div_mod(k * d, n);
    vstd::arithmetic::div_mod::lemma_mod_bound(k * d, n);
    assert(k * d == q * n + r) by (nonlinear_arith)
        requires
            k * d == n * q + r,
    ;
    lemma_next_remainder(k, d, n, q, r);
    if r + d >= n {
        lemma_fundamental_div_mod_converse((k + 1) * d, n, q + 1, r + d - n);
    } else if r + d < 0 {
        lemma_fundamental_div_mod_converse((k + 1) * d, n, q - 1, r + d + n);
    } else {
        lemma_fundamental_div_mod_converse((k + 1) * d, n, q, r + d);
    }
}

/// Along an axis on which both ends agree, every sample agrees with them.
proof fn lemma_interpolate_flat(at: int, k: int, n: int)
    ensures
        interpolate(at, at, k, n) == at,
{
    if n != 0 {
        assert(k * (at - at) == 0) by (nonlinear_arith);
        assert(0int / n == 0) by (nonlinear_arith)
            requires
                n != 0,
        ;
    }
}

/// A coordinate of a sample lies between the coordinates of the two ends.
proof fn lemma_interpolate_between(from: int, to: int, k: int, n: int)
    requires
        0 <= k <= n,
        distance(from, to) <= n,
    ensures
        between(from, to, interpolate(from, to, k, n)),
{
    if n > 0 {
        let d = to - from;
        let q = (k * d) / n;
        let r = (k * d) % n;
        vstd::arithmetic::div_mod::lemma_fundamental_div_mod(k * d, n);
        vstd::arithmetic::div_mod::lemma_mod_bound(k * d, n);
        assert(k * d == n * q + r);
        if d >= 0 {
            assert(0 <= q <= d) by (nonlinear_arith)
                requires
                    0 <= k <= n,
                    0 <= d <= n,
                    0 < n,
                    0 <= r < n,
                    k * d == n * q + r,
            ;
        } else {
            assert(d <= q <= 0) by (nonlinear_arith)
                requires
                    0 <= k <= n,
                    -n <= d < 0,
                    0 < n,
                    0 <= r < n,
                    k * d == n * q + r,
            ;
        }
    }
}

/// A quotient and remainder of `k * d` by `n` give those of `(k + 1) * d`
/// after one carry at most, since `d` is no larger than `n`.
proof fn lemma_next_remainder(k: int, d: int, n: int, q: int, r: int)
    requires
        0 <= n,
        -n <= d <= n,
        k * d == q * n + r,
    ensures
        (k + 1) * d == q * n + (r + d),
        (k + 1) * d == (q + 1) * n + (r + d - n),
        (k + 1) * d == (q - 1) * n + (r + d + n),
{
    assert((k + 1) * d == k * d + d) by (nonlinear_arith);
    assert((q + 1) * n == q * n + n) by (nonlinear_arith);
    assert((q - 1) * n == q * n - n) by (nonlinear_arith);
}

/// The cell of sample `k`, from a quotient and remainder for each axis.
proof fn lemma_sample_is(start: ScreenPoint, end: ScreenPoint, k: int, qx: int, rx: int, qy: int, ry: int)
    requires
        steps(start, end) > 0 ==> 0 <= rx < steps(start, end) && 0 <= ry < steps(start, end),
        steps(start, end) == 0 ==> qx == 0 && qy == 0,
        k * (end.x - start.x) == qx * steps(start, end) + rx,
        k * (end.y - start.y) == qy * steps(start, end) + ry,
    ensures
        sample(start, end, k) == (start.x + qx, start.y + qy),
{
    let n = steps(start, end);
    if n > 0 {
        lemma_fundamental_div_mod_converse(k * (end.x - start.x), n, qx, rx);
        lemma_fundamental_div_mod_converse(k * (end.y - start.y), n, qy, ry);
    }
}

} // verus!
