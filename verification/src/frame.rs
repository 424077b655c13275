//! Frame assembly: the twelve edges of the cube, drawn between the screen
//! points of its eight vertices on a fresh grid.

use vstd::prelude::*;
use crate::cube::{edge_table, edges};
use crate::grid::Grid;
use crate::raster::{draw_line, on_line, ScreenPoint};

verus! {

/// The number of columns of a frame.
pub const WIDTH: usize = 80;

/// The number of rows of a frame.
pub const HEIGHT: usize = 40;

/// Whether edge `e` of the cube, drawn between the screen points of its two
/// vertices, passes through column `x` of row `y`.
pub open spec fn on_edge(points: Seq<ScreenPoint>, e: int, x: int, y: int) -> bool {
    on_line(points[edge_table()[e].from as int], points[edge_table()[e].to as int], x, y)
}

/// Whether one of the first `count` edges passes through column `x` of row
/// `y`.
pub open spec fn on_edges_before(points: Seq<ScreenPoint>, count: int, x: int, y: int) -> bool {
    exists|e: int| 0 <= e < count && #[trigger] on_edge(points, e, x, y)
}

/// Whether an edge of the cube passes through column `x` of row `y`.
pub open spec fn on_wireframe(points: Seq<ScreenPoint>, x: int, y: int) -> bool {
    on_edges_before(points, 12, x, y)
}

/// Whether the grid shows the wireframe and nothing else: a cell is marked
/// exactly if it lies on the grid and an edge passes through it.
pub open spec fn shows_wireframe(grid: Grid, points: Seq<ScreenPoint>) -> bool {
    forall|x: int, y: int|
        grid.marked(x, y) <==> grid.contains(x, y) && on_wireframe(points, x, y)
}

/// Draws the wireframe on a fresh grid of the given size. `points` holds
/// the screen point of each vertex, in the order of the vertex table. A
/// cell of the result is marked exactly if an edge passes through it.
pub fn render(points: &[ScreenPoint; 8], width: usize, height: usize) -> (grid: Grid)
    requires
        width * height <= usize::MAX,
    ensures
        grid.wf(),
        grid.cols() == width,
        grid.rows() == height,
        shows_wireframe(grid, points@),
{
    let table = edges();
    let mut grid = Grid::new(width, height);
    let mut e: usize = 0;
    while e < 12
        invariant
            e <= 12,
            table@ == edge_table(),
            grid.wf(),
            grid.cols() == width,
            grid.rows() == height,
            forall|x: int, y: int|
                grid.marked(x, y) <==> grid.contains(x, y) && on_edges_before(
                    points@,
                    e as int,
                    x,
                    y,
                ),
        decreases 12 - e,
    {
        let edge = table[e];
        draw_line(&mut grid, points[edge.from], points[edge.to]);
        proof {
            assert forall|x: int, y: int|
                grid.marked(x, y) <==> grid.contains(x, y) && on_edges_before(
                    points@,
                    e + 1,
                    x,
                    y,
                ) by {
                if on_edges_before(points@, e + 1, x, y) {
                    let d = choose|d: int| 0 <= d < e + 1 && #[trigger] on_edge(points@, d, x, y);
                    if d < e {
                        assert(on_edges_before(points@, e as int, x, y));
                    }
                }
                if on_edges_before(points@, e as int, x, y) {
                    let d = choose|d: int| 0 <= d < e && #[trigger] on_edge(points@, d, x, y);
                    assert(0 <= d < e + 1 && on_edge(points@, d, x, y));
                }
                if on_line(points@[edge.from as int], points@[edge.to as int], x, y) {
                    assert(on_edge(points@, e as int, x, y));
                }
            }
        }
        e += 1;
    }
    grid
}

/// Draws the wireframe on a fresh grid of `WIDTH` by `HEIGHT` cells.
pub fn render_frame(points: &[ScreenPoint; 8]) -> (grid: Grid)
    ensures
        grid.wf(),
        grid.cols() == WIDTH,
        grid.rows() == HEIGHT,
        shows_wireframe(grid, points@),
{
    render(points, WIDTH, HEIGHT)
}

/// The frame is determined by the screen points: two grids of one size that
/// show the wireframe of the same points have the same marked cells, the
/// same number of them, and the same text in every row.
pub proof fn law_frame_is_determined(first: Grid, second: Grid, points: Seq<ScreenPoint>, y: int)
    requires
        first.cols() == second.cols(),
        first.rows() == second.rows(),
        shows_wireframe(first, points),
        shows_wireframe(second, points),
    ensures
        first.marked_cells() == second.marked_cells(),
        first.marked_cells().len() == second.marked_cells().len(),
        first.row_chars(y) == second.row_chars(y),
{
    assert(first.marked_cells() =~= second.marked_cells());
    assert(first.row_chars(y) =~= second.row_chars(y));
}

} // verus!
