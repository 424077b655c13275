use wirecube::grid::Grid;
use wirecube::raster::{draw_line, ScreenPoint};

fn point(x: i32, y: i32) -> ScreenPoint {
    ScreenPoint { x, y }
}

fn marked_cells(grid: &Grid) -> Vec<(usize, usize)> {
    let mut cells = Vec::new();
    for y in 0..grid.height() {
        for x in 0..grid.width() {
            if grid.is_marked(x, y) {
                cells.push((x, y));
            }
        }
    }
    cells
}

fn drawn(start: (i32, i32), end: (i32, i32)) -> Vec<(usize, usize)> {
    let mut grid = Grid::new(80, 40);
    draw_line(&mut grid, point(start.0, start.1), point(end.0, end.1));
    marked_cells(&grid)
}

#[test]
fn horizontal_line_marks_the_cells_between_its_ends() {
    let cells = drawn((0, 0), (4, 0));
    assert_eq!(cells, vec![(0, 0), (1, 0), (2, 0), (3, 0), (4, 0)]);
}

#[test]
fn horizontal_line_leaves_all_other_cells_blank() {
    let mut grid = Grid::new(80, 40);
    draw_line(&mut grid, point(0, 0), point(4, 0));
    assert_eq!(grid.marked_count(), 5);
    for y in 0..40 {
        for x in 0..80 {
            assert_eq!(grid.is_marked(x, y), y == 0 && x <= 4);
        }
    }
}

#[test]
fn line_between_identical_points_marks_one_cell() {
    let cells = drawn((7, 3), (7, 3));
    assert_eq!(cells, vec![(7, 3)]);
}

#[test]
fn point_line_off_the_grid_marks_nothing() {
    assert_eq!(drawn((80, 3), (80, 3)), vec![]);
    assert_eq!(drawn((3, 40), (3, 40)), vec![]);
    assert_eq!(drawn((-1, 0), (-1, 0)), vec![]);
    assert_eq!(drawn((0, -1), (0, -1)), vec![]);
}

#[test]
fn line_entering_from_the_left_marks_only_the_part_on_the_grid() {
    let cells = drawn((-3, 2), (3, 2));
    assert_eq!(cells, vec![(0, 2), (1, 2), (2, 2), (3, 2)]);
}

#[test]
fn line_leaving_through_the_corner_marks_only_the_part_on_the_grid() {
    let cells = drawn((78, 38), (83, 41));
    assert_eq!(cells, vec![(78, 38), (79, 38)]);
}

#[test]
fn line_entirely_off_the_grid_marks_nothing() {
    assert_eq!(drawn((-10, -10), (-1, -5)), vec![]);
    assert_eq!(drawn((100, 50), (200, 60)), vec![]);
}

#[test]
fn vertical_line_marks_its_column() {
    let cells = drawn((5, 36), (5, 43));
    assert_eq!(cells, vec![(5, 36), (5, 37), (5, 38), (5, 39)]);
}

#[test]
fn diagonal_line_marks_one_cell_in_each_row_and_column() {
    let cells = drawn((0, 0), (3, 3));
    assert_eq!(cells, vec![(0, 0), (1, 1), (2, 2), (3, 3)]);
}

#[test]
fn shallow_line_steps_down_at_exact_multiples() {
    let cells = drawn((0, 0), (4, 2));
    assert_eq!(cells, vec![(0, 0), (1, 0), (2, 1), (3, 1), (4, 2)]);
}

#[test]
fn shallow_line_drawn_backwards_marks_the_same_cells() {
    let cells = drawn((4, 2), (0, 0));
    assert_eq!(cells, vec![(0, 0), (1, 0), (2, 1), (3, 1), (4, 2)]);
}

#[test]
fn steep_line_marks_one_cell_in_each_row() {
    let cells = drawn((2, 3), (5, 10));
    assert_eq!(
        cells,
        vec![(2, 3), (2, 4), (2, 5), (3, 6), (3, 7), (4, 8), (4, 9), (5, 10)]
    );
}

#[test]
fn last_sample_is_the_end_point() {
    // One row lower only at the very last of eleven samples.
    let cells = drawn((0, 0), (10, 1));
    assert_eq!(
        cells,
        vec![
            (0, 0),
            (1, 0),
            (2, 0),
            (3, 0),
            (4, 0),
            (5, 0),
            (6, 0),
            (7, 0),
            (8, 0),
            (9, 0),
            (10, 1)
        ]
    );
}

#[test]
fn sample_just_above_the_grid_is_dropped() {
    // From (0, -1) to (4, 1) the samples lie at heights -1, -1/2, 0, 1/2, 1.
    let cells = drawn((0, -1), (4, 1));
    assert_eq!(cells, vec![(2, 0), (3, 0), (4, 1)]);
}

#[test]
fn drawing_keeps_what_was_marked_before() {
    let mut grid = Grid::new(80, 40);
    draw_line(&mut grid, point(0, 0), point(4, 0));
    draw_line(&mut grid, point(2, 0), point(2, 3));
    assert_eq!(
        marked_cells(&grid),
        vec![(0, 0), (1, 0), (2, 0), (3, 0), (4, 0), (2, 1), (2, 2), (2, 3)]
    );
    assert_eq!(grid.width(), 80);
    assert_eq!(grid.height(), 40);
}

#[test]
fn drawing_the_same_line_twice_changes_nothing() {
    let mut grid = Grid::new(80, 40);
    draw_line(&mut grid, point(3, 3), point(20, 11));
    let once = marked_cells(&grid);
    draw_line(&mut grid, point(3, 3), point(20, 11));
    assert_eq!(marked_cells(&grid), once);
    assert_eq!(once.len(), 18);
}

#[test]
fn line_across_a_small_grid_from_far_away() {
    let mut grid = Grid::new(4, 3);
    draw_line(&mut grid, point(-1000, 1), point(1000, 1));
    assert_eq!(marked_cells(&grid), vec![(0, 1), (1, 1), (2, 1), (3, 1)]);
}

#[test]
fn line_on_the_grid_marks_one_cell_more_than_it_has_steps() {
    assert_eq!(drawn((3, 3), (20, 11)).len(), 18);
    assert_eq!(drawn((20, 11), (3, 3)).len(), 18);
    assert_eq!(drawn((79, 0), (0, 39)).len(), 80);
    assert_eq!(drawn((10, 39), (12, 0)).len(), 40);
}

#[test]
fn consecutive_cells_of_a_line_touch() {
    let cells = drawn((1, 2), (30, 17));
    assert_eq!(cells.len(), 30);
    for pair in cells.windows(2) {
        assert_eq!(pair[1].0, pair[0].0 + 1);
        assert!(pair[1].1 == pair[0].1 || pair[1].1 == pair[0].1 + 1);
    }
}
