use wirecube::frame::{render, render_frame, HEIGHT, WIDTH};
use wirecube::grid::Grid;
use wirecube::raster::{draw_line, ScreenPoint};

fn point(x: i32, y: i32) -> ScreenPoint {
    ScreenPoint { x, y }
}

/// The screen points of the eight vertices of the unturned cube, seen with
/// a field of view of 100 from a distance of 6 on a grid of 80 by 40.
fn unturned_cube() -> [ScreenPoint; 8] {
    [
        point(20, 40),
        point(60, 40),
        point(60, 0),
        point(20, 0),
        point(25, 34),
        point(54, 34),
        point(54, 5),
        point(25, 5),
    ]
}

#[test]
fn frame_has_the_fixed_size() {
    assert_eq!(WIDTH, 80);
    assert_eq!(HEIGHT, 40);
    let grid = render_frame(&unturned_cube());
    assert_eq!(grid.width(), 80);
    assert_eq!(grid.height(), 40);
    assert_eq!(grid.lines().len(), 40);
}

#[test]
fn frame_of_the_unturned_cube_has_a_fixed_number_of_marked_cells() {
    let grid = render_frame(&unturned_cube());
    assert_eq!(grid.marked_count(), 252);
}

#[test]
fn rendering_twice_gives_the_same_frame() {
    let first = render_frame(&unturned_cube());
    let second = render_frame(&unturned_cube());
    assert_eq!(first.marked_count(), second.marked_count());
    assert_eq!(first.lines(), second.lines());
}

#[test]
fn frame_of_the_unturned_cube_shows_both_faces() {
    let lines = render_frame(&unturned_cube()).lines();
    let blank = " ".repeat(20);
    // The top edge of the back face.
    assert_eq!(lines[0], format!("{}{}{}", blank, "#".repeat(41), " ".repeat(19)));
    // The top edge of the front face between the two sides of the back face.
    assert_eq!(
        lines[5],
        format!("{}#    {}     #{}", blank, "#".repeat(30), " ".repeat(19))
    );
    // The sides of both faces.
    assert_eq!(
        lines[20],
        format!("{}#    #{}#     #{}", blank, " ".repeat(28), " ".repeat(19))
    );
    // The bottom edge of the back face lies just below the grid.
    assert_eq!(
        lines[39],
        format!("{}#{}##{}", blank, " ".repeat(38), " ".repeat(19))
    );
}

#[test]
fn frame_is_the_twelve_edges_drawn_one_after_another() {
    let points = unturned_cube();
    let pairs = [
        (0, 1),
        (1, 2),
        (2, 3),
        (3, 0),
        (4, 5),
        (5, 6),
        (6, 7),
        (7, 4),
        (0, 4),
        (1, 5),
        (2, 6),
        (3, 7),
    ];
    let mut by_hand = Grid::new(80, 40);
    for (from, to) in pairs {
        draw_line(&mut by_hand, points[from], points[to]);
    }
    assert_eq!(render_frame(&points).lines(), by_hand.lines());
}

#[test]
fn frame_of_a_cube_off_the_screen_is_blank() {
    let points = [point(-500, -500); 8];
    assert_eq!(render_frame(&points).marked_count(), 0);
    let far = [
        point(1000, 1000),
        point(1100, 1000),
        point(1100, 1100),
        point(1000, 1100),
        point(1020, 1020),
        point(1080, 1020),
        point(1080, 1080),
        point(1020, 1080),
    ];
    assert_eq!(render_frame(&far).marked_count(), 0);
}

#[test]
fn frame_of_a_cube_shrunk_to_a_point_is_one_cell() {
    let points = [point(40, 20); 8];
    let grid = render_frame(&points);
    assert_eq!(grid.marked_count(), 1);
    assert!(grid.is_marked(40, 20));
}

#[test]
fn render_draws_on_a_grid_of_the_size_asked_for() {
    let points = [
        point(0, 3),
        point(3, 3),
        point(3, 0),
        point(0, 0),
        point(1, 2),
        point(2, 2),
        point(2, 1),
        point(1, 1),
    ];
    let grid = render(&points, 4, 4);
    assert_eq!(grid.lines(), vec!["####", "####", "####", "####"]);
    let small = render(&points, 3, 2);
    assert_eq!(small.lines(), vec!["###", "###"]);
}
