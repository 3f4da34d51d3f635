use airjump::grid::CellRange;

fn block(min_x: i32, max_x: i32, min_y: i32, max_y: i32) -> CellRange {
    CellRange { min_x, max_x, min_y, max_y }
}

/// The block of cells that the bounding box of a circle reaches on a grid of
/// the given cell size, the box widened by a hair on every side.
fn block_of_circle(x: f64, y: f64, radius: f64, unit: f64) -> CellRange {
    block(
        ((x - radius - f64::EPSILON) / unit).floor() as i32,
        ((x + radius + f64::EPSILON) / unit).floor() as i32,
        ((y - radius - f64::EPSILON) / unit).floor() as i32,
        ((y + radius + f64::EPSILON) / unit).floor() as i32,
    )
}

#[test]
fn cells_walk_column_by_column() {
    assert_eq!(block(0, 1, 0, 1).cells(), vec![[0, 0], [0, 1], [1, 0], [1, 1]]);
    assert_eq!(
        block(-1, 1, 2, 3).cells(),
        vec![[-1, 2], [-1, 3], [0, 2], [0, 3], [1, 2], [1, 3]]
    );
}

#[test]
fn single_cell_block() {
    assert_eq!(block(7, 7, -3, -3).cells(), vec![[7, -3]]);
    assert!(!block(7, 7, -3, -3).is_empty());
}

#[test]
fn block_with_crossed_bounds_holds_nothing() {
    assert!(block(1, 0, 0, 5).cells().is_empty());
    assert!(block(0, 5, 1, 0).cells().is_empty());
    assert!(block(3, 2, 3, 2).cells().is_empty());
    assert!(block(1, 0, 0, 5).is_empty());
    assert!(block(0, 5, 1, 0).is_empty());
    assert!(!block(0, 5, 0, 1).is_empty());
}

#[test]
fn cells_at_the_ends_of_the_grid() {
    assert_eq!(
        block(i32::MAX, i32::MAX, i32::MIN, i32::MIN).cells(),
        vec![[i32::MAX, i32::MIN]]
    );
    assert_eq!(
        block(i32::MAX - 1, i32::MAX, i32::MIN, i32::MIN + 1).cells(),
        vec![
            [i32::MAX - 1, i32::MIN],
            [i32::MAX - 1, i32::MIN + 1],
            [i32::MAX, i32::MIN],
            [i32::MAX, i32::MIN + 1]
        ]
    );
}

#[test]
fn cells_are_exactly_those_inside_the_bounds() {
    let range = block(-2, 3, 1, 4);
    let cells = range.cells();
    assert_eq!(cells.len(), 6 * 4);
    for x in -5..8 {
        for y in -5..8 {
            let listed = cells.iter().filter(|c| **c == [x, y]).count();
            let inside = -2 <= x && x <= 3 && 1 <= y && y <= 4;
            assert_eq!(listed, if inside { 1 } else { 0 });
            assert_eq!(range.holds(x, y), inside);
        }
    }
}

#[test]
fn blocks_that_touch_share_a_cell() {
    assert!(block(0, 2, 0, 2).intersects(&block(2, 4, 2, 4)));
    assert!(block(2, 4, 2, 4).intersects(&block(0, 2, 0, 2)));
    assert!(block(0, 9, 0, 9).intersects(&block(3, 4, 3, 4)));
}

#[test]
fn blocks_apart_on_one_axis_share_nothing() {
    assert!(!block(0, 2, 0, 2).intersects(&block(3, 4, 0, 2)));
    assert!(!block(0, 2, 0, 2).intersects(&block(0, 2, 3, 4)));
    assert!(!block(0, 2, 0, 2).intersects(&block(-4, -1, 0, 2)));
}

#[test]
fn empty_block_intersects_nothing() {
    assert!(!block(1, 0, 0, 2).intersects(&block(0, 2, 0, 2)));
    assert!(!block(0, 2, 0, 2).intersects(&block(0, 2, 5, 1)));
    assert!(!block(1, 0, 0, 2).intersects(&block(1, 0, 0, 2)));
}

#[test]
fn intersects_agrees_with_a_search_for_a_shared_cell() {
    let blocks = [
        block(0, 1, 0, 1),
        block(1, 3, -1, 0),
        block(2, 2, 2, 2),
        block(-3, -1, -3, 4),
        block(4, 3, 0, 0),
        block(0, 0, 1, 3),
    ];
    for a in blocks.iter() {
        for b in blocks.iter() {
            let shared = a.cells().iter().any(|c| b.holds(c[0], c[1]));
            assert_eq!(a.intersects(b), shared);
        }
    }
}

#[test]
fn circle_inside_one_cell_occupies_that_cell() {
    let range = block_of_circle(0.45, 0.45, 0.4, 1.0);
    assert_eq!(range, block(0, 0, 0, 0));
    assert_eq!(range.cells(), vec![[0, 0]]);
}

#[test]
fn circle_over_a_grid_corner_occupies_four_cells() {
    let range = block_of_circle(1.0, 1.0, 0.4, 1.0);
    assert_eq!(range.cells(), vec![[0, 0], [0, 1], [1, 0], [1, 1]]);
}

#[test]
fn circle_that_ends_on_grid_lines_reaches_the_cells_beyond() {
    let range = block_of_circle(0.5, 0.5, 0.5, 1.0);
    assert_eq!(range, block(-1, 1, -1, 1));
    assert_eq!(range.cells().len(), 9);
}
