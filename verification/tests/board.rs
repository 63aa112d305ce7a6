use constrictor::{Board, Vector2};

#[test]
fn dimensions() {
    let board = Board::new((-10, 10), (-5, 5));
    assert_eq!(board.width(), 20);
    assert_eq!(board.height(), 10);
    assert_eq!(board.x_range(), -10..10);
    assert_eq!(board.y_range(), -5..5);
}

#[test]
fn containment_is_half_open() {
    let board = Board::new((-10, 10), (-5, 5));
    assert!(board.contains(&Vector2 { x: 9, y: 4 }));
    assert!(!board.contains(&Vector2 { x: 10, y: 5 }));
    assert!(board.contains(&Vector2 { x: -10, y: -5 }));
    assert!(!board.contains(&Vector2 { x: -11, y: 0 }));
}

#[test]
fn cell_iter_is_row_major() {
    let board = Board::new((0, 2), (0, 2));
    let cells = board.cell_iter();
    assert_eq!(
        cells,
        vec![
            Vector2 { x: 0, y: 0 },
            Vector2 { x: 1, y: 0 },
            Vector2 { x: 0, y: 1 },
            Vector2 { x: 1, y: 1 },
        ]
    );
}

#[test]
fn free_cell_at_skips_taken_cells() {
    let board = Board::new((0, 2), (0, 1));
    let first_taken = |cell: &Vector2| cell.x == 0;
    assert_eq!(board.free_cell_at(0, first_taken), Some(Vector2 { x: 1, y: 0 }));
    assert_eq!(board.free_cell_at(1, first_taken), None);
    let none_taken = |_cell: &Vector2| false;
    assert_eq!(board.free_cell_at(0, none_taken), Some(Vector2 { x: 0, y: 0 }));
    assert_eq!(board.free_cell_at(1, none_taken), Some(Vector2 { x: 1, y: 0 }));
}

#[test]
fn random_free_cell_finds_the_single_free_cell() {
    let board = Board::new((0, 2), (0, 1));
    let picked = board.random_free_cell(1, |cell: &Vector2| cell.x == 0);
    assert_eq!(picked, Some(Vector2 { x: 1, y: 0 }));
}

#[test]
fn random_free_cell_on_single_cell_board() {
    let board = Board::new((0, 1), (0, 1));
    let picked = board.random_free_cell(0, |_cell: &Vector2| false);
    assert_eq!(picked, Some(Vector2 { x: 0, y: 0 }));
}

#[test]
fn random_free_cell_with_everything_taken_is_none() {
    let board = Board::new((0, 2), (0, 1));
    assert_eq!(board.random_free_cell(2, |_cell: &Vector2| true), None);
}

#[test]
fn random_free_cell_undercount_may_exhaust() {
    // The count contract is violated: everything is taken but the count
    // claims nothing is. The scan runs out of cells and reports `None`
    // rather than handing out a taken cell.
    let board = Board::new((0, 2), (0, 1));
    assert_eq!(board.random_free_cell(0, |_cell: &Vector2| true), None);
}
