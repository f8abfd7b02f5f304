use two_four_eighteen::layout::{find_best_grid, grid_cells, Cell};

#[test]
fn best_grid_for_five_dice_on_a_wide_display() {
    assert_eq!(find_best_grid(5, 128, 64), (3, 2, 32));
}

#[test]
fn best_grid_for_one_die() {
    assert_eq!(find_best_grid(1, 128, 64), (1, 1, 64));
}

#[test]
fn best_grid_on_a_square_display() {
    assert_eq!(find_best_grid(4, 255, 255), (2, 2, 127));
    assert_eq!(find_best_grid(3, 255, 255), (2, 2, 127));
}

#[test]
fn best_grid_without_entries_or_room() {
    assert_eq!(find_best_grid(0, 128, 64), (1, 0, 0));
    assert_eq!(find_best_grid(3, 1, 1), (1, 3, 0));
    assert_eq!(find_best_grid(3, 2, 2), (2, 2, 1));
}

#[test]
fn cells_fill_the_grid_column_by_column() {
    let cells = grid_cells(5, 128, 64);
    let expected = [(16, 0), (16, 32), (48, 0), (48, 32), (80, 0)];
    assert_eq!(cells.len(), 5);
    for (cell, (x, y)) in cells.iter().zip(expected) {
        assert!(*cell == Cell { x, y, side: 32 });
    }
}

#[test]
fn cells_are_centred() {
    let cells = grid_cells(1, 128, 64);
    assert_eq!(cells.len(), 1);
    assert!(cells[0] == Cell { x: 32, y: 0, side: 64 });
    assert!(grid_cells(0, 128, 64).is_empty());
}
