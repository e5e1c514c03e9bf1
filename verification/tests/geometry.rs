use gridwar::board::{add_usize_int, Color, Kind, Piece, Square, BOARD_SIZE};
use gridwar::occupancy::{
    can_piece_move_to, does_piece_block_square, is_piece_blocking_square_from,
    is_square_inhabitable_for,
};

fn gp(color: Color, kind: Kind, health: i8, rank: usize, file: usize) -> Piece {
    Piece { color, kind, health, pos: Square { rank, file }, delete: false }
}

fn sq(rank: usize, file: usize) -> Square {
    Square { rank, file }
}

#[test]
fn add_usize_int_clamps_underflow_to_sentinel() {
    assert_eq!(add_usize_int(0, -1), BOARD_SIZE);
    assert_eq!(add_usize_int(1, -2), BOARD_SIZE);
    assert_eq!(add_usize_int(0, 0), 0);
    assert_eq!(add_usize_int(3, 2), 5);
    assert_eq!(add_usize_int(9, -2), 7);
    assert_eq!(add_usize_int(9, 2), 11);
}

#[test]
fn big_piece_blocks_its_four_footprint_cells() {
    let big = gp(Color::Red, Kind::B, 4, 2, 3);
    assert!(does_piece_block_square(&big, sq(2, 3)));
    assert!(does_piece_block_square(&big, sq(3, 3)));
    assert!(does_piece_block_square(&big, sq(2, 4)));
    assert!(does_piece_block_square(&big, sq(3, 4)));
    assert!(!does_piece_block_square(&big, sq(4, 3)));
    assert!(!does_piece_block_square(&big, sq(2, 5)));
    assert!(!does_piece_block_square(&big, sq(1, 3)));
}

#[test]
fn number_piece_blocks_only_its_own_cell() {
    let n = gp(Color::Blue, Kind::Number, 3, 5, 5);
    assert!(does_piece_block_square(&n, sq(5, 5)));
    assert!(!does_piece_block_square(&n, sq(5, 6)));
    assert!(!does_piece_block_square(&n, sq(6, 5)));
}

#[test]
fn goal_piece_blocks_nothing() {
    let g = gp(Color::Red, Kind::Goal, 1, 0, 4);
    assert!(!does_piece_block_square(&g, sq(0, 4)));
    assert!(!does_piece_block_square(&g, sq(0, 5)));
}

#[test]
fn only_same_color_pieces_block() {
    let mover = gp(Color::Red, Kind::Number, 2, 4, 4);
    let enemy = gp(Color::Blue, Kind::Number, 2, 4, 5);
    let friend = gp(Color::Red, Kind::Number, 2, 4, 5);
    assert!(!is_piece_blocking_square_from(&enemy, &mover, sq(4, 5)));
    assert!(is_piece_blocking_square_from(&friend, &mover, sq(4, 5)));
}

#[test]
fn big_piece_never_blocks_its_own_footprint_for_itself() {
    let big = gp(Color::Red, Kind::B, 4, 2, 2);
    assert!(!is_piece_blocking_square_from(&big, &big, sq(2, 3)));
    let other_big = gp(Color::Red, Kind::B, 4, 2, 3);
    // A different big piece of the same color does block, even overlapping.
    assert!(is_piece_blocking_square_from(&other_big, &big, sq(2, 4)));
}

#[test]
fn out_of_range_squares_are_never_inhabitable() {
    // The board is empty, so only the range check can reject.
    let pieces: Vec<Piece> = Vec::new();
    let mover = gp(Color::Red, Kind::Number, 2, 0, 0);
    assert!(!is_square_inhabitable_for(&pieces, &mover, sq(BOARD_SIZE, 0)));
    assert!(!is_square_inhabitable_for(&pieces, &mover, sq(0, BOARD_SIZE)));
    assert!(!is_square_inhabitable_for(&pieces, &mover, sq(BOARD_SIZE, BOARD_SIZE)));
    assert!(!is_square_inhabitable_for(&pieces, &mover, sq(11, 3)));
    assert!(!is_square_inhabitable_for(&pieces, &mover, sq(3, usize::MAX)));
    assert!(is_square_inhabitable_for(&pieces, &mover, sq(9, 9)));
}

#[test]
fn occupied_square_is_uninhabitable_for_same_color() {
    let mover = gp(Color::Red, Kind::Number, 2, 4, 4);
    let friend = gp(Color::Red, Kind::Number, 1, 4, 5);
    let enemy = gp(Color::Blue, Kind::Number, 1, 5, 4);
    let pieces = vec![mover, friend, enemy];
    assert!(!is_square_inhabitable_for(&pieces, &mover, sq(4, 5)));
    // An opposing piece does not block: it would become a combat target.
    assert!(is_square_inhabitable_for(&pieces, &mover, sq(5, 4)));
}

#[test]
fn big_piece_needs_all_four_cells_free() {
    let big = gp(Color::Red, Kind::B, 4, 4, 4);
    let friend = gp(Color::Red, Kind::Number, 1, 6, 6);
    let pieces = vec![big, friend];
    // Destination (5, 5) has footprint (5,5),(6,5),(5,6),(6,6); the friend
    // occupies (6,6).
    assert!(!can_piece_move_to(&pieces, &big, sq(5, 5)));
    assert!(can_piece_move_to(&pieces, &big, sq(4, 5)));
    // A destination whose footprint would leave the board is rejected.
    assert!(!can_piece_move_to(&pieces, &big, sq(9, 4)));
    assert!(can_piece_move_to(&pieces, &big, sq(8, 4)));
}

#[test]
fn goal_piece_can_move_nowhere() {
    let goal = gp(Color::Red, Kind::Goal, 1, 0, 4);
    let pieces = vec![goal];
    assert!(!can_piece_move_to(&pieces, &goal, sq(0, 3)));
    assert!(!can_piece_move_to(&pieces, &goal, sq(1, 4)));
}
