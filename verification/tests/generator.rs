use gridwar::board::{Action, Color, Kind, Move, Offset, Piece, Square};
use gridwar::moves::{find_possible_moves, get_move_directions, list_possible_moves};

fn mk(color: Color, kind: Kind, health: i8, rank: usize, file: usize) -> Piece {
    Piece { color, kind, health, pos: Square { rank, file }, delete: false }
}

fn actions_of(pieces: &Vec<Piece>, piece: &Piece) -> Vec<Action> {
    let dirs = get_move_directions(piece);
    list_possible_moves(pieces, piece, dirs)
}

fn explosion_count(actions: &Vec<Action>) -> usize {
    actions.iter().filter(|a| matches!(a, Action::Explosion(_))).count()
}

#[test]
fn template_sizes_by_health() {
    let reds = |h: i8| mk(Color::Red, Kind::Number, h, 4, 4);
    assert_eq!(get_move_directions(&reds(5)).len(), 24);
    assert_eq!(get_move_directions(&reds(4)).len(), 12);
    assert_eq!(get_move_directions(&reds(3)).len(), 8);
    assert_eq!(get_move_directions(&reds(2)).len(), 4);
    assert_eq!(get_move_directions(&reds(1)).len(), 3);
    assert_eq!(get_move_directions(&reds(0)).len(), 0);
    assert_eq!(get_move_directions(&reds(-1)).len(), 0);
    assert_eq!(get_move_directions(&mk(Color::Red, Kind::B, 4, 4, 4)).len(), 4);
    assert_eq!(get_move_directions(&mk(Color::Red, Kind::Goal, 1, 0, 4)).len(), 0);
}

#[test]
fn health_one_template_is_color_asymmetric() {
    let red = mk(Color::Red, Kind::Number, 1, 4, 4);
    let blue = mk(Color::Blue, Kind::Number, 1, 4, 4);
    let green = mk(Color::Green, Kind::Number, 1, 4, 4);
    assert_eq!(
        get_move_directions(&red),
        vec![Offset { dr: 0, df: 1 }, Offset { dr: 0, df: -1 }, Offset { dr: 1, df: 0 }]
    );
    assert_eq!(
        get_move_directions(&blue),
        vec![Offset { dr: 0, df: 1 }, Offset { dr: -1, df: 0 }, Offset { dr: 0, df: -1 }]
    );
    assert_eq!(get_move_directions(&green).len(), 0);
}

#[test]
fn goal_piece_has_no_legal_actions() {
    let goal = mk(Color::Red, Kind::Goal, 1, 0, 4);
    let other = mk(Color::Red, Kind::Number, 3, 5, 5);
    let pieces = vec![goal, other];
    assert_eq!(actions_of(&pieces, &goal).len(), 0);
}

#[test]
fn big_piece_lists_exactly_one_explosion_when_free() {
    let big = mk(Color::Red, Kind::B, 4, 4, 4);
    let pieces = vec![big];
    let acts = actions_of(&pieces, &big);
    assert_eq!(explosion_count(&acts), 1);
    assert_eq!(acts.len(), 5);
    assert_eq!(*acts.last().unwrap(), Action::Explosion(Square { rank: 4, file: 4 }));
}

#[test]
fn big_piece_lists_exactly_one_explosion_when_fully_blocked() {
    let big = mk(Color::Red, Kind::B, 4, 4, 4);
    // Same-color pieces on every square around the footprint block all
    // four orthogonal steps; the self-destruct stays.
    let mut pieces = vec![big];
    for rank in 3..=6 {
        for file in 3..=6 {
            if (4..=5).contains(&rank) && (4..=5).contains(&file) {
                continue;
            }
            pieces.push(mk(Color::Red, Kind::Number, 1, rank, file));
        }
    }
    let acts = actions_of(&pieces, &big);
    assert_eq!(explosion_count(&acts), 1);
    assert_eq!(acts.len(), 1);
    assert_eq!(acts[0], Action::Explosion(Square { rank: 4, file: 4 }));
}

#[test]
fn unobstructed_health_one_piece_has_three_moves() {
    let pawn = mk(Color::Red, Kind::Number, 1, 4, 4);
    let pieces = vec![pawn];
    let acts = actions_of(&pieces, &pawn);
    assert_eq!(acts.len(), 3);
    let expected_ends =
        [Square { rank: 4, file: 5 }, Square { rank: 4, file: 3 }, Square { rank: 5, file: 4 }];
    for (act, end) in acts.iter().zip(expected_ends.iter()) {
        assert_eq!(*act, Action::Move(Move { start: Square { rank: 4, file: 4 }, end: *end }));
    }
}

#[test]
fn moves_off_the_board_are_filtered_out() {
    // In the corner, the health-1 red template loses its backward file step.
    let pawn = mk(Color::Red, Kind::Number, 1, 0, 0);
    let pieces = vec![pawn];
    let acts = actions_of(&pieces, &pawn);
    assert_eq!(acts.len(), 2);
    assert_eq!(
        acts[0],
        Action::Move(Move { start: Square { rank: 0, file: 0 }, end: Square { rank: 0, file: 1 } })
    );
    assert_eq!(
        acts[1],
        Action::Move(Move { start: Square { rank: 0, file: 0 }, end: Square { rank: 1, file: 0 } })
    );
}

#[test]
fn find_possible_moves_lists_only_the_given_color() {
    let red1 = mk(Color::Red, Kind::Number, 2, 0, 0);
    let blue1 = mk(Color::Blue, Kind::Number, 2, 9, 9);
    let green = mk(Color::Green, Kind::Number, 0, 4, 4);
    let pieces = vec![red1, blue1, green];
    let red_lists = find_possible_moves(&pieces, Color::Red);
    assert_eq!(red_lists.len(), 1);
    assert_eq!(red_lists[0].len(), 2);
    let blue_lists = find_possible_moves(&pieces, Color::Blue);
    assert_eq!(blue_lists.len(), 1);
    assert_eq!(blue_lists[0].len(), 2);
}

#[test]
fn legal_actions_are_identical_across_repeated_calls() {
    let pieces = vec![
        mk(Color::Red, Kind::Number, 3, 1, 1),
        mk(Color::Red, Kind::B, 4, 4, 4),
        mk(Color::Blue, Kind::Number, 5, 7, 7),
        mk(Color::Blue, Kind::Goal, 1, 9, 4),
    ];
    let first_red = find_possible_moves(&pieces, Color::Red);
    let second_red = find_possible_moves(&pieces, Color::Red);
    assert_eq!(first_red, second_red);
    let first_blue = find_possible_moves(&pieces, Color::Blue);
    let second_blue = find_possible_moves(&pieces, Color::Blue);
    assert_eq!(first_blue, second_blue);
}
