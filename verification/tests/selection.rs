use gridwar::board::{Action, Color, Kind, Move, Piece, Square};
use gridwar::moves::{find_possible_moves, get_move_directions, list_possible_moves};
use gridwar::selector::{ai_player_get_move, all_legal_actions, select_action};

fn sp(color: Color, kind: Kind, health: i8, rank: usize, file: usize) -> Piece {
    Piece { color, kind, health, pos: Square { rank, file }, delete: false }
}

fn sq(rank: usize, file: usize) -> Square {
    Square { rank, file }
}

#[test]
fn all_legal_actions_concatenates_per_piece_lists() {
    let pieces = vec![
        sp(Color::Red, Kind::Number, 2, 4, 4),
        sp(Color::Blue, Kind::Number, 2, 0, 0),
        sp(Color::Red, Kind::Number, 1, 7, 7),
    ];
    let all = all_legal_actions(&pieces, Color::Red);
    let mut expected = Vec::new();
    for p in [&pieces[0], &pieces[2]] {
        expected.extend(list_possible_moves(&pieces, p, get_move_directions(p)));
    }
    assert_eq!(all, expected);
    assert_eq!(all.len(), 7);
}

#[test]
fn selector_returns_nothing_without_legal_actions() {
    // Red owns only goal markers and a drained piece: no actions at all.
    let pieces = vec![
        sp(Color::Red, Kind::Goal, 1, 0, 4),
        sp(Color::Red, Kind::Goal, 1, 0, 5),
        sp(Color::Red, Kind::Number, 0, 4, 4),
        sp(Color::Blue, Kind::Number, 3, 9, 9),
    ];
    assert_eq!(ai_player_get_move(&pieces, Color::Red), None);
    assert_eq!(select_action(&pieces, Color::Red, 0), None);
    assert!(find_possible_moves(&pieces, Color::Red).concat().is_empty());
}

#[test]
fn random_choice_comes_from_the_legal_list() {
    let pieces = vec![sp(Color::Red, Kind::Number, 1, 0, 0)];
    let all = all_legal_actions(&pieces, Color::Red);
    assert_eq!(all.len(), 2);
    for _ in 0..50 {
        let chosen = ai_player_get_move(&pieces, Color::Red).unwrap();
        assert!(all.contains(&chosen));
    }
}

#[test]
fn single_legal_action_is_always_drawn() {
    // A blue health-1 piece at (0, 9): its template steps (0, 1) and
    // (-1, 0) leave the board, so (0, -1) to (0, 8) is its only action.
    let cornered = vec![
        sp(Color::Blue, Kind::Number, 1, 0, 9),
        sp(Color::Red, Kind::Number, 3, 4, 4),
    ];
    let blue_all = all_legal_actions(&cornered, Color::Blue);
    assert_eq!(blue_all.len(), 1);
    let expect = Action::Move(Move { start: sq(0, 9), end: sq(0, 8) });
    assert_eq!(blue_all[0], expect);
    for _ in 0..20 {
        assert_eq!(ai_player_get_move(&cornered, Color::Blue), Some(expect));
    }
}

#[test]
fn injected_pick_is_deterministic_and_wraps() {
    let pieces = vec![sp(Color::Red, Kind::Number, 2, 4, 4)];
    let all = all_legal_actions(&pieces, Color::Red);
    assert_eq!(all.len(), 4);
    assert_eq!(select_action(&pieces, Color::Red, 0), Some(all[0]));
    assert_eq!(select_action(&pieces, Color::Red, 3), Some(all[3]));
    assert_eq!(select_action(&pieces, Color::Red, 4), Some(all[0]));
    assert_eq!(select_action(&pieces, Color::Red, 9), Some(all[1]));
}
