use gridwar::board::{Action, Color, Kind, Move, Piece, Square};
use gridwar::game::{Game, GameError, SetupError, TurnState};
use gridwar::resolve::ActionOutcome;
use gridwar::win::did_player_win;

fn cp(color: Color, kind: Kind, health: i8, rank: usize, file: usize) -> Piece {
    Piece { color, kind, health, pos: Square { rank, file }, delete: false }
}

fn sq(rank: usize, file: usize) -> Square {
    Square { rank, file }
}

#[test]
fn covering_one_goal_square_does_not_win() {
    // Red must cover (9, 4) and (9, 5); one of them is not enough.
    let pieces = vec![cp(Color::Red, Kind::Number, 3, 9, 4)];
    assert!(!did_player_win(&pieces, Color::Red));
    let both = vec![cp(Color::Red, Kind::Number, 3, 9, 4), cp(Color::Red, Kind::Number, 3, 9, 5)];
    assert!(did_player_win(&both, Color::Red));
}

#[test]
fn a_big_piece_can_cover_both_goal_squares_alone() {
    let pieces = vec![cp(Color::Red, Kind::B, 4, 8, 4)];
    assert!(did_player_win(&pieces, Color::Red));
    assert!(!did_player_win(&pieces, Color::Blue));
}

#[test]
fn own_goal_markers_do_not_win_for_their_owner() {
    // Blue's own goal pieces stand on (9, 4) and (9, 5), which are the
    // squares Red must cover; goal pieces block nothing.
    let pieces = vec![cp(Color::Blue, Kind::Goal, 1, 9, 4), cp(Color::Blue, Kind::Goal, 1, 9, 5)];
    assert!(!did_player_win(&pieces, Color::Red));
    assert!(!did_player_win(&pieces, Color::Blue));
}

#[test]
fn blue_goal_squares_are_on_rank_zero() {
    let pieces = vec![cp(Color::Blue, Kind::Number, 3, 0, 4), cp(Color::Blue, Kind::Number, 3, 0, 5)];
    assert!(did_player_win(&pieces, Color::Blue));
    assert!(!did_player_win(&pieces, Color::Red));
}

#[test]
fn setup_rejects_a_neutral_first_player() {
    let g = Game::new(vec![cp(Color::Red, Kind::Number, 3, 0, 0)], Color::Green);
    assert_eq!(g.err(), Some(SetupError::NeutralFirstPlayer));
}

#[test]
fn setup_rejects_an_off_board_piece() {
    let g = Game::new(vec![cp(Color::Red, Kind::Number, 3, 10, 0)], Color::Red);
    assert_eq!(g.err(), Some(SetupError::InvalidPiece));
    // A big piece whose footprint sticks out is rejected too.
    let g2 = Game::new(vec![cp(Color::Red, Kind::B, 4, 9, 0)], Color::Red);
    assert_eq!(g2.err(), Some(SetupError::InvalidPiece));
}

#[test]
fn setup_rejects_unflagged_negative_health() {
    let g = Game::new(vec![cp(Color::Red, Kind::Number, -1, 0, 0)], Color::Red);
    assert_eq!(g.err(), Some(SetupError::InvalidPiece));
    let g2 = Game::new(vec![cp(Color::Red, Kind::Number, 64, 0, 0)], Color::Red);
    assert_eq!(g2.err(), Some(SetupError::InvalidPiece));
}

#[test]
fn setup_rejects_two_live_pieces_on_one_square() {
    let g = Game::new(
        vec![cp(Color::Red, Kind::Number, 3, 4, 4), cp(Color::Blue, Kind::Number, 3, 4, 4)],
        Color::Red,
    );
    assert_eq!(g.err(), Some(SetupError::OverlappingPieces));
}

#[test]
fn a_valid_setup_starts_with_the_given_turn() {
    let g = Game::new(vec![cp(Color::Red, Kind::Number, 3, 4, 4)], Color::Blue).unwrap();
    assert_eq!(g.current_state(), TurnState::Turn(Color::Blue));
    assert_eq!(g.pieces().len(), 1);
}

#[test]
fn begin_cycle_sweeps_and_detects_a_win() {
    let mut doomed = cp(Color::Blue, Kind::Number, 0, 7, 7);
    doomed.delete = true;
    let roster = vec![
        cp(Color::Red, Kind::Number, 3, 9, 4),
        cp(Color::Red, Kind::Number, 3, 9, 5),
        doomed,
    ];
    let mut g = Game::new(roster, Color::Blue).unwrap();
    g.begin_cycle();
    assert_eq!(g.pieces().len(), 2);
    assert_eq!(g.current_state(), TurnState::Won(Color::Red));
}

#[test]
fn simultaneous_win_goes_to_the_color_that_moved_last() {
    // Both colors cover the opposing goal squares at once. Blue holds the
    // turn, so Red made the action that produced the position: Red wins.
    let roster = vec![
        cp(Color::Red, Kind::Number, 3, 9, 4),
        cp(Color::Red, Kind::Number, 3, 9, 5),
        cp(Color::Blue, Kind::Number, 3, 0, 4),
        cp(Color::Blue, Kind::Number, 3, 0, 5),
    ];
    let mut g = Game::new(roster, Color::Blue).unwrap();
    g.begin_cycle();
    assert_eq!(g.current_state(), TurnState::Won(Color::Red));
}

#[test]
fn stalemated_color_loses_immediately() {
    // Red owns only a goal marker, which never has an action.
    let roster = vec![cp(Color::Red, Kind::Goal, 1, 0, 4), cp(Color::Blue, Kind::Number, 3, 5, 5)];
    let mut g = Game::new(roster, Color::Red).unwrap();
    g.begin_cycle();
    assert_eq!(g.current_state(), TurnState::Turn(Color::Red));
    let stalemated = g.check_stalemate();
    assert!(stalemated);
    assert_eq!(g.current_state(), TurnState::Won(Color::Blue));
}

#[test]
fn a_color_with_actions_is_not_stalemated() {
    let roster = vec![cp(Color::Red, Kind::Number, 3, 4, 4)];
    let mut g = Game::new(roster, Color::Red).unwrap();
    assert!(!g.check_stalemate());
    assert_eq!(g.current_state(), TurnState::Turn(Color::Red));
}

#[test]
fn conceding_hands_the_win_to_the_opponent() {
    let roster = vec![cp(Color::Red, Kind::Number, 3, 4, 4), cp(Color::Blue, Kind::Number, 3, 0, 0)];
    let mut g = Game::new(roster, Color::Red).unwrap();
    g.concede();
    assert_eq!(g.current_state(), TurnState::Won(Color::Blue));
    // Conceding a finished game changes nothing.
    g.concede();
    assert_eq!(g.current_state(), TurnState::Won(Color::Blue));
}

#[test]
fn take_action_rejects_an_action_not_in_the_legal_list() {
    let roster = vec![cp(Color::Red, Kind::Number, 2, 4, 4), cp(Color::Blue, Kind::Number, 2, 0, 0)];
    let mut g = Game::new(roster, Color::Red).unwrap();
    // A diagonal step is not in the health-2 template.
    let bad = Action::Move(Move { start: sq(4, 4), end: sq(5, 5) });
    assert_eq!(g.take_action(bad), Err(GameError::IllegalAction));
    assert_eq!(g.current_state(), TurnState::Turn(Color::Red));
    // Moving the opponent's piece is rejected as well.
    let not_yours = Action::Move(Move { start: sq(0, 0), end: sq(0, 1) });
    assert_eq!(g.take_action(not_yours), Err(GameError::IllegalAction));
}

#[test]
fn take_action_applies_a_legal_move_and_flips_the_turn() {
    let roster = vec![cp(Color::Red, Kind::Number, 2, 4, 4), cp(Color::Blue, Kind::Number, 2, 0, 0)];
    let mut g = Game::new(roster, Color::Red).unwrap();
    let step = Action::Move(Move { start: sq(4, 4), end: sq(4, 5) });
    let out = g.take_action(step);
    assert_eq!(out, Ok(ActionOutcome::Moved { damage: 0, deletions: 0 }));
    assert_eq!(g.current_state(), TurnState::Turn(Color::Blue));
    assert_eq!(g.pieces()[0].pos, sq(4, 5));
}

#[test]
fn take_action_rejects_everything_once_the_game_is_won() {
    let roster = vec![
        cp(Color::Red, Kind::Number, 3, 9, 4),
        cp(Color::Red, Kind::Number, 3, 9, 5),
        cp(Color::Blue, Kind::Number, 3, 0, 0),
    ];
    let mut g = Game::new(roster, Color::Blue).unwrap();
    g.begin_cycle();
    assert_eq!(g.current_state(), TurnState::Won(Color::Red));
    let step = Action::Move(Move { start: sq(0, 0), end: sq(0, 1) });
    assert_eq!(g.take_action(step), Err(GameError::GameOver));
}

#[test]
fn a_full_exchange_round_trip() {
    // Red captures into Blue; the dead mover is swept at the next boundary.
    let roster = vec![cp(Color::Red, Kind::Number, 3, 4, 4), cp(Color::Blue, Kind::Number, 5, 4, 5)];
    let mut g = Game::new(roster, Color::Red).unwrap();
    g.begin_cycle();
    let strike = Action::Move(Move { start: sq(4, 4), end: sq(4, 5) });
    let out = g.take_action(strike);
    assert_eq!(out, Ok(ActionOutcome::Moved { damage: 3, deletions: 1 }));
    assert_eq!(g.current_state(), TurnState::Turn(Color::Blue));
    assert_eq!(g.pieces().len(), 2);
    g.begin_cycle();
    // Only the wounded Blue defender survives the sweep.
    assert_eq!(g.pieces().len(), 1);
    assert_eq!(g.pieces()[0].color, Color::Blue);
    assert_eq!(g.pieces()[0].health, 2);
}

#[test]
fn explosion_through_the_controller() {
    let roster = vec![cp(Color::Red, Kind::B, 4, 4, 4), cp(Color::Blue, Kind::Number, 1, 3, 4)];
    let mut g = Game::new(roster, Color::Red).unwrap();
    g.begin_cycle();
    let boom = Action::Explosion(sq(4, 4));
    let out = g.take_action(boom);
    assert_eq!(out, Ok(ActionOutcome::Exploded { hits: 1, deletions: 2 }));
    g.begin_cycle();
    assert_eq!(g.pieces().len(), 0);
}
