//! The win checker: a color wins by covering both of the opponent's goal
//! squares with its own pieces.

use vstd::prelude::*;

use crate::board::{Color, Piece, Square};
use crate::occupancy::piece_blocks_square;

verus! {

/// The two goal squares a player must cover to win: the squares of the
/// *opponent's* goal markers, on the opponent's home row at files 4 and 5.
pub open spec fn opponent_goal_squares(player: Color) -> (Square, Square) {
    match player {
        Color::Blue => (Square { rank: 0, file: 4 }, Square { rank: 0, file: 5 }),
        _ => (Square { rank: 9, file: 4 }, Square { rank: 9, file: 5 }),
    }
}

/// The piece belongs to `player` and its footprint covers `sq`.
pub open spec fn piece_covers(p: Piece, player: Color, sq: Square) -> bool {
    p.color == player && piece_blocks_square(p, sq)
}

/// Some piece of `player` covers `sq`.
pub open spec fn covers_square(pieces: Seq<Piece>, player: Color, sq: Square) -> bool {
    exists|i: int| 0 <= i < pieces.len() && piece_covers(#[trigger] pieces[i], player, sq)
}

/// `player` covers both of the opponent's goal squares.
pub open spec fn player_won(pieces: Seq<Piece>, player: Color) -> bool {
    covers_square(pieces, player, opponent_goal_squares(player).0) && covers_square(
        pieces,
        player,
        opponent_goal_squares(player).1,
    )
}

/// Covering only one of the opponent's two goal squares never wins:
/// `player_won` demands both.
pub proof fn lemma_single_goal_no_win(pieces: Seq<Piece>, player: Color)
    requires
        !covers_square(pieces, player, opponent_goal_squares(player).0) || !covers_square(
            pieces,
            player,
            opponent_goal_squares(player).1,
        ),
    ensures
        !player_won(pieces, player),
{
}

/// Whether `player` has won: both of the opponent's goal squares are
/// covered by pieces of `player`, by the same footprint rule the occupancy
/// resolver uses (but regardless of the covering piece's color matching the
/// square's owner).
pub fn did_player_win(pieces: &Vec<Piece>, player: Color) -> (w: bool)
    ensures
        w == player_won(pieces@, player),
{
    let (goal1, goal2): (Square, Square) = match player {
        Color::Blue => (Square { rank: 0, file: 4 }, Square { rank: 0, file: 5 }),
        _ => (Square { rank: 9, file: 4 }, Square { rank: 9, file: 5 }),
    };
    let mut goal1_reached: bool = false;
    let mut goal2_reached: bool = false;
    let n: usize = pieces.len();
    let mut i: usize = 0;
    while i < n
        invariant
            n == pieces.len(),
            i <= n,
            goal1 == opponent_goal_squares(player).0,
            goal2 == opponent_goal_squares(player).1,
            goal1_reached <==> exists|k: int|
                0 <= k < i && piece_covers(#[trigger] pieces@[k], player, goal1),
            goal2_reached <==> exists|k: int|
                0 <= k < i && piece_covers(#[trigger] pieces@[k], player, goal2),
        decreases n - i,
    {
        let piece: &Piece = &pieces[i];
        if piece.color == player {
            // Only the player's own pieces count toward its win.
            if crate::occupancy::does_piece_block_square(piece, goal1) {
                goal1_reached = true;
            }
            if crate::occupancy::does_piece_block_square(piece, goal2) {
                goal2_reached = true;
            }
        }
        i = i + 1;
    }
    goal1_reached && goal2_reached
}

} // verus!
