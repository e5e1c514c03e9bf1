//! The occupancy resolver: whether a square, or a big piece's whole
//! footprint, may be occupied by a given mover.

use vstd::prelude::*;

use crate::board::{square_in_bounds, Kind, Piece, Square, BOARD_SIZE};

verus! {

/// `sq` lies in the 2x2 footprint anchored at `anchor`.
pub open spec fn in_footprint(anchor: Square, sq: Square) -> bool {
    (sq.rank == anchor.rank || sq.rank == anchor.rank + 1) && (sq.file == anchor.file || sq.file
        == anchor.file + 1)
}

/// The cells the piece occupies include `sq`. A `Goal` piece occupies no
/// cell for blocking purposes.
pub open spec fn piece_blocks_square(p: Piece, sq: Square) -> bool {
    match p.kind {
        Kind::B => in_footprint(p.pos, sq),
        Kind::Number => p.pos == sq,
        Kind::Goal => false,
    }
}

/// `blocker` denies `sq` to `mover`: only pieces of the mover's own color
/// block, and a big piece never blocks a square for a mover standing on its
/// own anchor (so it may relocate across its current footprint).
pub open spec fn piece_blocks_square_from(blocker: Piece, mover: Piece, sq: Square) -> bool {
    blocker.color == mover.color && match blocker.kind {
        Kind::B => blocker.pos != mover.pos && in_footprint(blocker.pos, sq),
        Kind::Number => blocker.pos == sq,
        Kind::Goal => false,
    }
}

/// `sq` is on the board and no piece in `pieces` denies it to `mover`.
pub open spec fn square_inhabitable(pieces: Seq<Piece>, mover: Piece, sq: Square) -> bool {
    square_in_bounds(sq) && forall|i: int|
        0 <= i < pieces.len() ==> !piece_blocks_square_from(#[trigger] pieces[i], mover, sq)
}

/// The mover may occupy the destination anchor `sq`: for a big piece all
/// four footprint cells must be inhabitable, for a numbered piece the one
/// cell, and a goal piece may never move.
pub open spec fn can_move_to(pieces: Seq<Piece>, mover: Piece, sq: Square) -> bool {
    match mover.kind {
        Kind::B => square_inhabitable(pieces, mover, sq) && square_inhabitable(
            pieces,
            mover,
            Square { rank: (sq.rank + 1) as usize, file: sq.file },
        ) && square_inhabitable(
            pieces,
            mover,
            Square { rank: sq.rank, file: (sq.file + 1) as usize },
        ) && square_inhabitable(
            pieces,
            mover,
            Square { rank: (sq.rank + 1) as usize, file: (sq.file + 1) as usize },
        ),
        Kind::Number => square_inhabitable(pieces, mover, sq),
        Kind::Goal => false,
    }
}

/// Whether the piece's footprint covers `square`, regardless of color.
pub fn does_piece_block_square(potential_blocker: &Piece, square: Square) -> (b: bool)
    ensures
        b == piece_blocks_square(*potential_blocker, square),
{
    match potential_blocker.kind {
        Kind::B => {
            (square.rank == potential_blocker.pos.rank || (square.rank > potential_blocker.pos.rank
                && square.rank - potential_blocker.pos.rank == 1)) && (square.file
                == potential_blocker.pos.file || (square.file > potential_blocker.pos.file
                && square.file - potential_blocker.pos.file == 1))
        },
        Kind::Number => potential_blocker.pos == square,
        Kind::Goal => false,
    }
}

/// Whether `potential_blocker` denies `square` to the mover `from`.
pub fn is_piece_blocking_square_from(potential_blocker: &Piece, from: &Piece, square: Square) -> (b:
    bool)
    ensures
        b == piece_blocks_square_from(*potential_blocker, *from, square),
{
    if potential_blocker.color != from.color {
        // Only pieces of the mover's own color can block it.
        return false;
    }
    match potential_blocker.kind {
        Kind::B => {
            if potential_blocker.pos == from.pos {
                // A big piece does not block its own current footprint.
                false
            } else {
                does_piece_block_square(potential_blocker, square)
            }
        },
        Kind::Number => potential_blocker.pos == square,
        Kind::Goal => false,
    }
}

/// Whether `square` is on the board and free of same-color blockers for
/// `piece`. Any square off the board, the underflow sentinel included, is
/// uninhabitable.
pub fn is_square_inhabitable_for(pieces: &Vec<Piece>, piece: &Piece, square: Square) -> (b: bool)
    ensures
        b == square_inhabitable(pieces@, *piece, square),
        !square_in_bounds(square) ==> !b,
{
    if square.rank >= BOARD_SIZE || square.file >= BOARD_SIZE {
        return false;
    }
    let n: usize = pieces.len();
    let mut i: usize = 0;
    while i < n
        invariant
            n == pieces.len(),
            i <= n,
            forall|k: int|
                0 <= k < i ==> !piece_blocks_square_from(#[trigger] pieces@[k], *piece, square),
        decreases n - i,
    {
        if is_piece_blocking_square_from(&pieces[i], piece, square) {
            return false;
        }
        i = i + 1;
    }
    true
}

/// Whether `piece` may legally come to stand on the anchor `square`.
pub fn can_piece_move_to(pieces: &Vec<Piece>, piece: &Piece, square: Square) -> (b: bool)
    ensures
        b == can_move_to(pieces@, *piece, square),
{
    match piece.kind {
        Kind::B => {
            if !is_square_inhabitable_for(pieces, piece, square) {
                return false;
            }
            // The anchor passed its range check, so the footprint
            // coordinates below cannot overflow.
            is_square_inhabitable_for(
                pieces,
                piece,
                Square { rank: square.rank + 1, file: square.file },
            ) && is_square_inhabitable_for(
                pieces,
                piece,
                Square { rank: square.rank, file: square.file + 1 },
            ) && is_square_inhabitable_for(
                pieces,
                piece,
                Square { rank: square.rank + 1, file: square.file + 1 },
            )
        },
        Kind::Number => is_square_inhabitable_for(pieces, piece, square),
        Kind::Goal => false,
    }
}

} // verus!
