//! The board geometry and the piece data model.

use vstd::prelude::*;

verus! {

/// Side length of the square board. A coordinate equal to `BOARD_SIZE` is the
/// deliberate out-of-range sentinel produced when an offset underflows, so
/// range checks reject it without a special case.
pub const BOARD_SIZE: usize = 10;

/// The three colors. `Red` and `Blue` play; `Green` marks neutral pieces that
/// never move and never own a turn.
#[derive(Clone, Copy, PartialEq, Eq, Structural, Debug)]
pub enum Color {
    Green,
    Red,
    Blue,
}

/// The piece kinds. A `B` (big) piece occupies a 2x2 footprint and is stored
/// by the corner with the smallest coordinates; a `Goal` is an immobile
/// marker; a `Number` piece occupies one cell and moves by a template keyed
/// on its health.
#[derive(Clone, Copy, PartialEq, Eq, Structural, Debug)]
pub enum Kind {
    B,
    Goal,
    Number,
}

/// A board square, as (rank, file). Valid coordinates lie in
/// `[0, BOARD_SIZE)`; `BOARD_SIZE` itself serves as the sentinel.
#[derive(Clone, Copy, PartialEq, Eq, Structural, Debug)]
pub struct Square {
    pub rank: usize,
    pub file: usize,
}

/// One piece. `pos` is the anchor square (the only cell for `Number` and
/// `Goal`, the minimal corner for `B`). `delete` is the pending-deletion
/// flag: a dead piece stays visible until the next sweep.
#[derive(Clone, Copy, PartialEq, Eq, Structural, Debug)]
pub struct Piece {
    pub color: Color,
    pub kind: Kind,
    pub health: i8,
    pub pos: Square,
    pub delete: bool,
}

/// A relocation from `start` to `end`.
#[derive(Clone, Copy, PartialEq, Eq, Structural, Debug)]
pub struct Move {
    pub start: Square,
    pub end: Square,
}

/// An action: a relocation, or the self-destruct of the big piece anchored
/// at the given square.
#[derive(Clone, Copy, PartialEq, Eq, Structural, Debug)]
pub enum Action {
    Move(Move),
    Explosion(Square),
}

/// A movement-template entry: a signed (rank, file) delta.
#[derive(Clone, Copy, PartialEq, Eq, Structural, Debug)]
pub struct Offset {
    pub dr: i8,
    pub df: i8,
}

/// Both coordinates lie on the board.
pub open spec fn square_in_bounds(sq: Square) -> bool {
    sq.rank < BOARD_SIZE && sq.file < BOARD_SIZE
}

/// The piece's whole footprint lies on the board: the single cell for
/// `Number` and `Goal`, all four cells for `B`.
pub open spec fn pos_wf(p: Piece) -> bool {
    match p.kind {
        Kind::B => p.pos.rank + 1 < BOARD_SIZE && p.pos.file + 1 < BOARD_SIZE,
        _ => square_in_bounds(p.pos),
    }
}

/// Health values the resolver accepts; the bound keeps all combat
/// arithmetic inside `i8`.
pub open spec fn health_ok(h: i8) -> bool {
    -64 <= h <= 63
}

pub open spec fn piece_ok(p: Piece) -> bool {
    pos_wf(p) && health_ok(p.health)
}

pub open spec fn pieces_ok(s: Seq<Piece>) -> bool {
    forall|i: int| 0 <= i < s.len() ==> piece_ok(#[trigger] s[i])
}

/// Every piece's anchor lies on the board.
pub open spec fn positions_in_bounds(s: Seq<Piece>) -> bool {
    forall|i: int| 0 <= i < s.len() ==> square_in_bounds(#[trigger] s[i].pos)
}

/// Signed addition of an offset to a coordinate, with the sentinel on
/// underflow: the result of `add_usize_int`.
pub open spec fn offset_coord(a: usize, b: i8) -> usize {
    if a + b >= 0 {
        (a + b) as usize
    } else {
        BOARD_SIZE
    }
}

/// Adds a signed template delta to a coordinate. A sum that would go
/// negative yields the `BOARD_SIZE` sentinel, which every range check
/// rejects.
pub fn add_usize_int(a: usize, b: i8) -> (r: usize)
    requires
        a + 127 <= usize::MAX,
    ensures
        r == offset_coord(a, b),
{
    if b >= 0 {
        a + (b as usize)
    } else {
        let d: usize = (-(b as i16)) as usize;
        if a >= d {
            a - d
        } else {
            BOARD_SIZE
        }
    }
}

} // verus!
