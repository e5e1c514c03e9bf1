//! The move generator: per-kind offset templates, filtered through the
//! occupancy resolver.

use vstd::prelude::*;

use crate::board::{
    add_usize_int, offset_coord, positions_in_bounds, square_in_bounds, Action, Color, Kind, Move,
    Offset, Piece, Square,
};
use crate::occupancy::{can_move_to, can_piece_move_to};

verus! {

/// The movement template of a piece: relative (rank, file) deltas. A big
/// piece steps one square orthogonally; a goal piece never moves; a
/// numbered piece's template is keyed on its current health, and the
/// health-1 template depends on the color (its pawns advance toward the
/// opponent). Any other health value yields no moves.
pub open spec fn spec_move_directions(p: Piece) -> Seq<Offset> {
    match p.kind {
        Kind::B => seq![
            Offset { dr: 1, df: 0 },
            Offset { dr: -1i8, df: 0 },
            Offset { dr: 0, df: 1 },
            Offset { dr: 0, df: -1i8 },
        ],
        Kind::Goal => Seq::empty(),
        Kind::Number => if p.health == 5 {
            seq![
                Offset { dr: -2i8, df: -2i8 },
                Offset { dr: -2i8, df: -1i8 },
                Offset { dr: -2i8, df: 0 },
                Offset { dr: -2i8, df: 1 },
                Offset { dr: -2i8, df: 2 },
                Offset { dr: -1i8, df: -2i8 },
                Offset { dr: -1i8, df: -1i8 },
                Offset { dr: -1i8, df: 0 },
                Offset { dr: -1i8, df: 1 },
                Offset { dr: -1i8, df: 2 },
                Offset { dr: 0, df: -2i8 },
                Offset { dr: 0, df: -1i8 },
                Offset { dr: 0, df: 1 },
                Offset { dr: 0, df: 2 },
                Offset { dr: 1, df: -2i8 },
                Offset { dr: 1, df: -1i8 },
                Offset { dr: 1, df: 0 },
                Offset { dr: 1, df: 1 },
                Offset { dr: 1, df: 2 },
                Offset { dr: 2, df: -2i8 },
                Offset { dr: 2, df: -1i8 },
                Offset { dr: 2, df: 0 },
                Offset { dr: 2, df: 1 },
                Offset { dr: 2, df: 2 },
            ]
        } else if p.health == 4 {
            seq![
                Offset { dr: -2i8, df: -2i8 },
                Offset { dr: -2i8, df: 2 },
                Offset { dr: 2, df: -2i8 },
                Offset { dr: 2, df: 2 },
                Offset { dr: 0, df: 2 },
                Offset { dr: -2i8, df: 0 },
                Offset { dr: 0, df: -2i8 },
                Offset { dr: 2, df: 0 },
                Offset { dr: -1i8, df: -1i8 },
                Offset { dr: -1i8, df: 1 },
                Offset { dr: 1, df: 1 },
                Offset { dr: 1, df: -1i8 },
            ]
        } else if p.health == 3 {
            seq![
                Offset { dr: -1i8, df: -1i8 },
                Offset { dr: -1i8, df: 0 },
                Offset { dr: -1i8, df: 1 },
                Offset { dr: 0, df: 1 },
                Offset { dr: 1, df: 1 },
                Offset { dr: 1, df: 0 },
                Offset { dr: 1, df: -1i8 },
                Offset { dr: 0, df: -1i8 },
            ]
        } else if p.health == 2 {
            seq![
                Offset { dr: 0, df: 1 },
                Offset { dr: -1i8, df: 0 },
                Offset { dr: 0, df: -1i8 },
                Offset { dr: 1, df: 0 },
            ]
        } else if p.health == 1 {
            match p.color {
                Color::Red => seq![
                    Offset { dr: 0, df: 1 },
                    Offset { dr: 0, df: -1i8 },
                    Offset { dr: 1, df: 0 },
                ],
                Color::Blue => seq![
                    Offset { dr: 0, df: 1 },
                    Offset { dr: -1i8, df: 0 },
                    Offset { dr: 0, df: -1i8 },
                ],
                Color::Green => Seq::empty(),
            }
        } else {
            Seq::empty()
        },
    }
}

/// The destination anchor reached by applying the template delta `o` to
/// `pos`, with sentinel clamping on underflow.
pub open spec fn offset_target(pos: Square, o: Offset) -> Square {
    Square { rank: offset_coord(pos.rank, o.dr), file: offset_coord(pos.file, o.df) }
}

/// The relocations of `p` along the offsets `offs` whose destinations pass
/// the occupancy resolver, in template order.
pub open spec fn filtered_moves(pieces: Seq<Piece>, p: Piece, offs: Seq<Offset>) -> Seq<Action>
    decreases offs.len(),
{
    if offs.len() == 0 {
        Seq::empty()
    } else {
        filtered_moves(pieces, p, offs.drop_last()) + (if can_move_to(
            pieces,
            p,
            offset_target(p.pos, offs.last()),
        ) {
            seq![Action::Move(Move { start: p.pos, end: offset_target(p.pos, offs.last()) })]
        } else {
            Seq::empty()
        })
    }
}

/// The full action list of `p` for the template `offs`: a goal piece gets
/// none, a big piece gets its filtered relocations plus the one
/// unconditional self-destruct, a numbered piece its filtered relocations.
pub open spec fn possible_moves_with(pieces: Seq<Piece>, p: Piece, offs: Seq<Offset>) -> Seq<
    Action,
> {
    match p.kind {
        Kind::Goal => Seq::empty(),
        Kind::B => filtered_moves(pieces, p, offs).push(Action::Explosion(p.pos)),
        Kind::Number => filtered_moves(pieces, p, offs),
    }
}

/// The full action list of `p` under its own movement template.
pub open spec fn possible_moves(pieces: Seq<Piece>, p: Piece) -> Seq<Action> {
    possible_moves_with(pieces, p, spec_move_directions(p))
}

/// The per-piece action lists of the first `n` pieces of color `turn`, in
/// collection order.
pub open spec fn action_lists_upto(pieces: Seq<Piece>, turn: Color, n: int) -> Seq<Seq<Action>>
    decreases n,
{
    if n <= 0 {
        Seq::empty()
    } else {
        action_lists_upto(pieces, turn, n - 1) + (if pieces[n - 1].color == turn {
            seq![possible_moves(pieces, pieces[n - 1])]
        } else {
            Seq::<Seq<Action>>::empty()
        })
    }
}

/// The per-piece action lists of every piece of color `turn`, in
/// collection order.
pub open spec fn color_action_lists(pieces: Seq<Piece>, turn: Color) -> Seq<Seq<Action>> {
    action_lists_upto(pieces, turn, pieces.len() as int)
}

/// How many self-destruct actions a list holds.
pub open spec fn explosion_count(s: Seq<Action>) -> nat
    decreases s.len(),
{
    if s.len() == 0 {
        0nat
    } else {
        explosion_count(s.drop_last()) + (if s.last() is Explosion {
            1nat
        } else {
            0nat
        })
    }
}

proof fn lemma_filtered_moves_no_explosion(pieces: Seq<Piece>, p: Piece, offs: Seq<Offset>)
    ensures
        explosion_count(filtered_moves(pieces, p, offs)) == 0,
    decreases offs.len(),
{
    if offs.len() == 0 {
    } else {
        lemma_filtered_moves_no_explosion(pieces, p, offs.drop_last());
        let prev = filtered_moves(pieces, p, offs.drop_last());
        let fm = filtered_moves(pieces, p, offs);
        if can_move_to(pieces, p, offset_target(p.pos, offs.last())) {
            assert(fm.drop_last() =~= prev);
        } else {
            assert(fm =~= prev);
        }
    }
}

/// A big piece's action list holds exactly one self-destruct, whatever the
/// occupancy around it, because the generator appends it unconditionally
/// and every filtered template entry is a relocation.
pub proof fn lemma_big_exactly_one_explosion(pieces: Seq<Piece>, p: Piece, offs: Seq<Offset>)
    requires
        p.kind is B,
    ensures
        explosion_count(possible_moves_with(pieces, p, offs)) == 1,
{
    lemma_filtered_moves_no_explosion(pieces, p, offs);
    let fm = filtered_moves(pieces, p, offs);
    let pm = possible_moves_with(pieces, p, offs);
    assert(pm.drop_last() =~= fm);
    assert(pm.last() is Explosion);
}

/// Generating the legal actions twice without an intervening `apply` gives
/// identical results: the lists are a function of the piece collection and
/// the color alone, so any two values meeting the generator's contract on
/// the same collection coincide.
pub proof fn lemma_legal_actions_idempotent(
    pieces: Seq<Piece>,
    turn: Color,
    first_call: Seq<Seq<Action>>,
    second_call: Seq<Seq<Action>>,
)
    requires
        first_call == color_action_lists(pieces, turn),
        second_call == color_action_lists(pieces, turn),
    ensures
        first_call == second_call,
{
}

/// What membership in a piece's action list guarantees: a relocation starts
/// on the piece's own anchor and passes the occupancy resolver; a
/// self-destruct belongs to a big piece and targets its own anchor.
pub open spec fn action_fits_piece(pieces: Seq<Piece>, p: Piece, a: Action) -> bool {
    match a {
        Action::Move(m) => m.start == p.pos && can_move_to(pieces, p, m.end),
        Action::Explosion(sq) => p.kind is B && sq == p.pos,
    }
}

proof fn lemma_filtered_moves_member(pieces: Seq<Piece>, p: Piece, offs: Seq<Offset>, a: Action)
    requires
        filtered_moves(pieces, p, offs).contains(a),
    ensures
        a is Move && action_fits_piece(pieces, p, a),
    decreases offs.len(),
{
    let fm = filtered_moves(pieces, p, offs);
    let prev = filtered_moves(pieces, p, offs.drop_last());
    let k = choose|k: int| 0 <= k < fm.len() && fm[k] == a;
    if k < prev.len() {
        assert(prev[k] == a);
        assert(prev.contains(a));
        lemma_filtered_moves_member(pieces, p, offs.drop_last(), a);
    } else {
        assert(can_move_to(pieces, p, offset_target(p.pos, offs.last())));
        assert(a == Action::Move(
            Move { start: p.pos, end: offset_target(p.pos, offs.last()) },
        ));
    }
}

/// Every action the generator lists for a piece fits that piece: its
/// relocations start on the piece's anchor and pass the occupancy
/// resolver, and its self-destruct, if any, targets the anchor of a big
/// piece.
pub proof fn lemma_possible_moves_member(pieces: Seq<Piece>, p: Piece, a: Action)
    requires
        possible_moves(pieces, p).contains(a),
    ensures
        action_fits_piece(pieces, p, a),
{
    let offs = spec_move_directions(p);
    let fm = filtered_moves(pieces, p, offs);
    let pm = possible_moves(pieces, p);
    match p.kind {
        Kind::Goal => {
            assert(false);
        },
        Kind::B => {
            let k = choose|k: int| 0 <= k < pm.len() && pm[k] == a;
            if k < fm.len() {
                assert(fm[k] == a);
                assert(fm.contains(a));
                lemma_filtered_moves_member(pieces, p, offs, a);
            } else {
                assert(a == Action::Explosion(p.pos));
            }
        },
        Kind::Number => {
            lemma_filtered_moves_member(pieces, p, offs, a);
        },
    }
}

/// Every list that `color_action_lists` collects is the action list of some
/// piece of the given color.
pub proof fn lemma_action_lists_member(pieces: Seq<Piece>, turn: Color, n: int, k: int)
    requires
        0 <= n <= pieces.len(),
        0 <= k < action_lists_upto(pieces, turn, n).len(),
    ensures
        exists|i: int|
            0 <= i < n && #[trigger] pieces[i].color == turn && action_lists_upto(pieces, turn, n)[k]
                == possible_moves(pieces, pieces[i]),
    decreases n,
{
    let cur = action_lists_upto(pieces, turn, n);
    let prev = action_lists_upto(pieces, turn, n - 1);
    if k < prev.len() {
        lemma_action_lists_member(pieces, turn, n - 1, k);
        let i = choose|i: int|
            0 <= i < n - 1 && #[trigger] pieces[i].color == turn && prev[k] == possible_moves(
                pieces,
                pieces[i],
            );
        assert(cur[k] == prev[k]);
        assert(pieces[i].color == turn && cur[k] == possible_moves(pieces, pieces[i]));
    } else {
        assert(pieces[n - 1].color == turn && cur[k] == possible_moves(pieces, pieces[n - 1]));
    }
}

/// The movement template of `piece`, as executable data.
pub fn get_move_directions(piece: &Piece) -> (v: Vec<Offset>)
    ensures
        v@ == spec_move_directions(*piece),
{
    let mut v: Vec<Offset> = Vec::new();
    match piece.kind {
        Kind::B => {
            v.push(Offset { dr: 1, df: 0 });
            v.push(Offset { dr: -1i8, df: 0 });
            v.push(Offset { dr: 0, df: 1 });
            v.push(Offset { dr: 0, df: -1i8 });
        },
        Kind::Goal => {},
        Kind::Number => {
            if piece.health == 5 {
                v.push(Offset { dr: -2i8, df: -2i8 });
                v.push(Offset { dr: -2i8, df: -1i8 });
                v.push(Offset { dr: -2i8, df: 0 });
                v.push(Offset { dr: -2i8, df: 1 });
                v.push(Offset { dr: -2i8, df: 2 });
                v.push(Offset { dr: -1i8, df: -2i8 });
                v.push(Offset { dr: -1i8, df: -1i8 });
                v.push(Offset { dr: -1i8, df: 0 });
                v.push(Offset { dr: -1i8, df: 1 });
                v.push(Offset { dr: -1i8, df: 2 });
                v.push(Offset { dr: 0, df: -2i8 });
                v.push(Offset { dr: 0, df: -1i8 });
                v.push(Offset { dr: 0, df: 1 });
                v.push(Offset { dr: 0, df: 2 });
                v.push(Offset { dr: 1, df: -2i8 });
                v.push(Offset { dr: 1, df: -1i8 });
                v.push(Offset { dr: 1, df: 0 });
                v.push(Offset { dr: 1, df: 1 });
                v.push(Offset { dr: 1, df: 2 });
                v.push(Offset { dr: 2, df: -2i8 });
                v.push(Offset { dr: 2, df: -1i8 });
                v.push(Offset { dr: 2, df: 0 });
                v.push(Offset { dr: 2, df: 1 });
                v.push(Offset { dr: 2, df: 2 });
            } else if piece.health == 4 {
                v.push(Offset { dr: -2i8, df: -2i8 });
                v.push(Offset { dr: -2i8, df: 2 });
                v.push(Offset { dr: 2, df: -2i8 });
                v.push(Offset { dr: 2, df: 2 });
                v.push(Offset { dr: 0, df: 2 });
                v.push(Offset { dr: -2i8, df: 0 });
                v.push(Offset { dr: 0, df: -2i8 });
                v.push(Offset { dr: 2, df: 0 });
                v.push(Offset { dr: -1i8, df: -1i8 });
                v.push(Offset { dr: -1i8, df: 1 });
                v.push(Offset { dr: 1, df: 1 });
                v.push(Offset { dr: 1, df: -1i8 });
            } else if piece.health == 3 {
                v.push(Offset { dr: -1i8, df: -1i8 });
                v.push(Offset { dr: -1i8, df: 0 });
                v.push(Offset { dr: -1i8, df: 1 });
                v.push(Offset { dr: 0, df: 1 });
                v.push(Offset { dr: 1, df: 1 });
                v.push(Offset { dr: 1, df: 0 });
                v.push(Offset { dr: 1, df: -1i8 });
                v.push(Offset { dr: 0, df: -1i8 });
            } else if piece.health == 2 {
                v.push(Offset { dr: 0, df: 1 });
                v.push(Offset { dr: -1i8, df: 0 });
                v.push(Offset { dr: 0, df: -1i8 });
                v.push(Offset { dr: 1, df: 0 });
            } else if piece.health == 1 {
                match piece.color {
                    Color::Red => {
                        v.push(Offset { dr: 0, df: 1 });
                        v.push(Offset { dr: 0, df: -1i8 });
                        v.push(Offset { dr: 1, df: 0 });
                    },
                    Color::Blue => {
                        v.push(Offset { dr: 0, df: 1 });
                        v.push(Offset { dr: -1i8, df: 0 });
                        v.push(Offset { dr: 0, df: -1i8 });
                    },
                    Color::Green => {},
                }
            }
        },
    }
    assert(v@ =~= spec_move_directions(*piece));
    v
}

/// The legal actions of `piece` for the given template: every offset whose
/// destination the occupancy resolver accepts becomes a relocation, and a
/// big piece always gets exactly one self-destruct besides. A goal piece
/// never has any action.
pub fn list_possible_moves(pieces: &Vec<Piece>, piece: &Piece, moves: Vec<Offset>) -> (r: Vec<
    Action,
>)
    requires
        square_in_bounds(piece.pos),
    ensures
        r@ == possible_moves_with(pieces@, *piece, moves@),
        piece.kind is Goal ==> r@.len() == 0,
{
    match piece.kind {
        Kind::Goal => {
            return Vec::new();
        },
        _ => {},
    }
    let mut ret: Vec<Action> = Vec::new();
    let n: usize = moves.len();
    let mut i: usize = 0;
    while i < n
        invariant
            n == moves.len(),
            i <= n,
            square_in_bounds(piece.pos),
            ret@ == filtered_moves(pieces@, *piece, moves@.take(i as int)),
        decreases n - i,
    {
        let off: Offset = moves[i];
        let end: Square = Square {
            rank: add_usize_int(piece.pos.rank, off.dr),
            file: add_usize_int(piece.pos.file, off.df),
        };
        assert(end == offset_target(piece.pos, off));
        if can_piece_move_to(pieces, piece, end) {
            ret.push(Action::Move(Move { start: piece.pos, end }));
        }
        proof {
            assert(moves@.take(i + 1 as int).drop_last() =~= moves@.take(i as int));
            assert(moves@.take(i + 1 as int).last() == moves@[i as int]);
            if can_move_to(pieces@, *piece, offset_target(piece.pos, off)) {
                assert(ret@ =~= filtered_moves(pieces@, *piece, moves@.take(i as int)) + seq![
                    Action::Move(Move { start: piece.pos, end: offset_target(piece.pos, off) }),
                ]);
            } else {
                assert(ret@ =~= filtered_moves(pieces@, *piece, moves@.take(i as int))
                    + Seq::<Action>::empty());
            }
        }
        i = i + 1;
    }
    proof {
        assert(moves@.take(n as int) =~= moves@);
    }
    match piece.kind {
        Kind::B => {
            ret.push(Action::Explosion(piece.pos));
        },
        _ => {},
    }
    ret
}

/// One legal-action list per piece of color `turn`, in collection order.
/// Pieces of other colors contribute no entry.
pub fn find_possible_moves(pieces: &Vec<Piece>, turn: Color) -> (r: Vec<Vec<Action>>)
    requires
        positions_in_bounds(pieces@),
    ensures
        r@.len() == color_action_lists(pieces@, turn).len(),
        forall|k: int| 0 <= k < r@.len() ==> #[trigger] r@[k]@ == color_action_lists(
            pieces@,
            turn,
        )[k],
{
    let mut r: Vec<Vec<Action>> = Vec::new();
    let n: usize = pieces.len();
    let mut i: usize = 0;
    while i < n
        invariant
            n == pieces.len(),
            i <= n,
            positions_in_bounds(pieces@),
            r@.len() == action_lists_upto(pieces@, turn, i as int).len(),
            forall|k: int| 0 <= k < r@.len() ==> #[trigger] r@[k]@ == action_lists_upto(
                pieces@,
                turn,
                i as int,
            )[k],
        decreases n - i,
    {
        let piece: Piece = pieces[i];
        if piece.color == turn {
            let dirs: Vec<Offset> = get_move_directions(&piece);
            let acts: Vec<Action> = list_possible_moves(pieces, &piece, dirs);
            r.push(acts);
            proof {
                assert(action_lists_upto(pieces@, turn, i + 1 as int) =~= action_lists_upto(
                    pieces@,
                    turn,
                    i as int,
                ) + seq![possible_moves(pieces@, pieces@[i as int])]);
            }
        } else {
            proof {
                assert(action_lists_upto(pieces@, turn, i + 1 as int) =~= action_lists_upto(
                    pieces@,
                    turn,
                    i as int,
                ));
            }
        }
        i = i + 1;
    }
    r
}

} // verus!
