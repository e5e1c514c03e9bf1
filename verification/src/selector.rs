//! The AI selector: gathers every legal action of a color and picks one
//! uniformly at random, or reports that the color is stalemated.

use vstd::prelude::*;

use crate::board::{positions_in_bounds, Action, Color, Piece};
use crate::moves::{
    action_lists_upto, color_action_lists, get_move_directions, list_possible_moves,
    possible_moves,
};

verus! {

/// Every legal action of color `turn`, in piece-iteration order: the
/// concatenation of the per-piece action lists.
pub open spec fn all_color_actions(pieces: Seq<Piece>, turn: Color) -> Seq<Action> {
    color_action_lists(pieces, turn).flatten()
}

proof fn lemma_upto_flatten_member(pieces: Seq<Piece>, turn: Color, n: int, a: Action)
    requires
        0 <= n <= pieces.len(),
        action_lists_upto(pieces, turn, n).flatten().contains(a),
    ensures
        exists|i: int|
            0 <= i < n && #[trigger] pieces[i].color == turn && possible_moves(
                pieces,
                pieces[i],
            ).contains(a),
    decreases n,
{
    if n <= 0 {
        assert(action_lists_upto(pieces, turn, n).flatten().len() == 0);
    } else {
        let prev = action_lists_upto(pieces, turn, n - 1);
        let cur = action_lists_upto(pieces, turn, n);
        if pieces[n - 1].color == turn {
            let pm = possible_moves(pieces, pieces[n - 1]);
            assert(cur =~= prev.push(pm));
            prev.lemma_flatten_push(pm);
            let f = cur.flatten();
            let fp = prev.flatten();
            let k = choose|k: int| 0 <= k < f.len() && f[k] == a;
            if k < fp.len() {
                assert(fp[k] == a);
                assert(fp.contains(a));
                lemma_upto_flatten_member(pieces, turn, n - 1, a);
            } else {
                assert(pm[k - fp.len()] == a);
                assert(pm.contains(a));
            }
        } else {
            assert(cur =~= prev);
            lemma_upto_flatten_member(pieces, turn, n - 1, a);
        }
    }
}

/// Every action in the color's combined action list belongs to the action
/// list of some piece of that color.
pub proof fn lemma_all_actions_member(pieces: Seq<Piece>, turn: Color, a: Action)
    requires
        all_color_actions(pieces, turn).contains(a),
    ensures
        exists|i: int|
            0 <= i < pieces.len() && #[trigger] pieces[i].color == turn && possible_moves(
                pieces,
                pieces[i],
            ).contains(a),
{
    lemma_upto_flatten_member(pieces, turn, pieces.len() as int, a);
}

/// Every legal action of color `turn`, in piece-iteration order.
pub fn all_legal_actions(pieces: &Vec<Piece>, turn: Color) -> (v: Vec<Action>)
    requires
        positions_in_bounds(pieces@),
    ensures
        v@ == all_color_actions(pieces@, turn),
{
    let mut v: Vec<Action> = Vec::new();
    let n: usize = pieces.len();
    let mut i: usize = 0;
    assert(action_lists_upto(pieces@, turn, 0).flatten() =~= Seq::<Action>::empty());
    while i < n
        invariant
            n == pieces.len(),
            i <= n,
            positions_in_bounds(pieces@),
            v@ == action_lists_upto(pieces@, turn, i as int).flatten(),
        decreases n - i,
    {
        let piece: Piece = pieces[i];
        if piece.color == turn {
            let dirs: Vec<crate::board::Offset> = get_move_directions(&piece);
            let mut acts: Vec<Action> = list_possible_moves(pieces, &piece, dirs);
            let ghost pm = possible_moves(pieces@, pieces@[i as int]);
            let ghost prev = action_lists_upto(pieces@, turn, i as int);
            v.append(&mut acts);
            proof {
                assert(action_lists_upto(pieces@, turn, i + 1 as int) =~= prev.push(pm));
                prev.lemma_flatten_push(pm);
            }
        } else {
            proof {
                assert(action_lists_upto(pieces@, turn, i + 1 as int) =~= action_lists_upto(
                    pieces@,
                    turn,
                    i as int,
                ));
            }
        }
        i = i + 1;
    }
    v
}

/// Relies on rand::random_range over `0..len`: it returns a uniformly
/// sampled value inside the given range, and panics only on an empty one.
#[verifier::external_body]
fn pick_random_index(len: usize) -> (i: usize)
    requires
        1 <= len,
    ensures
        i < len,
{
    rand::random_range(0..len)
}

/// One legal action of the color, drawn uniformly at random from the
/// combined action list; nothing exactly when the color has no legal action
/// at all (it is stalemated).
pub fn ai_player_get_move(pieces: &Vec<Piece>, ai_player: Color) -> (r: Option<Action>)
    requires
        positions_in_bounds(pieces@),
    ensures
        r is None <==> all_color_actions(pieces@, ai_player).len() == 0,
        r is Some ==> all_color_actions(pieces@, ai_player).contains(r->0),
{
    let acts: Vec<Action> = all_legal_actions(pieces, ai_player);
    if acts.len() == 0 {
        None
    } else {
        let k: usize = pick_random_index(acts.len());
        Some(acts[k])
    }
}

/// The deterministic counterpart of `ai_player_get_move` for an injected
/// choice: picks the legal action at `pick` modulo the number of legal
/// actions, or nothing when the color is stalemated. It lets a caller
/// replay a selection from its own source of randomness.
pub fn select_action(pieces: &Vec<Piece>, turn: Color, pick: usize) -> (r: Option<Action>)
    requires
        positions_in_bounds(pieces@),
    ensures
        r is None <==> all_color_actions(pieces@, turn).len() == 0,
        all_color_actions(pieces@, turn).len() > 0 ==> r == Some(
            all_color_actions(pieces@, turn)[pick as int % all_color_actions(
                pieces@,
                turn,
            ).len() as int],
        ),
{
    let acts: Vec<Action> = all_legal_actions(pieces, turn);
    if acts.len() == 0 {
        None
    } else {
        Some(acts[pick % acts.len()])
    }
}

} // verus!
