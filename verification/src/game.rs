//! The turn controller: the state machine that alternates the active color,
//! validates chosen actions, applies them, and detects the terminal win and
//! stalemate conditions.

use vstd::prelude::*;

use crate::board::{
    piece_ok, pieces_ok, positions_in_bounds, square_in_bounds, Action, Color, Kind, Piece,
};
use crate::moves::{lemma_possible_moves_member, possible_moves};
use crate::occupancy::{can_move_to, square_inhabitable};
use crate::resolve::{
    action_outcome_spec, apply, apply_action_spec, apply_explosion_spec, apply_move_spec,
    combat_damage, first_at_excluding, first_big_at, lemma_first_at_props,
    lemma_first_big_at_props, marked, relocated, ring_struck, struck, sweep, swept, ActionOutcome,
};
use crate::selector::{all_color_actions, all_legal_actions, lemma_all_actions_member};
use crate::win::player_won;

verus! {

/// A piece the controller accepts between turns: its footprint is on the
/// board, its health small enough for combat arithmetic and at worst one
/// point below zero, and a piece with negative health is already flagged.
pub open spec fn game_piece_wf(p: Piece) -> bool {
    crate::board::pos_wf(p) && -1 <= p.health <= 63 && (p.health < 0 ==> p.delete)
}

/// The controller's invariant on the collection: every piece well-formed,
/// and no two pieces that are both unflagged stand on the same anchor
/// square.
pub open spec fn game_pieces_wf(s: Seq<Piece>) -> bool {
    (forall|i: int| 0 <= i < s.len() ==> game_piece_wf(#[trigger] s[i])) && (forall|i: int, j: int|
        #![trigger s[i].pos, s[j].pos]
        0 <= i < j < s.len() && !s[i].delete && !s[j].delete ==> s[i].pos != s[j].pos)
}

/// No piece is flagged pending-deletion: the collection was just swept.
pub open spec fn no_pending(s: Seq<Piece>) -> bool {
    forall|i: int| 0 <= i < s.len() ==> !(#[trigger] s[i]).delete
}

/// Red and Blue play; Green never owns a turn.
pub open spec fn playing_color(c: Color) -> bool {
    c == Color::Red || c == Color::Blue
}

/// The opposing playing color.
pub open spec fn other_color_spec(c: Color) -> Color {
    match c {
        Color::Red => Color::Blue,
        Color::Blue => Color::Red,
        Color::Green => Color::Green,
    }
}

/// The opposing playing color, as executable code.
pub fn other_color(c: Color) -> (r: Color)
    ensures
        r == other_color_spec(c),
{
    match c {
        Color::Red => Color::Blue,
        Color::Blue => Color::Red,
        Color::Green => Color::Green,
    }
}

/// The states of the turn controller: one of the playing colors holds the
/// turn, or one of them has won.
#[derive(Clone, Copy, PartialEq, Eq, Structural, Debug)]
pub enum TurnState {
    Turn(Color),
    Won(Color),
}

/// A turn state never names the neutral color.
pub open spec fn state_wf(st: TurnState) -> bool {
    match st {
        TurnState::Turn(c) => playing_color(c),
        TurnState::Won(c) => playing_color(c),
    }
}

/// The state after the turn-boundary evaluation, on the already-swept
/// collection, when `active` holds the turn. When both colors satisfy the
/// win condition at once, the color that made the action that produced this
/// position — the opponent of `active` — wins; this resolves the
/// simultaneous-win ambiguity explicitly instead of by check order.
pub open spec fn cycle_outcome(s: Seq<Piece>, active: Color) -> TurnState {
    let rw = player_won(s, Color::Red);
    let bw = player_won(s, Color::Blue);
    if rw && bw {
        TurnState::Won(other_color_spec(active))
    } else if rw {
        TurnState::Won(Color::Red)
    } else if bw {
        TurnState::Won(Color::Blue)
    } else {
        TurnState::Turn(active)
    }
}

/// The controller's invariant implies the resolver's and the generator's
/// preconditions.
pub proof fn lemma_game_pieces_ok(s: Seq<Piece>)
    requires
        game_pieces_wf(s),
    ensures
        pieces_ok(s),
        positions_in_bounds(s),
{
    assert forall|i: int| 0 <= i < s.len() implies piece_ok(#[trigger] s[i]) by {
        assert(game_piece_wf(s[i]));
    }
    assert forall|i: int| 0 <= i < s.len() implies square_in_bounds(#[trigger] s[i].pos) by {
        assert(game_piece_wf(s[i]));
    }
}

/// The sweep keeps the controller's invariant and leaves no flagged piece.
pub proof fn lemma_swept_wf(s: Seq<Piece>)
    requires
        game_pieces_wf(s),
    ensures
        game_pieces_wf(swept(s)),
        no_pending(swept(s)),
    decreases s.len(),
{
    reveal(Seq::filter);
    let pred = |p: Piece| !p.delete;
    if s.len() == 0 {
    } else {
        let rest = s.drop_last();
        assert(game_pieces_wf(rest));
        lemma_swept_wf(rest);
        let prev = swept(rest);
        if !s.last().delete {
            assert(swept(s) == prev.push(s.last()));
            // Every kept piece comes from `rest` and is unflagged, so the
            // newly pushed live piece stands apart from all of them.
            assert forall|x: int| 0 <= x < prev.len() implies prev[x].pos != s.last().pos by {
                assert(prev.contains(prev[x]));
                rest.lemma_filter_contains_rev(pred, prev[x]);
                let m = choose|m: int| 0 <= m < rest.len() && rest[m] == prev[x];
                assert(s[m] == prev[x]);
                assert(!s[m].delete && !s[s.len() - 1].delete);
            }
        } else {
            assert(swept(s) == prev);
        }
    }
}

/// All pieces of a just-swept well-formed collection have nonnegative
/// health.
pub proof fn lemma_no_pending_healths(s: Seq<Piece>)
    requires
        game_pieces_wf(s),
        no_pending(s),
    ensures
        forall|i: int| 0 <= i < s.len() ==> 0 <= (#[trigger] s[i]).health <= 63,
{
    assert forall|i: int| 0 <= i < s.len() implies 0 <= (#[trigger] s[i]).health <= 63 by {
        assert(game_piece_wf(s[i]));
        assert(!s[i].delete);
    }
}

/// Applying an action drawn from the active color's legal-action list finds
/// its subject piece and keeps the controller's invariant on the
/// collection.
pub proof fn lemma_apply_legal_preserves_wf(s: Seq<Piece>, turn: Color, a: Action)
    requires
        game_pieces_wf(s),
        no_pending(s),
        all_color_actions(s, turn).contains(a),
    ensures
        match a {
            Action::Move(m) => first_at_excluding(s, m.start, -1, 0) < s.len(),
            Action::Explosion(sq) => first_big_at(s, sq, 0) < s.len(),
        },
        game_pieces_wf(apply_action_spec(s, a)),
{
    lemma_all_actions_member(s, turn, a);
    let pi = choose|i: int|
        0 <= i < s.len() && #[trigger] s[i].color == turn && possible_moves(s, s[i]).contains(a);
    lemma_possible_moves_member(s, s[pi], a);
    lemma_no_pending_healths(s);
    match a {
        Action::Move(m) => {
            lemma_first_at_props(s, m.start, -1, 0);
            let i = first_at_excluding(s, m.start, -1, 0);
            assert(m.start == s[pi].pos);
            assert(i <= pi);
            assert(i < s.len());
            assert(i == pi) by {
                if i < pi {
                    assert(s[i].pos == s[pi].pos);
                    assert(!s[i].delete && !s[pi].delete);
                }
            }
            let j = first_at_excluding(s, m.end, i, 0);
            lemma_first_at_props(s, m.end, i, 0);
            let new = apply_move_spec(s, m);
            let dmg = if j == s.len() {
                0int
            } else {
                combat_damage(s[i], s[j])
            };
            assert(can_move_to(s, s[i], m.end));
            // The destination anchor keeps the mover's footprint on the
            // board: each inhabitable footprint cell is in bounds.
            assert(crate::board::pos_wf(relocated(s[i], dmg, m.end))) by {
                match s[i].kind {
                    Kind::B => {
                        assert(square_inhabitable(s, s[i], m.end));
                        assert(square_in_bounds(m.end));
                    },
                    Kind::Number => {
                        assert(square_inhabitable(s, s[i], m.end));
                    },
                    Kind::Goal => {
                        assert(false);
                    },
                }
            }
            if j == s.len() {
                assert(new == s.update(i, relocated(s[i], 0, m.end)));
            } else {
                assert(0 <= dmg <= s[i].health && dmg <= s[j].health);
                assert(new == s.update(j, struck(s[j], dmg)).update(i, relocated(s[i], dmg, m.end)));
            }
            assert forall|k: int| 0 <= k < new.len() implies game_piece_wf(#[trigger] new[k]) by {
                assert(game_piece_wf(s[k]));
            }
            assert forall|x: int, y: int|
                #![trigger new[x].pos, new[y].pos]
                0 <= x < y < new.len() && !new[x].delete && !new[y].delete implies new[x].pos
                != new[y].pos by {
                assert(game_piece_wf(s[x]) && game_piece_wf(s[y]));
                if x != i && y != i {
                    // Positions unchanged; both were live and distinct.
                    assert(new[x].pos == s[x].pos && new[y].pos == s[y].pos);
                } else {
                    // One of them is the mover, now on `m.end`.
                    let o = if x == i {
                        y
                    } else {
                        x
                    };
                    assert(new[o].pos == s[o].pos);
                    if j == s.len() {
                        // Nothing other than the mover stands on `m.end`.
                        assert(!(o != i && s[o].pos == m.end));
                    } else {
                        // The defender is the only other piece on `m.end`,
                        // and combat flags the mover or the defender.
                        if o == j {
                            assert(s[i].health - dmg <= 0 || s[j].health - dmg <= 0);
                            assert(false);
                        } else {
                            if s[o].pos == m.end {
                                assert(!s[o].delete && !s[j].delete);
                                assert(s[o].pos == s[j].pos);
                                assert(false);
                            }
                        }
                    }
                }
            }
        },
        Action::Explosion(sq) => {
            lemma_first_big_at_props(s, sq, 0);
            let i = first_big_at(s, sq, 0);
            assert(s[pi].kind is B && s[pi].pos == sq);
            assert(i <= pi);
            assert(i < s.len());
            assert(i == pi) by {
                if i < pi {
                    assert(s[i].pos == s[pi].pos);
                    assert(!s[i].delete && !s[pi].delete);
                }
            }
            let t = ring_struck(s, sq);
            let new = apply_explosion_spec(s, sq);
            assert(new == t.update(i, marked(t[i])));
            assert forall|k: int| 0 <= k < new.len() implies game_piece_wf(#[trigger] new[k]) by {
                assert(game_piece_wf(s[k]));
                assert(new[k].pos == s[k].pos && new[k].kind == s[k].kind);
            }
            assert forall|x: int, y: int|
                #![trigger new[x].pos, new[y].pos]
                0 <= x < y < new.len() && !new[x].delete && !new[y].delete implies new[x].pos
                != new[y].pos by {
                assert(game_piece_wf(s[x]) && game_piece_wf(s[y]));
                assert(new[x].pos == s[x].pos && new[y].pos == s[y].pos);
                assert(!new[x].delete ==> !s[x].delete);
                assert(!new[y].delete ==> !s[y].delete);
            }
        },
    }
}

/// Why a game could not be constructed from the given setup.
#[derive(Clone, Copy, PartialEq, Eq, Structural, Debug)]
pub enum SetupError {
    /// The first player must be Red or Blue, never the neutral color.
    NeutralFirstPlayer,
    /// Some piece is off the board, has an out-of-range health, or has
    /// negative health without its pending-deletion flag.
    InvalidPiece,
    /// Two unflagged pieces share an anchor square.
    OverlappingPieces,
}

/// Why the controller rejected a request.
#[derive(Clone, Copy, PartialEq, Eq, Structural, Debug)]
pub enum GameError {
    /// The game has already been won.
    GameOver,
    /// The action is not in the active color's current legal-action list;
    /// nothing was changed.
    IllegalAction,
}

/// Some piece of the setup breaks the per-piece invariant.
pub open spec fn has_invalid_piece(s: Seq<Piece>) -> bool {
    exists|i: int| 0 <= i < s.len() && !game_piece_wf(#[trigger] s[i])
}

/// Two unflagged pieces of the setup share an anchor square.
pub open spec fn has_overlap(s: Seq<Piece>) -> bool {
    exists|i: int, j: int|
        #![trigger s[i].pos, s[j].pos]
        0 <= i < j < s.len() && !s[i].delete && !s[j].delete && s[i].pos == s[j].pos
}

/// The whole game: the piece collection (the one mutable owner of every
/// piece) and the turn state.
pub struct Game {
    pieces: Vec<Piece>,
    state: TurnState,
}

impl Game {
    /// The piece collection, as a mathematical sequence.
    pub closed spec fn pieces_view(&self) -> Seq<Piece> {
        self.pieces@
    }

    /// The current turn state.
    pub closed spec fn state_spec(&self) -> TurnState {
        self.state
    }

    /// The controller's invariant: every public method preserves it.
    pub open spec fn wf(&self) -> bool {
        game_pieces_wf(self.pieces_view()) && state_wf(self.state_spec())
    }

    /// Builds a game from an externally supplied roster, validating it:
    /// the first player must be a playing color, every piece well-formed,
    /// and no two unflagged pieces may overlap on an anchor. A rejected
    /// setup reports the first failure, in that order.
    pub fn new(pieces: Vec<Piece>, first: Color) -> (g: Result<Game, SetupError>)
        ensures
            ({
                if !playing_color(first) {
                    g == Err::<Game, SetupError>(SetupError::NeutralFirstPlayer)
                } else if has_invalid_piece(pieces@) {
                    g == Err::<Game, SetupError>(SetupError::InvalidPiece)
                } else if has_overlap(pieces@) {
                    g == Err::<Game, SetupError>(SetupError::OverlappingPieces)
                } else {
                    match g {
                        Ok(game) => game.wf() && game.pieces_view() == pieces@ && game.state_spec()
                            == TurnState::Turn(first),
                        Err(_) => false,
                    }
                }
            }),
    {
        let is_playing: bool = match first {
            Color::Red => true,
            Color::Blue => true,
            Color::Green => false,
        };
        if !is_playing {
            return Err(SetupError::NeutralFirstPlayer);
        }
        let n: usize = pieces.len();
        let mut i: usize = 0;
        while i < n
            invariant
                n == pieces.len(),
                i <= n,
                playing_color(first),
                forall|k: int| 0 <= k < i ==> game_piece_wf(#[trigger] pieces@[k]),
            decreases n - i,
        {
            let p: Piece = pieces[i];
            let pos_fine: bool = match p.kind {
                Kind::B => p.pos.rank < crate::board::BOARD_SIZE - 1 && p.pos.file
                    < crate::board::BOARD_SIZE - 1,
                _ => p.pos.rank < crate::board::BOARD_SIZE && p.pos.file
                    < crate::board::BOARD_SIZE,
            };
            let health_fine: bool = -1 <= p.health && p.health <= 63 && (p.health >= 0
                || p.delete);
            if !pos_fine || !health_fine {
                assert(!game_piece_wf(pieces@[i as int]));
                return Err(SetupError::InvalidPiece);
            }
            i = i + 1;
        }
        let mut a: usize = 0;
        while a < n
            invariant
                n == pieces.len(),
                a <= n,
                playing_color(first),
                forall|k: int| 0 <= k < n ==> game_piece_wf(#[trigger] pieces@[k]),
                forall|x: int, y: int|
                    #![trigger pieces@[x].pos, pieces@[y].pos]
                    0 <= x < y < n && x < a && !pieces@[x].delete && !pieces@[y].delete
                        ==> pieces@[x].pos != pieces@[y].pos,
            decreases n - a,
        {
            let mut b: usize = a + 1;
            while b < n
                invariant
                    n == pieces.len(),
                    a < b <= n,
                    a < n,
                    playing_color(first),
                    forall|k: int| 0 <= k < n ==> game_piece_wf(#[trigger] pieces@[k]),
                    forall|x: int, y: int|
                        #![trigger pieces@[x].pos, pieces@[y].pos]
                        0 <= x < y < n && x < a && !pieces@[x].delete && !pieces@[y].delete
                            ==> pieces@[x].pos != pieces@[y].pos,
                    forall|y: int|
                        a < y < b && !pieces@[a as int].delete && !(#[trigger] pieces@[y]).delete
                            ==> pieces@[a as int].pos != pieces@[y].pos,
                decreases n - b,
            {
                if !pieces[a].delete && !pieces[b].delete && pieces[a].pos == pieces[b].pos {
                    assert(has_overlap(pieces@));
                    return Err(SetupError::OverlappingPieces);
                }
                b = b + 1;
            }
            a = a + 1;
        }
        Ok(Game { pieces, state: TurnState::Turn(first) })
    }

    /// The current turn state.
    pub fn current_state(&self) -> (st: TurnState)
        ensures
            st == self.state_spec(),
    {
        self.state
    }

    /// Read-only access to the pieces, for rendering and inspection.
    pub fn pieces(&self) -> (ps: &Vec<Piece>)
        ensures
            ps@ == self.pieces_view(),
    {
        &self.pieces
    }

    /// The turn-boundary step: sweeps out every piece flagged
    /// pending-deletion, then evaluates the win condition for both colors.
    /// When both hold at once the opponent of the active color — the color
    /// whose action produced the position — wins. A finished game is left
    /// unchanged.
    pub fn begin_cycle(&mut self)
        requires
            old(self).wf(),
        ensures
            final(self).wf(),
            match old(self).state_spec() {
                TurnState::Won(_) => final(self).pieces_view() == old(self).pieces_view() && final(self).state_spec() == old(self).state_spec(),
                TurnState::Turn(c) => {
                    &&& final(self).pieces_view() == swept(old(self).pieces_view())
                    &&& no_pending(final(self).pieces_view())
                    &&& final(self).state_spec() == cycle_outcome(
                        swept(old(self).pieces_view()),
                        c,
                    )
                },
            },
    {
        let c: Color = match self.state {
            TurnState::Turn(c) => c,
            TurnState::Won(_) => {
                return ;
            },
        };
        sweep(&mut self.pieces);
        proof {
            lemma_swept_wf(old(self).pieces_view());
        }
        let red_won: bool = crate::win::did_player_win(&self.pieces, Color::Red);
        let blue_won: bool = crate::win::did_player_win(&self.pieces, Color::Blue);
        if red_won && blue_won {
            self.state = TurnState::Won(other_color(c));
        } else if red_won {
            self.state = TurnState::Won(Color::Red);
        } else if blue_won {
            self.state = TurnState::Won(Color::Blue);
        }
    }

    /// Declares the active color stalemated when it has no legal action at
    /// all: the opponent wins immediately. Returns whether that happened;
    /// on a finished game it reports `false` and changes nothing.
    pub fn check_stalemate(&mut self) -> (st: bool)
        requires
            old(self).wf(),
        ensures
            final(self).wf(),
            final(self).pieces_view() == old(self).pieces_view(),
            match old(self).state_spec() {
                TurnState::Won(_) => !st && final(self).state_spec() == old(self).state_spec(),
                TurnState::Turn(c) => {
                    &&& (st <==> all_color_actions(old(self).pieces_view(), c).len() == 0)
                    &&& final(self).state_spec() == (if all_color_actions(
                        old(self).pieces_view(),
                        c,
                    ).len() == 0 {
                        TurnState::Won(other_color_spec(c))
                    } else {
                        old(self).state_spec()
                    })
                },
            },
    {
        let c: Color = match self.state {
            TurnState::Turn(c) => c,
            TurnState::Won(_) => {
                return false;
            },
        };
        proof {
            lemma_game_pieces_ok(self.pieces_view());
        }
        let acts: Vec<Action> = all_legal_actions(&self.pieces, c);
        if acts.len() == 0 {
            self.state = TurnState::Won(other_color(c));
            true
        } else {
            false
        }
    }

    /// Ends the game with an immediate loss for the active color — the
    /// terminal outcome when the piece chosen for it has no legal action
    /// at all. A game already won stays unchanged.
    pub fn concede(&mut self)
        requires
            old(self).wf(),
        ensures
            final(self).wf(),
            final(self).pieces_view() == old(self).pieces_view(),
            match old(self).state_spec() {
                TurnState::Won(_) => final(self).state_spec() == old(self).state_spec(),
                TurnState::Turn(c) => final(self).state_spec() == TurnState::Won(
                    other_color_spec(c),
                ),
            },
    {
        match self.state {
            TurnState::Turn(c) => {
                self.state = TurnState::Won(other_color(c));
            },
            TurnState::Won(_) => {},
        }
    }

    /// Applies one action for the active color. The action must come from
    /// the collection's current legal-action list: anything else is
    /// rejected without any change, as is any action once the game is won.
    /// On success the action is resolved (combat, explosion, flagging) and
    /// the turn passes to the opponent; the flagged pieces stay visible
    /// until the next `begin_cycle` sweeps them.
    pub fn take_action(&mut self, action: Action) -> (r: Result<ActionOutcome, GameError>)
        requires
            old(self).wf(),
            no_pending(old(self).pieces_view()),
        ensures
            final(self).wf(),
            match old(self).state_spec() {
                TurnState::Won(_) => r == Err::<ActionOutcome, GameError>(GameError::GameOver)
                    && final(self).pieces_view() == old(self).pieces_view() && final(self).state_spec() == old(self).state_spec(),
                TurnState::Turn(c) => {
                    if all_color_actions(old(self).pieces_view(), c).contains(action) {
                        &&& r == Ok::<ActionOutcome, GameError>(
                            action_outcome_spec(old(self).pieces_view(), action),
                        )
                        &&& final(self).pieces_view() == apply_action_spec(
                            old(self).pieces_view(),
                            action,
                        )
                        &&& final(self).state_spec() == TurnState::Turn(other_color_spec(c))
                    } else {
                        &&& r == Err::<ActionOutcome, GameError>(GameError::IllegalAction)
                        &&& final(self).pieces_view() == old(self).pieces_view()
                        &&& final(self).state_spec() == old(self).state_spec()
                    }
                },
            },
    {
        let c: Color = match self.state {
            TurnState::Turn(c) => c,
            TurnState::Won(_) => {
                return Err(GameError::GameOver);
            },
        };
        proof {
            lemma_game_pieces_ok(self.pieces_view());
        }
        let acts: Vec<Action> = all_legal_actions(&self.pieces, c);
        let m: usize = acts.len();
        let mut found: bool = false;
        let mut k: usize = 0;
        while k < m
            invariant
                m == acts.len(),
                k <= m,
                found <==> exists|t: int| 0 <= t < k && acts@[t] == action,
            decreases m - k,
        {
            if acts[k] == action {
                found = true;
            }
            k = k + 1;
        }
        if !found {
            return Err(GameError::IllegalAction);
        }
        proof {
            assert(all_color_actions(self.pieces_view(), c).contains(action));
            lemma_apply_legal_preserves_wf(self.pieces_view(), c, action);
        }
        let out: Result<ActionOutcome, crate::resolve::ApplyError> = apply(
            &mut self.pieces,
            action,
        );
        self.state = TurnState::Turn(other_color(c));
        match out {
            Ok(o) => Ok(o),
            Err(_) => {
                // Unreachable: a legal action always finds its subject.
                assert(false);
                Err(GameError::IllegalAction)
            },
        }
    }
}

} // verus!
