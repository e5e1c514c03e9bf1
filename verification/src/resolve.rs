//! The action resolver: applying a relocation (with combat) or a big
//! piece's self-destruct to the piece collection, and the turn-boundary
//! sweep of pieces flagged pending-deletion.

use vstd::prelude::*;

use crate::board::{piece_ok, pieces_ok, square_in_bounds, Action, Kind, Move, Piece, Square};

verus! {

/// The smaller of the mover's and the defender's health: the amount both
/// sides lose in combat.
pub open spec fn combat_damage(mover: Piece, defender: Piece) -> int {
    if mover.health <= defender.health {
        mover.health as int
    } else {
        defender.health as int
    }
}

/// A piece after losing `dmg` health: flagged pending-deletion when the new
/// health is zero or below.
pub open spec fn struck(p: Piece, dmg: int) -> Piece {
    Piece {
        color: p.color,
        kind: p.kind,
        health: (p.health - dmg) as i8,
        pos: p.pos,
        delete: p.delete || p.health - dmg <= 0,
    }
}

/// The mover after a relocation: it loses `dmg` health (zero when the
/// destination was empty), is flagged when its health ends at zero or
/// below, and stands on `end` regardless — a piece that dies on its own
/// move still completes the relocation and is only swept at the next turn
/// boundary.
pub open spec fn relocated(p: Piece, dmg: int, end: Square) -> Piece {
    Piece {
        color: p.color,
        kind: p.kind,
        health: (p.health - dmg) as i8,
        pos: end,
        delete: p.delete || p.health - dmg <= 0,
    }
}

/// A piece flagged pending-deletion, otherwise unchanged.
pub open spec fn marked(p: Piece) -> Piece {
    Piece { color: p.color, kind: p.kind, health: p.health, pos: p.pos, delete: true }
}

/// The least index at or after `from` whose piece stands exactly on `sq`,
/// skipping the index `excl`; the length when there is none.
pub open spec fn first_at_excluding(s: Seq<Piece>, sq: Square, excl: int, from: int) -> int
    decreases s.len() - from,
{
    if from >= s.len() {
        s.len() as int
    } else if from != excl && s[from].pos == sq {
        from
    } else {
        first_at_excluding(s, sq, excl, from + 1)
    }
}

/// The least index at or after `from` holding a big piece anchored at `sq`;
/// the length when there is none.
pub open spec fn first_big_at(s: Seq<Piece>, sq: Square, from: int) -> int
    decreases s.len() - from,
{
    if from >= s.len() {
        s.len() as int
    } else if s[from].kind is B && s[from].pos == sq {
        from
    } else {
        first_big_at(s, sq, from + 1)
    }
}

/// Pins `first_at_excluding` to `i` when nothing in `[from, i)` matches and
/// `i` itself matches (or is the length).
pub proof fn lemma_first_at_pin(s: Seq<Piece>, sq: Square, excl: int, from: int, i: int)
    requires
        0 <= from <= i <= s.len(),
        forall|k: int| from <= k < i ==> !(k != excl && #[trigger] s[k].pos == sq),
        i < s.len() ==> i != excl && s[i].pos == sq,
    ensures
        first_at_excluding(s, sq, excl, from) == i,
    decreases i - from,
{
    if from < i {
        assert(!(from != excl && s[from].pos == sq));
        lemma_first_at_pin(s, sq, excl, from + 1, i);
    }
}

/// Pins `first_big_at` in the same way.
pub proof fn lemma_first_big_at_pin(s: Seq<Piece>, sq: Square, from: int, i: int)
    requires
        0 <= from <= i <= s.len(),
        forall|k: int| from <= k < i ==> !(#[trigger] s[k].kind is B && s[k].pos == sq),
        i < s.len() ==> s[i].kind is B && s[i].pos == sq,
    ensures
        first_big_at(s, sq, from) == i,
    decreases i - from,
{
    if from < i {
        lemma_first_big_at_pin(s, sq, from + 1, i);
    }
}

/// What `first_at_excluding` returns: an index in range that matches, with
/// nothing matching before it, or the length when nothing matches at all.
pub proof fn lemma_first_at_props(s: Seq<Piece>, sq: Square, excl: int, from: int)
    requires
        0 <= from <= s.len(),
    ensures
        ({
            let r = first_at_excluding(s, sq, excl, from);
            &&& from <= r <= s.len()
            &&& (r < s.len() ==> r != excl && s[r].pos == sq)
            &&& forall|k: int| from <= k < r ==> !(k != excl && #[trigger] s[k].pos == sq)
        }),
    decreases s.len() - from,
{
    if from < s.len() && !(from != excl && s[from].pos == sq) {
        lemma_first_at_props(s, sq, excl, from + 1);
    }
}

/// What `first_big_at` returns, in the same shape.
pub proof fn lemma_first_big_at_props(s: Seq<Piece>, sq: Square, from: int)
    requires
        0 <= from <= s.len(),
    ensures
        ({
            let r = first_big_at(s, sq, from);
            &&& from <= r <= s.len()
            &&& (r < s.len() ==> s[r].kind is B && s[r].pos == sq)
            &&& forall|k: int| from <= k < r ==> !(#[trigger] s[k].kind is B && s[k].pos == sq)
        }),
    decreases s.len() - from,
{
    if from < s.len() && !(s[from].kind is B && s[from].pos == sq) {
        lemma_first_big_at_props(s, sq, from + 1);
    }
}

/// The collection after the relocation `m`: the first piece standing on
/// `m.start` is the mover. If some other piece stands exactly on `m.end`
/// (the first such is the defender), both lose the smaller of the two
/// healths; the mover relocates to `m.end` either way. Without a mover the
/// collection is unchanged.
pub open spec fn apply_move_spec(s: Seq<Piece>, m: Move) -> Seq<Piece> {
    let i = first_at_excluding(s, m.start, -1, 0);
    if i == s.len() {
        s
    } else {
        let j = first_at_excluding(s, m.end, i, 0);
        if j == s.len() {
            s.update(i, relocated(s[i], 0, m.end))
        } else {
            let dmg = combat_damage(s[i], s[j]);
            s.update(j, struck(s[j], dmg)).update(i, relocated(s[i], dmg, m.end))
        }
    }
}

/// The combat damage the relocation `m` deals; zero when the destination
/// holds no other piece or there is no mover.
pub open spec fn move_damage(s: Seq<Piece>, m: Move) -> int {
    let i = first_at_excluding(s, m.start, -1, 0);
    let j = first_at_excluding(s, m.end, i, 0);
    if i == s.len() || j == s.len() {
        0
    } else {
        combat_damage(s[i], s[j])
    }
}

/// Whether `sq` lies on the fixed 12-cell ring immediately surrounding the
/// 2x2 footprint anchored at `anchor`: the border of the enclosing 4x4
/// block.
pub open spec fn on_ring(anchor: Square, sq: Square) -> bool {
    let ar = anchor.rank as int;
    let af = anchor.file as int;
    let sr = sq.rank as int;
    let sf = sq.file as int;
    ||| (sr == ar - 1 && af - 1 <= sf <= af + 2)
    ||| (sr == ar + 2 && af - 1 <= sf <= af + 2)
    ||| ((sr == ar || sr == ar + 1) && (sf == af - 1 || sf == af + 2))
}

/// The twelve ring deltas relative to the anchor, in the order the damage
/// sweep walks them.
pub open spec fn ring_offsets() -> Seq<(int, int)> {
    seq![
        (-1, -1),
        (0, -1),
        (1, -1),
        (2, -1),
        (2, 0),
        (2, 1),
        (2, 2),
        (1, 2),
        (0, 2),
        (-1, 2),
        (-1, 1),
        (-1, 0),
    ]
}

/// The twelve ring cells around `anchor`, as mathematical coordinate pairs
/// (a delta may leave the board, which no piece can occupy).
pub open spec fn ring_cells(anchor: Square) -> Seq<(int, int)> {
    ring_offsets().map_values(|o: (int, int)| (anchor.rank + o.0, anchor.file + o.1))
}

/// The cell lies in the 2x2 footprint anchored at `anchor`.
pub open spec fn cell_in_footprint(anchor: Square, c: (int, int)) -> bool {
    (c.0 == anchor.rank || c.0 == anchor.rank + 1) && (c.1 == anchor.file || c.1 == anchor.file
        + 1)
}

/// The explosion checks exactly 12 cells, all distinct, and none of them
/// lies in the exploding piece's own 2x2 footprint.
pub proof fn lemma_explosion_ring(anchor: Square)
    ensures
        ring_cells(anchor).len() == 12,
        ring_cells(anchor).no_duplicates(),
        forall|k: int|
            0 <= k < 12 ==> !cell_in_footprint(anchor, #[trigger] ring_cells(anchor)[k]),
{
    let ro = ring_offsets();
    let c = ring_cells(anchor);
    assert forall|i: int, j: int| 0 <= i < c.len() && 0 <= j < c.len() && i != j implies c[i]
        != c[j] by {
        assert(ro[i] != ro[j]);
        assert(c[i] == (anchor.rank + ro[i].0, anchor.file + ro[i].1));
        assert(c[j] == (anchor.rank + ro[j].0, anchor.file + ro[j].1));
    }
    assert forall|k: int| 0 <= k < 12 implies !cell_in_footprint(anchor, c[k]) by {
        assert(c[k] == (anchor.rank + ro[k].0, anchor.file + ro[k].1));
        assert(!((ro[k].0 == 0 || ro[k].0 == 1) && (ro[k].1 == 0 || ro[k].1 == 1)));
    }
}

/// A square is on the ring exactly when its coordinates are one of the
/// twelve ring cells.
pub proof fn lemma_on_ring_is_ring_cell(anchor: Square, sq: Square)
    ensures
        on_ring(anchor, sq) <==> ring_cells(anchor).contains((sq.rank as int, sq.file as int)),
{
    let ro = ring_offsets();
    let c = ring_cells(anchor);
    let cell = (sq.rank as int, sq.file as int);
    assert forall|k: int| 0 <= k < 12 implies c[k] == (
        anchor.rank + ro[k].0,
        anchor.file + ro[k].1,
    ) by {}
    if on_ring(anchor, sq) {
        assert(c.contains(cell)) by {
            assert(c[0] == (anchor.rank - 1, anchor.file - 1));
            assert(c[1] == (anchor.rank + 0, anchor.file - 1));
            assert(c[2] == (anchor.rank + 1, anchor.file - 1));
            assert(c[3] == (anchor.rank + 2, anchor.file - 1));
            assert(c[4] == (anchor.rank + 2, anchor.file + 0));
            assert(c[5] == (anchor.rank + 2, anchor.file + 1));
            assert(c[6] == (anchor.rank + 2, anchor.file + 2));
            assert(c[7] == (anchor.rank + 1, anchor.file + 2));
            assert(c[8] == (anchor.rank + 0, anchor.file + 2));
            assert(c[9] == (anchor.rank - 1, anchor.file + 2));
            assert(c[10] == (anchor.rank - 1, anchor.file + 1));
            assert(c[11] == (anchor.rank - 1, anchor.file + 0));
        }
    }
    if c.contains(cell) {
        let k = choose|k: int| 0 <= k < c.len() && c[k] == cell;
        assert(c[k] == (anchor.rank + ro[k].0, anchor.file + ro[k].1));
        assert(on_ring(anchor, sq));
    }
}

/// Every piece on the explosion ring struck for one health; pieces off the
/// ring unchanged.
pub open spec fn ring_struck(s: Seq<Piece>, anchor: Square) -> Seq<Piece> {
    Seq::new(
        s.len(),
        |k: int|
            if on_ring(anchor, s[k].pos) {
                struck(s[k], 1)
            } else {
                s[k]
            },
    )
}

/// The collection after the self-destruct at `sq`: the first big piece
/// anchored there is flagged pending-deletion, every piece on the
/// surrounding 12-cell ring loses one health, and nothing relocates.
/// Without such a big piece the collection is unchanged.
pub open spec fn apply_explosion_spec(s: Seq<Piece>, sq: Square) -> Seq<Piece> {
    let i = first_big_at(s, sq, 0);
    if i == s.len() {
        s
    } else {
        let t = ring_struck(s, sq);
        t.update(i, marked(t[i]))
    }
}

/// The collection after an action.
pub open spec fn apply_action_spec(s: Seq<Piece>, a: Action) -> Seq<Piece> {
    match a {
        Action::Move(m) => apply_move_spec(s, m),
        Action::Explosion(sq) => apply_explosion_spec(s, sq),
    }
}

/// How many of the first `n` pieces stand on the ring around `anchor`.
pub open spec fn ring_hits_upto(s: Seq<Piece>, anchor: Square, n: int) -> nat
    decreases n,
{
    if n <= 0 {
        0nat
    } else {
        ring_hits_upto(s, anchor, n - 1) + (if on_ring(anchor, s[n - 1].pos) {
            1nat
        } else {
            0nat
        })
    }
}

/// How many pieces stand on the ring around `anchor`.
pub open spec fn ring_hits(s: Seq<Piece>, anchor: Square) -> nat {
    ring_hits_upto(s, anchor, s.len() as int)
}

/// How many pieces are flagged pending-deletion.
pub open spec fn flagged_count(s: Seq<Piece>) -> nat
    decreases s.len(),
{
    if s.len() == 0 {
        0nat
    } else {
        flagged_count(s.drop_last()) + (if s.last().delete {
            1nat
        } else {
            0nat
        })
    }
}

/// Pointwise monotone deletion flags give a monotone flag count.
pub proof fn lemma_flagged_count_monotone(a: Seq<Piece>, b: Seq<Piece>)
    requires
        a.len() == b.len(),
        forall|k: int| 0 <= k < a.len() ==> (#[trigger] a[k].delete ==> #[trigger] b[k].delete),
    ensures
        flagged_count(a) <= flagged_count(b),
    decreases a.len(),
{
    if a.len() > 0 {
        lemma_flagged_count_monotone(a.drop_last(), b.drop_last());
    }
}

/// What an applied action reports back: the damage dealt and how many
/// pieces it newly flagged pending-deletion.
#[derive(Clone, Copy, PartialEq, Eq, Structural, Debug)]
pub enum ActionOutcome {
    Moved { damage: i8, deletions: usize },
    Exploded { hits: usize, deletions: usize },
}

/// The outcome an applied action reports: for a relocation the combat
/// damage, for a self-destruct the number of ring cells that held a piece;
/// for both, how many pieces the action newly flagged pending-deletion.
pub open spec fn action_outcome_spec(s: Seq<Piece>, a: Action) -> ActionOutcome {
    match a {
        Action::Move(m) => ActionOutcome::Moved {
            damage: move_damage(s, m) as i8,
            deletions: (flagged_count(apply_move_spec(s, m)) - flagged_count(s)) as usize,
        },
        Action::Explosion(sq) => ActionOutcome::Exploded {
            hits: ring_hits(s, sq) as usize,
            deletions: (flagged_count(apply_explosion_spec(s, sq)) - flagged_count(s)) as usize,
        },
    }
}

/// Why an action could not be applied. An invalid action commits nothing.
#[derive(Clone, Copy, PartialEq, Eq, Structural, Debug)]
pub enum ApplyError {
    /// No piece stands on the relocation's start square.
    MoverNotFound,
    /// No big piece is anchored on the self-destruct's square.
    ExploderNotFound,
}

fn find_piece_at(pieces: &Vec<Piece>, sq: Square) -> (i: usize)
    ensures
        i as int == first_at_excluding(pieces@, sq, -1, 0),
{
    let n: usize = pieces.len();
    let mut i: usize = 0;
    while i < n
        invariant
            n == pieces.len(),
            i <= n,
            forall|k: int| 0 <= k < i ==> !(#[trigger] pieces@[k].pos == sq),
        decreases n - i,
    {
        if pieces[i].pos == sq {
            proof {
                lemma_first_at_pin(pieces@, sq, -1, 0, i as int);
            }
            return i;
        }
        i = i + 1;
    }
    proof {
        lemma_first_at_pin(pieces@, sq, -1, 0, n as int);
    }
    n
}

fn find_other_piece_at(pieces: &Vec<Piece>, sq: Square, excl: usize) -> (i: usize)
    ensures
        i as int == first_at_excluding(pieces@, sq, excl as int, 0),
{
    let n: usize = pieces.len();
    let mut i: usize = 0;
    while i < n
        invariant
            n == pieces.len(),
            i <= n,
            forall|k: int| 0 <= k < i ==> !(k != excl as int && #[trigger] pieces@[k].pos == sq),
        decreases n - i,
    {
        if i != excl && pieces[i].pos == sq {
            proof {
                lemma_first_at_pin(pieces@, sq, excl as int, 0, i as int);
            }
            return i;
        }
        i = i + 1;
    }
    proof {
        lemma_first_at_pin(pieces@, sq, excl as int, 0, n as int);
    }
    n
}

fn find_big_piece_at(pieces: &Vec<Piece>, sq: Square) -> (i: usize)
    ensures
        i as int == first_big_at(pieces@, sq, 0),
{
    let n: usize = pieces.len();
    let mut i: usize = 0;
    while i < n
        invariant
            n == pieces.len(),
            i <= n,
            forall|k: int| 0 <= k < i ==> !(#[trigger] pieces@[k].kind is B && pieces@[k].pos
                == sq),
        decreases n - i,
    {
        let is_big: bool = match pieces[i].kind {
            Kind::B => true,
            _ => false,
        };
        if is_big && pieces[i].pos == sq {
            proof {
                lemma_first_big_at_pin(pieces@, sq, 0, i as int);
            }
            return i;
        }
        i = i + 1;
    }
    proof {
        lemma_first_big_at_pin(pieces@, sq, 0, n as int);
    }
    n
}

/// How many pieces are currently flagged pending-deletion.
pub fn count_flagged(pieces: &Vec<Piece>) -> (n: usize)
    ensures
        n == flagged_count(pieces@),
{
    let len: usize = pieces.len();
    let mut n: usize = 0;
    let mut i: usize = 0;
    while i < len
        invariant
            len == pieces.len(),
            i <= len,
            n <= i,
            n == flagged_count(pieces@.take(i as int)),
        decreases len - i,
    {
        proof {
            assert(pieces@.take(i + 1 as int).drop_last() =~= pieces@.take(i as int));
            assert(pieces@.take(i + 1 as int).last() == pieces@[i as int]);
        }
        if pieces[i].delete {
            n = n + 1;
        }
        i = i + 1;
    }
    proof {
        assert(pieces@.take(len as int) =~= pieces@);
    }
    n
}

/// Whether `sq` lies on the 12-cell ring around `anchor`.
fn square_on_ring(anchor: Square, sq: Square) -> (b: bool)
    requires
        anchor.rank + 2 <= usize::MAX,
        anchor.file + 2 <= usize::MAX,
        sq.rank + 1 <= usize::MAX,
        sq.file + 1 <= usize::MAX,
    ensures
        b == on_ring(anchor, sq),
{
    let rm1: bool = sq.rank + 1 == anchor.rank;
    let r0: bool = sq.rank == anchor.rank;
    let r1: bool = sq.rank == anchor.rank + 1;
    let r2: bool = sq.rank == anchor.rank + 2;
    let fm1: bool = sq.file + 1 == anchor.file;
    let f0: bool = sq.file == anchor.file;
    let f1: bool = sq.file == anchor.file + 1;
    let f2: bool = sq.file == anchor.file + 2;
    ((rm1 || r2) && (fm1 || f0 || f1 || f2)) || ((r0 || r1) && (fm1 || f2))
}

/// Combat symmetry: a relocation onto an occupied destination reduces the
/// mover's and the defender's health by exactly the same amount, the
/// smaller of the two healths.
pub proof fn lemma_combat_symmetry(s: Seq<Piece>, m: Move)
    requires
        pieces_ok(s),
        first_at_excluding(s, m.start, -1, 0) < s.len(),
        first_at_excluding(s, m.end, first_at_excluding(s, m.start, -1, 0), 0) < s.len(),
    ensures
        ({
            let i = first_at_excluding(s, m.start, -1, 0);
            let j = first_at_excluding(s, m.end, i, 0);
            let dmg = combat_damage(s[i], s[j]);
            let new = apply_move_spec(s, m);
            &&& i != j
            &&& new[i].health == s[i].health - dmg
            &&& new[j].health == s[j].health - dmg
            &&& dmg == if s[i].health <= s[j].health {
                s[i].health as int
            } else {
                s[j].health as int
            }
        }),
{
    let i = first_at_excluding(s, m.start, -1, 0);
    lemma_first_at_props(s, m.start, -1, 0);
    lemma_first_at_props(s, m.end, i, 0);
}

/// Applies `action` to the collection, in place. A relocation locates the
/// first piece on its start square, fights the first other piece standing
/// exactly on its end square (both lose the smaller health; either reaching
/// zero or below is flagged), and moves the mover to the end square whatever
/// its resulting health. A self-destruct flags the first big piece anchored
/// on its square and strikes every piece on the surrounding 12-cell ring
/// for one health. An invalid action returns its error and commits nothing.
pub fn apply(pieces: &mut Vec<Piece>, action: Action) -> (r: Result<ActionOutcome, ApplyError>)
    requires
        pieces_ok(old(pieces)@),
    ensures
        match action {
            Action::Move(m) => ({
                let s = old(pieces)@;
                if first_at_excluding(s, m.start, -1, 0) == s.len() {
                    final(pieces)@ == s && r == Err::<ActionOutcome, ApplyError>(ApplyError::MoverNotFound)
                } else {
                    final(pieces)@ == apply_move_spec(s, m) && r == Ok::<ActionOutcome, ApplyError>(
                        action_outcome_spec(s, action),
                    )
                }
            }),
            Action::Explosion(sq) => ({
                let s = old(pieces)@;
                if first_big_at(s, sq, 0) == s.len() {
                    final(pieces)@ == s && r == Err::<ActionOutcome, ApplyError>(
                        ApplyError::ExploderNotFound,
                    )
                } else {
                    final(pieces)@ == apply_explosion_spec(s, sq) && r == Ok::<ActionOutcome, ApplyError>(
                        action_outcome_spec(s, action),
                    )
                }
            }),
        },
{
    let ghost s = pieces@;
    let n: usize = pieces.len();
    match action {
        Action::Move(m) => {
            let i: usize = find_piece_at(pieces, m.start);
            proof {
                lemma_first_at_props(s, m.start, -1, 0);
            }
            if i == n {
                return Err(ApplyError::MoverNotFound);
            }
            let c0: usize = count_flagged(pieces);
            let j: usize = find_other_piece_at(pieces, m.end, i);
            proof {
                lemma_first_at_props(s, m.end, i as int, 0);
            }
            let damage: i8;
            if j == n {
                let mut p: Piece = pieces[i];
                if p.health <= 0 {
                    p.delete = true;
                }
                p.pos = m.end;
                pieces.set(i, p);
                damage = 0;
                proof {
                    assert(p == relocated(s[i as int], 0, m.end));
                    assert(pieces@ =~= apply_move_spec(s, m));
                }
            } else {
                let mover: Piece = pieces[i];
                let defender: Piece = pieces[j];
                let dmg: i8 = if mover.health <= defender.health {
                    mover.health
                } else {
                    defender.health
                };
                let mut d: Piece = defender;
                d.health = d.health - dmg;
                if d.health <= 0 {
                    d.delete = true;
                }
                pieces.set(j, d);
                let mut mv: Piece = mover;
                mv.health = mv.health - dmg;
                if mv.health <= 0 {
                    mv.delete = true;
                }
                mv.pos = m.end;
                pieces.set(i, mv);
                damage = dmg;
                proof {
                    assert(d == struck(s[j as int], dmg as int));
                    assert(mv == relocated(s[i as int], dmg as int, m.end));
                    assert(pieces@ =~= apply_move_spec(s, m));
                }
            }
            proof {
                assert forall|k: int| 0 <= k < s.len() && s[k].delete implies pieces@[k].delete
                by {}
                lemma_flagged_count_monotone(s, pieces@);
            }
            let c1: usize = count_flagged(pieces);
            Ok(ActionOutcome::Moved { damage, deletions: c1 - c0 })
        },
        Action::Explosion(sq) => {
            let i: usize = find_big_piece_at(pieces, sq);
            proof {
                lemma_first_big_at_props(s, sq, 0);
            }
            if i == n {
                return Err(ApplyError::ExploderNotFound);
            }
            let c0: usize = count_flagged(pieces);
            let mut hits: usize = 0;
            let mut k: usize = 0;
            while k < n
                invariant
                    pieces@.len() == n,
                    s.len() == n,
                    pieces_ok(s),
                    k <= n,
                    hits <= k,
                    0 <= i < n,
                    s[i as int].kind is B,
                    s[i as int].pos == sq,
                    forall|t: int| 0 <= t < k ==> pieces@[t] == ring_struck(s, sq)[t],
                    forall|t: int| k <= t < n ==> pieces@[t] == s[t],
                    hits == ring_hits_upto(s, sq, k as int),
                decreases n - k,
            {
                let p: Piece = pieces[k];
                assert(p == s[k as int]);
                assert(piece_ok(s[k as int]));
                assert(piece_ok(s[i as int]));
                if square_on_ring(sq, p.pos) {
                    let mut q: Piece = p;
                    q.health = q.health - 1;
                    if q.health <= 0 {
                        q.delete = true;
                    }
                    pieces.set(k, q);
                    hits = hits + 1;
                    proof {
                        assert(q == struck(s[k as int], 1));
                    }
                }
                k = k + 1;
            }
            let mut ex: Piece = pieces[i];
            ex.delete = true;
            pieces.set(i, ex);
            proof {
                assert(!on_ring(sq, s[i as int].pos));
                assert(ring_struck(s, sq)[i as int] == s[i as int]);
                assert(ex == marked(ring_struck(s, sq)[i as int]));
                assert(pieces@ =~= apply_explosion_spec(s, sq));
                assert forall|t: int| 0 <= t < s.len() && s[t].delete implies pieces@[t].delete
                by {}
                lemma_flagged_count_monotone(s, pieces@);
            }
            let c1: usize = count_flagged(pieces);
            Ok(ActionOutcome::Exploded { hits, deletions: c1 - c0 })
        },
    }
}

/// The collection with every piece flagged pending-deletion removed, in
/// order: the turn-boundary sweep.
pub open spec fn swept(s: Seq<Piece>) -> Seq<Piece> {
    s.filter(|p: Piece| !p.delete)
}

/// Removes every piece flagged pending-deletion, keeping the order of the
/// rest.
pub fn sweep(pieces: &mut Vec<Piece>)
    ensures
        final(pieces)@ == swept(old(pieces)@),
{
    let n: usize = pieces.len();
    let mut kept: Vec<Piece> = Vec::new();
    let mut i: usize = 0;
    while i < n
        invariant
            n == pieces.len(),
            pieces@ == old(pieces)@,
            i <= n,
            kept@ == swept(pieces@.take(i as int)),
        decreases n - i,
    {
        proof {
            reveal(Seq::filter);
            assert(pieces@.take(i + 1 as int).drop_last() =~= pieces@.take(i as int));
            assert(pieces@.take(i + 1 as int).last() == pieces@[i as int]);
        }
        let p: Piece = pieces[i];
        if !p.delete {
            kept.push(p);
        }
        i = i + 1;
    }
    proof {
        assert(pieces@.take(n as int) =~= pieces@);
    }
    *pieces = kept;
}

} // verus!
