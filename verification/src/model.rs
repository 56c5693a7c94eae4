//! The mathematical model of the board.
//!
//! `BoardV` is the abstract value of a `Board`. Every command of the engine
//! is specified by a total function from `BoardV` to `BoardV` paired with
//! the command's result; the executable code is proved to follow these
//! functions exactly, which also makes the engine deterministic: a recorded
//! game replays to the same states.

use vstd::prelude::*;

use crate::game::{Cell, GameAction, GameError, GamePhase, MovementPhaseOrigin, Player, RewardPattern};

verus! {

/// Abstract board state. The grid is a row-major sequence of 25 cells;
/// the six `trig_*` sequences record which pattern instances have ever
/// been awarded since the last full rescan.
#[verifier::ext_equal]
pub struct BoardV {
    pub grid: Seq<Cell>,
    pub current: Player,
    pub phase: GamePhase,
    pub extra_moves: nat,
    pub cap_black: nat,
    pub cap_white: nat,
    pub capture_turn: Player,
    pub origin: MovementPhaseOrigin,
    pub trig_squares: Seq<bool>,
    pub trig_tris: Seq<bool>,
    pub trig_tetras: Seq<bool>,
    pub trig_rows: Seq<bool>,
    pub trig_cols: Seq<bool>,
    pub trig_dragons: Seq<bool>,
    pub record: Seq<GameAction>,
}

// ---------------------------------------------------------------------------
// Coordinates and cells
// ---------------------------------------------------------------------------

pub open spec fn grid_idx(r: int, c: int) -> int {
    r * 5 + c
}

pub open spec fn in_bounds(r: int, c: int) -> bool {
    0 <= r < 5 && 0 <= c < 5
}

pub open spec fn cell_of(g: Seq<Cell>, r: int, c: int) -> Cell {
    g[grid_idx(r, c)]
}

pub open spec fn owned_by(g: Seq<Cell>, r: int, c: int, p: Player) -> bool {
    cell_of(g, r, c) == Cell::Occupied(p)
}

pub open spec fn grid_full(g: Seq<Cell>) -> bool {
    forall|i: int| 0 <= i < 25 ==> g[i] != Cell::Empty
}

/// Decrement clamped at zero, as `usize::saturating_sub(1)` computes it.
pub open spec fn sat_dec(x: int) -> int {
    if x > 0 {
        x - 1
    } else {
        0
    }
}

/// Saturate at `u32::MAX`, as `u32::saturating_add` computes it.
pub open spec fn sat_cap_u32(x: nat) -> nat {
    if x > u32::MAX {
        u32::MAX as nat
    } else {
        x
    }
}

pub open spec fn abs_d(a: int, b: int) -> int {
    if a >= b {
        a - b
    } else {
        b - a
    }
}

/// Orthogonal adjacency: Manhattan distance exactly one.
pub open spec fn adjacent(fr: int, fc: int, tr: int, tc: int) -> bool {
    abs_d(fr, tr) + abs_d(fc, tc) == 1
}

// ---------------------------------------------------------------------------
// Pattern shapes
// ---------------------------------------------------------------------------

pub open spec fn sq_idx(ar: int, ac: int) -> int {
    ar * 4 + ac
}

/// The 2x2 block anchored at (ar, ac) is wholly owned by `p`.
pub open spec fn square_complete(g: Seq<Cell>, ar: int, ac: int, p: Player) -> bool {
    &&& owned_by(g, ar, ac, p)
    &&& owned_by(g, ar, ac + 1, p)
    &&& owned_by(g, ar + 1, ac, p)
    &&& owned_by(g, ar + 1, ac + 1, p)
}

pub open spec fn square_contains(ar: int, ac: int, r: int, c: int) -> bool {
    (r == ar || r == ar + 1) && (c == ac || c == ac + 1)
}

pub open spec fn tri_contains(id: int, r: int, c: int) -> bool {
    if id == 0 {
        (r, c) == (0int, 2int) || (r, c) == (1int, 1int) || (r, c) == (2int, 0int)
    } else if id == 1 {
        (r, c) == (0int, 2int) || (r, c) == (1int, 3int) || (r, c) == (2int, 4int)
    } else if id == 2 {
        (r, c) == (2int, 0int) || (r, c) == (3int, 1int) || (r, c) == (4int, 2int)
    } else if id == 3 {
        (r, c) == (2int, 4int) || (r, c) == (3int, 3int) || (r, c) == (4int, 2int)
    } else {
        false
    }
}

pub open spec fn tri_complete(g: Seq<Cell>, id: int, p: Player) -> bool {
    if id == 0 {
        owned_by(g, 0, 2, p) && owned_by(g, 1, 1, p) && owned_by(g, 2, 0, p)
    } else if id == 1 {
        owned_by(g, 0, 2, p) && owned_by(g, 1, 3, p) && owned_by(g, 2, 4, p)
    } else if id == 2 {
        owned_by(g, 2, 0, p) && owned_by(g, 3, 1, p) && owned_by(g, 4, 2, p)
    } else if id == 3 {
        owned_by(g, 2, 4, p) && owned_by(g, 3, 3, p) && owned_by(g, 4, 2, p)
    } else {
        false
    }
}

pub open spec fn tetra_contains(id: int, r: int, c: int) -> bool {
    if id == 0 {
        (r, c) == (0int, 1int) || (r, c) == (1int, 2int) || (r, c) == (2int, 3int) || (r, c)
            == (3int, 4int)
    } else if id == 1 {
        (r, c) == (0int, 3int) || (r, c) == (1int, 2int) || (r, c) == (2int, 1int) || (r, c)
            == (3int, 0int)
    } else if id == 2 {
        (r, c) == (1int, 0int) || (r, c) == (2int, 1int) || (r, c) == (3int, 2int) || (r, c)
            == (4int, 3int)
    } else if id == 3 {
        (r, c) == (1int, 4int) || (r, c) == (2int, 3int) || (r, c) == (3int, 2int) || (r, c)
            == (4int, 1int)
    } else {
        false
    }
}

pub open spec fn tetra_complete(g: Seq<Cell>, id: int, p: Player) -> bool {
    if id == 0 {
        owned_by(g, 0, 1, p) && owned_by(g, 1, 2, p) && owned_by(g, 2, 3, p) && owned_by(
            g,
            3,
            4,
            p,
        )
    } else if id == 1 {
        owned_by(g, 0, 3, p) && owned_by(g, 1, 2, p) && owned_by(g, 2, 1, p) && owned_by(
            g,
            3,
            0,
            p,
        )
    } else if id == 2 {
        owned_by(g, 1, 0, p) && owned_by(g, 2, 1, p) && owned_by(g, 3, 2, p) && owned_by(
            g,
            4,
            3,
            p,
        )
    } else if id == 3 {
        owned_by(g, 1, 4, p) && owned_by(g, 2, 3, p) && owned_by(g, 3, 2, p) && owned_by(
            g,
            4,
            1,
            p,
        )
    } else {
        false
    }
}

pub open spec fn row_complete(g: Seq<Cell>, r: int, p: Player) -> bool {
    &&& owned_by(g, r, 0, p)
    &&& owned_by(g, r, 1, p)
    &&& owned_by(g, r, 2, p)
    &&& owned_by(g, r, 3, p)
    &&& owned_by(g, r, 4, p)
}

pub open spec fn col_complete(g: Seq<Cell>, c: int, p: Player) -> bool {
    &&& owned_by(g, 0, c, p)
    &&& owned_by(g, 1, c, p)
    &&& owned_by(g, 2, c, p)
    &&& owned_by(g, 3, c, p)
    &&& owned_by(g, 4, c, p)
}

pub open spec fn dragon_contains(id: int, r: int, c: int) -> bool {
    if id == 0 {
        in_bounds(r, c) && r == c
    } else if id == 1 {
        in_bounds(r, c) && r + c == 4
    } else {
        false
    }
}

pub open spec fn dragon_complete(g: Seq<Cell>, id: int, p: Player) -> bool {
    if id == 0 {
        owned_by(g, 0, 0, p) && owned_by(g, 1, 1, p) && owned_by(g, 2, 2, p) && owned_by(
            g,
            3,
            3,
            p,
        ) && owned_by(g, 4, 4, p)
    } else if id == 1 {
        owned_by(g, 0, 4, p) && owned_by(g, 1, 3, p) && owned_by(g, 2, 2, p) && owned_by(
            g,
            3,
            1,
            p,
        ) && owned_by(g, 4, 0, p)
    } else {
        false
    }
}

// ---------------------------------------------------------------------------
// Stones, mobility, protection
// ---------------------------------------------------------------------------

/// Number of `p`'s stones among the first `n` cells of the grid.
pub open spec fn count_pieces_up_to(g: Seq<Cell>, p: Player, n: nat) -> nat
    decreases n,
{
    if n == 0 {
        0
    } else {
        count_pieces_up_to(g, p, (n - 1) as nat) + if g[n - 1] == Cell::Occupied(p) {
            1nat
        } else {
            0nat
        }
    }
}

pub open spec fn count_pieces(g: Seq<Cell>, p: Player) -> nat {
    count_pieces_up_to(g, p, 25)
}

/// Some orthogonal neighbour of (r, c) is an empty point.
pub open spec fn neighbor_empty(g: Seq<Cell>, r: int, c: int) -> bool {
    ||| (r > 0 && cell_of(g, r - 1, c) == Cell::Empty)
    ||| (r < 4 && cell_of(g, r + 1, c) == Cell::Empty)
    ||| (c > 0 && cell_of(g, r, c - 1) == Cell::Empty)
    ||| (c < 4 && cell_of(g, r, c + 1) == Cell::Empty)
}

/// A player can act in the movement phase: at least three stones, and at
/// least one of them borders an empty point.
pub open spec fn has_moves(g: Seq<Cell>, p: Player) -> bool {
    &&& count_pieces(g, p) >= 3
    &&& exists|r: int, c: int|
        in_bounds(r, c) && #[trigger] owned_by(g, r, c, p) && neighbor_empty(g, r, c)
}

/// (r, c) is protected for `p`: it lies on some already-triggered pattern
/// instance that `p` currently owns in full.
pub open spec fn protected_spec(v: BoardV, r: int, c: int, p: Player) -> bool {
    ||| exists|a: int|
        0 <= a < 16 && #[trigger] v.trig_squares[a] && square_complete(v.grid, a / 4, a % 4, p)
            && square_contains(a / 4, a % 4, r, c)
    ||| exists|id: int|
        0 <= id < 4 && #[trigger] v.trig_tris[id] && tri_complete(v.grid, id, p) && tri_contains(
            id,
            r,
            c,
        )
    ||| exists|id: int|
        0 <= id < 4 && #[trigger] v.trig_tetras[id] && tetra_complete(v.grid, id, p)
            && tetra_contains(id, r, c)
    ||| (0 <= r < 5 && v.trig_rows[r] && row_complete(v.grid, r, p))
    ||| (0 <= c < 5 && v.trig_cols[c] && col_complete(v.grid, c, p))
    ||| exists|id: int|
        0 <= id < 2 && #[trigger] v.trig_dragons[id] && dragon_complete(v.grid, id, p)
            && dragon_contains(id, r, c)
}

/// `victim` has at least one stone that is not protected, i.e. the other
/// player has a legal capture target.
pub open spec fn capturable_exists(v: BoardV, victim: Player) -> bool {
    exists|r: int, c: int|
        in_bounds(r, c) && #[trigger] owned_by(v.grid, r, c, victim) && !protected_spec(
            v,
            r,
            c,
            victim,
        )
}

// ---------------------------------------------------------------------------
// Pending captures
// ---------------------------------------------------------------------------

pub open spec fn rem_of(v: BoardV, p: Player) -> nat {
    match p {
        Player::Black => v.cap_black,
        Player::White => v.cap_white,
    }
}

pub open spec fn with_rem(v: BoardV, p: Player, n: nat) -> BoardV {
    match p {
        Player::Black => BoardV { cap_black: n, ..v },
        Player::White => BoardV { cap_white: n, ..v },
    }
}

pub open spec fn cap_sum(v: BoardV) -> nat {
    v.cap_black + v.cap_white
}

// ---------------------------------------------------------------------------
// Reward scans
//
// A scan walks pattern instances in a fixed order and, for each instance
// that is complete for the scanning player and not yet triggered, marks it
// triggered, appends a `Reward` log entry and adds the pattern's bonus.
// ---------------------------------------------------------------------------

pub open spec fn square_step(v: BoardV, n: nat, p: Player, ar: int, ac: int) -> (BoardV, nat) {
    if 0 <= ar < 4 && 0 <= ac < 4 && square_complete(v.grid, ar, ac, p) && !v.trig_squares[sq_idx(
        ar,
        ac,
    )] {
        (
            BoardV {
                trig_squares: v.trig_squares.update(sq_idx(ar, ac), true),
                record: v.record.push(
                    GameAction::Reward {
                        player: p,
                        pattern: RewardPattern::Square { top_left: ((ar as usize), (ac as usize)) },
                    },
                ),
                ..v
            },
            n + 1,
        )
    } else {
        (v, n)
    }
}

/// The four anchors whose square could contain (r, c), in the order the
/// engine probes them.
pub open spec fn scan_squares(v: BoardV, p: Player, r: int, c: int) -> (BoardV, nat) {
    let s0 = square_step(v, 0, p, r, c);
    let s1 = square_step(s0.0, s0.1, p, r, sat_dec(c));
    let s2 = square_step(s1.0, s1.1, p, sat_dec(r), c);
    square_step(s2.0, s2.1, p, sat_dec(r), sat_dec(c))
}

pub open spec fn tri_step(v: BoardV, n: nat, p: Player, id: int) -> (BoardV, nat) {
    if 0 <= id < 4 && tri_complete(v.grid, id, p) && !v.trig_tris[id] {
        (
            BoardV {
                trig_tris: v.trig_tris.update(id, true),
                record: v.record.push(
                    GameAction::Reward {
                        player: p,
                        pattern: RewardPattern::Tri { id: id as usize },
                    },
                ),
                ..v
            },
            n + 1,
        )
    } else {
        (v, n)
    }
}

pub open spec fn scan_tris(v: BoardV, p: Player, k: nat) -> (BoardV, nat)
    decreases k,
{
    if k == 0 {
        (v, 0)
    } else {
        let s = scan_tris(v, p, (k - 1) as nat);
        tri_step(s.0, s.1, p, k - 1)
    }
}

pub open spec fn tri_step_at(v: BoardV, n: nat, p: Player, id: int, r: int, c: int) -> (
    BoardV,
    nat,
) {
    if tri_contains(id, r, c) {
        tri_step(v, n, p, id)
    } else {
        (v, n)
    }
}

pub open spec fn scan_tris_at(v: BoardV, p: Player, k: nat, r: int, c: int) -> (BoardV, nat)
    decreases k,
{
    if k == 0 {
        (v, 0)
    } else {
        let s = scan_tris_at(v, p, (k - 1) as nat, r, c);
        tri_step_at(s.0, s.1, p, k - 1, r, c)
    }
}

pub open spec fn tetra_step(v: BoardV, n: nat, p: Player, id: int) -> (BoardV, nat) {
    if 0 <= id < 4 && tetra_complete(v.grid, id, p) && !v.trig_tetras[id] {
        (
            BoardV {
                trig_tetras: v.trig_tetras.update(id, true),
                record: v.record.push(
                    GameAction::Reward {
                        player: p,
                        pattern: RewardPattern::Tetra { id: id as usize },
                    },
                ),
                ..v
            },
            n + 1,
        )
    } else {
        (v, n)
    }
}

pub open spec fn scan_tetras(v: BoardV, p: Player, k: nat) -> (BoardV, nat)
    decreases k,
{
    if k == 0 {
        (v, 0)
    } else {
        let s = scan_tetras(v, p, (k - 1) as nat);
        tetra_step(s.0, s.1, p, k - 1)
    }
}

pub open spec fn tetra_step_at(v: BoardV, n: nat, p: Player, id: int, r: int, c: int) -> (
    BoardV,
    nat,
) {
    if tetra_contains(id, r, c) {
        tetra_step(v, n, p, id)
    } else {
        (v, n)
    }
}

pub open spec fn scan_tetras_at(v: BoardV, p: Player, k: nat, r: int, c: int) -> (BoardV, nat)
    decreases k,
{
    if k == 0 {
        (v, 0)
    } else {
        let s = scan_tetras_at(v, p, (k - 1) as nat, r, c);
        tetra_step_at(s.0, s.1, p, k - 1, r, c)
    }
}

pub open spec fn row_step(v: BoardV, n: nat, p: Player, r: int) -> (BoardV, nat) {
    if 0 <= r < 5 && row_complete(v.grid, r, p) && !v.trig_rows[r] {
        (
            BoardV {
                trig_rows: v.trig_rows.update(r, true),
                record: v.record.push(
                    GameAction::Reward {
                        player: p,
                        pattern: RewardPattern::Row { index: r as usize },
                    },
                ),
                ..v
            },
            n + 2,
        )
    } else {
        (v, n)
    }
}

pub open spec fn scan_rows(v: BoardV, p: Player, k: nat) -> (BoardV, nat)
    decreases k,
{
    if k == 0 {
        (v, 0)
    } else {
        let s = scan_rows(v, p, (k - 1) as nat);
        row_step(s.0, s.1, p, k - 1)
    }
}

pub open spec fn col_step(v: BoardV, n: nat, p: Player, c: int) -> (BoardV, nat) {
    if 0 <= c < 5 && col_complete(v.grid, c, p) && !v.trig_cols[c] {
        (
            BoardV {
                trig_cols: v.trig_cols.update(c, true),
                record: v.record.push(
                    GameAction::Reward {
                        player: p,
                        pattern: RewardPattern::Col { index: c as usize },
                    },
                ),
                ..v
            },
            n + 2,
        )
    } else {
        (v, n)
    }
}

pub open spec fn scan_cols(v: BoardV, p: Player, k: nat) -> (BoardV, nat)
    decreases k,
{
    if k == 0 {
        (v, 0)
    } else {
        let s = scan_cols(v, p, (k - 1) as nat);
        col_step(s.0, s.1, p, k - 1)
    }
}

pub open spec fn dragon_step(v: BoardV, n: nat, p: Player, id: int) -> (BoardV, nat) {
    if 0 <= id < 2 && dragon_complete(v.grid, id, p) && !v.trig_dragons[id] {
        (
            BoardV {
                trig_dragons: v.trig_dragons.update(id, true),
                record: v.record.push(
                    GameAction::Reward {
                        player: p,
                        pattern: RewardPattern::Dragon { id: id as usize },
                    },
                ),
                ..v
            },
            n + 2,
        )
    } else {
        (v, n)
    }
}

pub open spec fn scan_dragons(v: BoardV, p: Player, k: nat) -> (BoardV, nat)
    decreases k,
{
    if k == 0 {
        (v, 0)
    } else {
        let s = scan_dragons(v, p, (k - 1) as nat);
        dragon_step(s.0, s.1, p, k - 1)
    }
}

pub open spec fn dragon_step_at(v: BoardV, n: nat, p: Player, id: int, r: int, c: int) -> (
    BoardV,
    nat,
) {
    if dragon_contains(id, r, c) {
        dragon_step(v, n, p, id)
    } else {
        (v, n)
    }
}

pub open spec fn scan_dragons_at(v: BoardV, p: Player, k: nat, r: int, c: int) -> (BoardV, nat)
    decreases k,
{
    if k == 0 {
        (v, 0)
    } else {
        let s = scan_dragons_at(v, p, (k - 1) as nat, r, c);
        dragon_step_at(s.0, s.1, p, k - 1, r, c)
    }
}

/// Rewards evaluated after a placement at (r, c): squares localized to the
/// four anchors around the new stone, every other family scanned in full.
pub open spec fn scan_place(v: BoardV, p: Player, r: int, c: int) -> (BoardV, nat) {
    let s1 = scan_squares(v, p, r, c);
    let s2 = scan_tris(s1.0, p, 4);
    let s3 = scan_tetras(s2.0, p, 4);
    let s4 = scan_rows(s3.0, p, 5);
    let s5 = scan_cols(s4.0, p, 5);
    let s6 = scan_dragons(s5.0, p, 2);
    (s6.0, s1.1 + s2.1 + s3.1 + s4.1 + s5.1 + s6.1)
}

/// Rewards evaluated after a move whose destination is (r, c): every family
/// restricted to the instances that contain the destination.
pub open spec fn scan_move(v: BoardV, p: Player, r: int, c: int) -> (BoardV, nat) {
    let s1 = scan_squares(v, p, r, c);
    let s2 = scan_tris_at(s1.0, p, 4, r, c);
    let s3 = scan_tetras_at(s2.0, p, 4, r, c);
    let s4 = row_step(s3.0, 0, p, r);
    let s5 = col_step(s4.0, 0, p, c);
    let s6 = scan_dragons_at(s5.0, p, 2, r, c);
    (s6.0, s1.1 + s2.1 + s3.1 + s4.1 + s5.1 + s6.1)
}

// ---------------------------------------------------------------------------
// Full rescan and capture quotas
// ---------------------------------------------------------------------------

pub open spec fn either_square(g: Seq<Cell>, a: int) -> bool {
    square_complete(g, a / 4, a % 4, Player::Black) || square_complete(
        g,
        a / 4,
        a % 4,
        Player::White,
    )
}

pub open spec fn either_tri(g: Seq<Cell>, id: int) -> bool {
    tri_complete(g, id, Player::Black) || tri_complete(g, id, Player::White)
}

pub open spec fn either_tetra(g: Seq<Cell>, id: int) -> bool {
    tetra_complete(g, id, Player::Black) || tetra_complete(g, id, Player::White)
}

pub open spec fn either_row(g: Seq<Cell>, r: int) -> bool {
    row_complete(g, r, Player::Black) || row_complete(g, r, Player::White)
}

pub open spec fn either_col(g: Seq<Cell>, c: int) -> bool {
    col_complete(g, c, Player::Black) || col_complete(g, c, Player::White)
}

pub open spec fn either_dragon(g: Seq<Cell>, id: int) -> bool {
    dragon_complete(g, id, Player::Black) || dragon_complete(g, id, Player::White)
}

/// Rebuild every triggered set from the current grid alone: an instance is
/// triggered exactly when one of the players owns it in full.
pub open spec fn rescan(v: BoardV) -> BoardV {
    BoardV {
        trig_squares: Seq::new(16, |a: int| either_square(v.grid, a)),
        trig_tris: Seq::new(4, |i: int| either_tri(v.grid, i)),
        trig_tetras: Seq::new(4, |i: int| either_tetra(v.grid, i)),
        trig_rows: Seq::new(5, |i: int| either_row(v.grid, i)),
        trig_cols: Seq::new(5, |i: int| either_col(v.grid, i)),
        trig_dragons: Seq::new(2, |i: int| either_dragon(v.grid, i)),
        ..v
    }
}

pub open spec fn quota_squares(v: BoardV, p: Player, k: nat) -> nat
    decreases k,
{
    if k == 0 {
        0
    } else {
        quota_squares(v, p, (k - 1) as nat) + if v.trig_squares[k - 1] && square_complete(
            v.grid,
            (k - 1) as int / 4,
            (k - 1) as int % 4,
            p,
        ) {
            1nat
        } else {
            0nat
        }
    }
}

pub open spec fn quota_tris(v: BoardV, p: Player, k: nat) -> nat
    decreases k,
{
    if k == 0 {
        0
    } else {
        quota_tris(v, p, (k - 1) as nat) + if v.trig_tris[k - 1] && tri_complete(
            v.grid,
            k - 1,
            p,
        ) {
            1nat
        } else {
            0nat
        }
    }
}

pub open spec fn quota_tetras(v: BoardV, p: Player, k: nat) -> nat
    decreases k,
{
    if k == 0 {
        0
    } else {
        quota_tetras(v, p, (k - 1) as nat) + if v.trig_tetras[k - 1] && tetra_complete(
            v.grid,
            k - 1,
            p,
        ) {
            1nat
        } else {
            0nat
        }
    }
}

pub open spec fn quota_rows(v: BoardV, p: Player, k: nat) -> nat
    decreases k,
{
    if k == 0 {
        0
    } else {
        quota_rows(v, p, (k - 1) as nat) + if v.trig_rows[k - 1] && row_complete(
            v.grid,
            k - 1,
            p,
        ) {
            2nat
        } else {
            0nat
        }
    }
}

pub open spec fn quota_cols(v: BoardV, p: Player, k: nat) -> nat
    decreases k,
{
    if k == 0 {
        0
    } else {
        quota_cols(v, p, (k - 1) as nat) + if v.trig_cols[k - 1] && col_complete(
            v.grid,
            k - 1,
            p,
        ) {
            2nat
        } else {
            0nat
        }
    }
}

pub open spec fn quota_dragons(v: BoardV, p: Player, k: nat) -> nat
    decreases k,
{
    if k == 0 {
        0
    } else {
        quota_dragons(v, p, (k - 1) as nat) + if v.trig_dragons[k - 1] && dragon_complete(
            v.grid,
            k - 1,
            p,
        ) {
            2nat
        } else {
            0nat
        }
    }
}

/// Captures owed to `p` at the start of the capture phase: the summed
/// rewards of every triggered pattern instance `p` currently owns.
pub open spec fn capture_quota(v: BoardV, p: Player) -> nat {
    quota_squares(v, p, 16) + quota_tris(v, p, 4) + quota_tetras(v, p, 4) + quota_rows(v, p, 5)
        + quota_cols(v, p, 5) + quota_dragons(v, p, 2)
}

// ---------------------------------------------------------------------------
// Phase transitions
// ---------------------------------------------------------------------------

pub open spec fn enter_movement(v: BoardV, o: MovementPhaseOrigin) -> BoardV {
    let cur = match o {
        MovementPhaseOrigin::FromPlacement => Player::White,
        MovementPhaseOrigin::FromCapture => v.current,
        MovementPhaseOrigin::FromMovement => v.current.spec_opponent(),
    };
    BoardV { phase: GamePhase::Movement, origin: o, current: cur, ..v }
}

/// Entered when the board fills: triggered sets are rebuilt from the final
/// grid, quotas are pattern-derived, and a side only receives a quota while
/// it has at least one unprotected opposing target. White captures first;
/// with no qualifying side the game skips straight to movement.
pub open spec fn enter_capture(v: BoardV) -> BoardV {
    let vr = rescan(v);
    let qw = if capturable_exists(vr, Player::Black) {
        capture_quota(vr, Player::White)
    } else {
        0nat
    };
    let qb = if capturable_exists(vr, Player::White) {
        capture_quota(vr, Player::Black)
    } else {
        0nat
    };
    let v2 = BoardV { cap_white: qw, cap_black: qb, ..vr };
    if qw > 0 {
        BoardV {
            phase: GamePhase::Capture,
            current: Player::White,
            capture_turn: Player::White,
            ..v2
        }
    } else if qb > 0 {
        BoardV {
            phase: GamePhase::Capture,
            current: Player::Black,
            capture_turn: Player::Black,
            ..v2
        }
    } else {
        enter_movement(v2, MovementPhaseOrigin::FromPlacement)
    }
}

/// Turn policy after one executed capture by `p`: `p` continues while owing
/// with a target; a debt without a target is forfeited; when the total
/// pending count reaches zero the game moves on.
pub open spec fn settle_capture(v: BoardV, p: Player) -> BoardV {
    let o = p.spec_opponent();
    if rem_of(v, p) + rem_of(v, o) == 0 {
        enter_movement(v, MovementPhaseOrigin::FromMovement)
    } else if rem_of(v, p) > 0 && capturable_exists(v, o) {
        v
    } else {
        let v1 = with_rem(v, p, 0);
        if rem_of(v1, o) > 0 && capturable_exists(v1, p) {
            BoardV { current: o, ..v1 }
        } else {
            enter_movement(with_rem(v1, o, 0), MovementPhaseOrigin::FromCapture)
        }
    }
}

// ---------------------------------------------------------------------------
// The three commands
// ---------------------------------------------------------------------------

pub open spec fn spec_place(v: BoardV, r: int, c: int) -> (BoardV, Result<nat, GameError>) {
    if v.phase != GamePhase::Placement {
        (v, Err(GameError::WrongPhase))
    } else if !in_bounds(r, c) {
        (v, Err(GameError::OutOfBounds))
    } else if v.grid[grid_idx(r, c)] != Cell::Empty {
        (v, Err(GameError::Occupied))
    } else {
        let p = v.current;
        let v1 = BoardV {
            grid: v.grid.update(grid_idx(r, c), Cell::Occupied(p)),
            record: v.record.push(
                GameAction::Place { player: p, pos: ((r as usize), (c as usize)) },
            ),
            ..v
        };
        let s = scan_place(v1, p, r, c);
        let em = sat_cap_u32(v.extra_moves + s.1);
        let v3 = if em > 0 {
            BoardV { extra_moves: (em - 1) as nat, ..s.0 }
        } else {
            BoardV { current: p.spec_opponent(), ..s.0 }
        };
        let v4 = if grid_full(v3.grid) {
            enter_capture(v3)
        } else {
            v3
        };
        (v4, Ok(s.1))
    }
}

pub open spec fn spec_capture(v: BoardV, r: int, c: int) -> (BoardV, Result<(), GameError>) {
    if v.phase != GamePhase::Capture {
        (v, Err(GameError::WrongPhase))
    } else {
        let p = v.current;
        let o = p.spec_opponent();
        if rem_of(v, p) == 0 {
            (v, Err(GameError::NoCaptureQuota))
        } else if !in_bounds(r, c) {
            (v, Err(GameError::OutOfBounds))
        } else if protected_spec(v, r, c, o) {
            (v, Err(GameError::ProtectedPiece))
        } else if v.grid[grid_idx(r, c)] == Cell::Occupied(p) {
            (v, Err(GameError::NotOpponentPiece))
        } else if v.grid[grid_idx(r, c)] == Cell::Empty {
            (v, Err(GameError::EmptyCell))
        } else {
            let v1 = with_rem(
                BoardV {
                    grid: v.grid.update(grid_idx(r, c), Cell::Empty),
                    record: v.record.push(
                        GameAction::Capture { player: p, pos: ((r as usize), (c as usize)) },
                    ),
                    ..v
                },
                p,
                (rem_of(v, p) - 1) as nat,
            );
            let v2 = settle_capture(v1, p);
            if v2.phase == GamePhase::Movement && !has_moves(v2.grid, o) {
                (v2, Err(GameError::OpponentImmobilized))
            } else {
                (v2, Ok(()))
            }
        }
    }
}

pub open spec fn spec_move(v: BoardV, fr: int, fc: int, tr: int, tc: int) -> (
    BoardV,
    Result<nat, GameError>,
) {
    if v.phase != GamePhase::Movement {
        (v, Err(GameError::WrongPhase))
    } else if !in_bounds(fr, fc) || !in_bounds(tr, tc) {
        (v, Err(GameError::OutOfBounds))
    } else if v.grid[grid_idx(fr, fc)] == Cell::Empty {
        (v, Err(GameError::EmptyCell))
    } else if v.grid[grid_idx(fr, fc)] != Cell::Occupied(v.current) {
        (v, Err(GameError::NotYourPiece))
    } else if v.grid[grid_idx(tr, tc)] != Cell::Empty {
        (v, Err(GameError::Occupied))
    } else if !adjacent(fr, fc, tr, tc) {
        (v, Err(GameError::NotAdjacent))
    } else {
        let p = v.current;
        let v1 = BoardV {
            grid: v.grid.update(grid_idx(fr, fc), Cell::Empty).update(
                grid_idx(tr, tc),
                Cell::Occupied(p),
            ),
            record: v.record.push(
                GameAction::Move {
                    player: p,
                    from: ((fr as usize), (fc as usize)),
                    to: ((tr as usize), (tc as usize)),
                },
            ),
            ..v
        };
        let s = scan_move(v1, p, tr, tc);
        if s.1 > 0 && capturable_exists(s.0, p.spec_opponent()) {
            (
                BoardV { phase: GamePhase::Capture, capture_turn: p, ..with_rem(s.0, p, s.1) },
                Ok(s.1),
            )
        } else if !has_moves(s.0.grid, p.spec_opponent()) {
            (s.0, Err(GameError::OpponentImmobilized))
        } else {
            (BoardV { current: p.spec_opponent(), ..s.0 }, Ok(0))
        }
    }
}

/// The winner, if the game is decided: a side that has fallen below three
/// stones loses, and in the movement phase a side that cannot move loses.
pub open spec fn spec_winner(v: BoardV) -> Option<Player> {
    if v.phase == GamePhase::Placement {
        Option::None
    } else if count_pieces(v.grid, Player::Black) < 3 {
        Option::Some(Player::White)
    } else if count_pieces(v.grid, Player::White) < 3 {
        Option::Some(Player::Black)
    } else if v.phase == GamePhase::Movement && !has_moves(v.grid, v.current) {
        Option::Some(v.current.spec_opponent())
    } else {
        Option::None
    }
}

/// Whether one concrete pattern instance has been triggered. Out-of-range
/// instance identifiers name no pattern and count as untriggered.
pub open spec fn pattern_triggered_spec(v: BoardV, pat: RewardPattern) -> bool {
    match pat {
        RewardPattern::Square { top_left } => top_left.0 < 4 && top_left.1 < 4
            && v.trig_squares[top_left.0 * 4 + top_left.1],
        RewardPattern::Tri { id } => id < 4 && v.trig_tris[id as int],
        RewardPattern::Tetra { id } => id < 4 && v.trig_tetras[id as int],
        RewardPattern::Row { index } => index < 5 && v.trig_rows[index as int],
        RewardPattern::Col { index } => index < 5 && v.trig_cols[index as int],
        RewardPattern::Dragon { id } => id < 2 && v.trig_dragons[id as int],
    }
}

/// The executable result of a bonus-counting command agrees with the
/// model's result.
pub open spec fn result_nat_matches(r: Result<u32, GameError>, s: Result<nat, GameError>) -> bool {
    match (r, s) {
        (Ok(n), Ok(m)) => n as nat == m,
        (Err(e), Err(f)) => e == f,
        _ => false,
    }
}

/// The state of a fresh game: an empty grid, Black to place.
pub open spec fn init_board() -> BoardV {
    BoardV {
        grid: Seq::new(25, |i: int| Cell::Empty),
        current: Player::Black,
        phase: GamePhase::Placement,
        extra_moves: 0,
        cap_black: 0,
        cap_white: 0,
        capture_turn: Player::Black,
        origin: MovementPhaseOrigin::FromPlacement,
        trig_squares: Seq::new(16, |i: int| false),
        trig_tris: Seq::new(4, |i: int| false),
        trig_tetras: Seq::new(4, |i: int| false),
        trig_rows: Seq::new(5, |i: int| false),
        trig_cols: Seq::new(5, |i: int| false),
        trig_dragons: Seq::new(2, |i: int| false),
        record: Seq::empty(),
    }
}

// ---------------------------------------------------------------------------
// Well-formedness
// ---------------------------------------------------------------------------

/// Every triggered flag is backed by a pattern instance some player owns in
/// full. This holds throughout the placement phase, where stones are never
/// removed, and justifies that the full rescan on entering the capture
/// phase keeps every triggered flag.
pub open spec fn trig_sound(v: BoardV) -> bool {
    &&& forall|a: int| 0 <= a < 16 && #[trigger] v.trig_squares[a] ==> either_square(v.grid, a)
    &&& forall|i: int| 0 <= i < 4 && #[trigger] v.trig_tris[i] ==> either_tri(v.grid, i)
    &&& forall|i: int| 0 <= i < 4 && #[trigger] v.trig_tetras[i] ==> either_tetra(v.grid, i)
    &&& forall|i: int| 0 <= i < 5 && #[trigger] v.trig_rows[i] ==> either_row(v.grid, i)
    &&& forall|i: int| 0 <= i < 5 && #[trigger] v.trig_cols[i] ==> either_col(v.grid, i)
    &&& forall|i: int| 0 <= i < 2 && #[trigger] v.trig_dragons[i] ==> either_dragon(v.grid, i)
}

/// Every pattern instance triggered in `v1` is still triggered in `v2`.
pub open spec fn pattern_subset(v1: BoardV, v2: BoardV) -> bool {
    &&& forall|a: int| 0 <= a < 16 && #[trigger] v1.trig_squares[a] ==> v2.trig_squares[a]
    &&& forall|i: int| 0 <= i < 4 && #[trigger] v1.trig_tris[i] ==> v2.trig_tris[i]
    &&& forall|i: int| 0 <= i < 4 && #[trigger] v1.trig_tetras[i] ==> v2.trig_tetras[i]
    &&& forall|i: int| 0 <= i < 5 && #[trigger] v1.trig_rows[i] ==> v2.trig_rows[i]
    &&& forall|i: int| 0 <= i < 5 && #[trigger] v1.trig_cols[i] ==> v2.trig_cols[i]
    &&& forall|i: int| 0 <= i < 2 && #[trigger] v1.trig_dragons[i] ==> v2.trig_dragons[i]
}

/// Well-formedness of a board value. Beyond the fixed shapes it pins the
/// capture-phase discipline: the game is in the capture phase exactly while
/// captures are pending, and then the player to act owes at least one
/// capture and has a legal target.
pub open spec fn inv(v: BoardV) -> bool {
    &&& v.grid.len() == 25
    &&& v.trig_squares.len() == 16
    &&& v.trig_tris.len() == 4
    &&& v.trig_tetras.len() == 4
    &&& v.trig_rows.len() == 5
    &&& v.trig_cols.len() == 5
    &&& v.trig_dragons.len() == 2
    &&& v.extra_moves <= u32::MAX
    &&& v.cap_black <= u32::MAX
    &&& v.cap_white <= u32::MAX
    &&& (v.phase == GamePhase::Capture <==> cap_sum(v) > 0)
    &&& (v.phase == GamePhase::Capture ==> rem_of(v, v.current) > 0 && capturable_exists(
        v,
        v.current.spec_opponent(),
    ))
    &&& (v.phase == GamePhase::Placement ==> trig_sound(v))
}

/// The fixed shapes of a board value.
pub open spec fn shapes_ok(v: BoardV) -> bool {
    &&& v.grid.len() == 25
    &&& v.trig_squares.len() == 16
    &&& v.trig_tris.len() == 4
    &&& v.trig_tetras.len() == 4
    &&& v.trig_rows.len() == 5
    &&& v.trig_cols.len() == 5
    &&& v.trig_dragons.len() == 2
}

// ---------------------------------------------------------------------------
// Facts about scans
// ---------------------------------------------------------------------------

/// What a reward scan does to a board value: it leaves everything but the
/// triggered sets and the log alone, only adds triggered flags, adds a flag
/// only for a pattern instance some player owns, and only appends `Reward`
/// entries to the log.
pub open spec fn scan_frame(v0: BoardV, v1: BoardV) -> bool {
    &&& v1.grid == v0.grid
    &&& v1.current == v0.current
    &&& v1.phase == v0.phase
    &&& v1.extra_moves == v0.extra_moves
    &&& v1.cap_black == v0.cap_black
    &&& v1.cap_white == v0.cap_white
    &&& v1.capture_turn == v0.capture_turn
    &&& v1.origin == v0.origin
    &&& v1.trig_squares.len() == v0.trig_squares.len()
    &&& v1.trig_tris.len() == v0.trig_tris.len()
    &&& v1.trig_tetras.len() == v0.trig_tetras.len()
    &&& v1.trig_rows.len() == v0.trig_rows.len()
    &&& v1.trig_cols.len() == v0.trig_cols.len()
    &&& v1.trig_dragons.len() == v0.trig_dragons.len()
    &&& pattern_subset(v0, v1)
    &&& (forall|a: int|
        0 <= a < v0.trig_squares.len() && #[trigger] v1.trig_squares[a] && !v0.trig_squares[a]
            ==> either_square(v0.grid, a))
    &&& (forall|i: int|
        0 <= i < v0.trig_tris.len() && #[trigger] v1.trig_tris[i] && !v0.trig_tris[i]
            ==> either_tri(v0.grid, i))
    &&& (forall|i: int|
        0 <= i < v0.trig_tetras.len() && #[trigger] v1.trig_tetras[i] && !v0.trig_tetras[i]
            ==> either_tetra(v0.grid, i))
    &&& (forall|i: int|
        0 <= i < v0.trig_rows.len() && #[trigger] v1.trig_rows[i] && !v0.trig_rows[i]
            ==> either_row(v0.grid, i))
    &&& (forall|i: int|
        0 <= i < v0.trig_cols.len() && #[trigger] v1.trig_cols[i] && !v0.trig_cols[i]
            ==> either_col(v0.grid, i))
    &&& (forall|i: int|
        0 <= i < v0.trig_dragons.len() && #[trigger] v1.trig_dragons[i] && !v0.trig_dragons[i]
            ==> either_dragon(v0.grid, i))
    &&& v0.record.len() <= v1.record.len()
    &&& (forall|i: int| 0 <= i < v0.record.len() ==> #[trigger] v1.record[i] == v0.record[i])
    &&& (forall|i: int|
        v0.record.len() <= i < v1.record.len() ==> #[trigger] v1.record[i] is Reward)
}

pub proof fn lemma_scan_frame_trans(a: BoardV, b: BoardV, c: BoardV)
    requires
        scan_frame(a, b),
        scan_frame(b, c),
    ensures
        scan_frame(a, c),
{
    assert forall|i: int|
        0 <= i < a.trig_squares.len() && #[trigger] c.trig_squares[i]
            && !a.trig_squares[i] implies either_square(a.grid, i) by {
        if b.trig_squares[i] {
        }
    }
    assert forall|i: int|
        0 <= i < a.trig_tris.len() && #[trigger] c.trig_tris[i] && !a.trig_tris[i] implies
        either_tri(a.grid, i) by {
        if b.trig_tris[i] {
        }
    }
    assert forall|i: int|
        0 <= i < a.trig_tetras.len() && #[trigger] c.trig_tetras[i] && !a.trig_tetras[i] implies
        either_tetra(a.grid, i) by {
        if b.trig_tetras[i] {
        }
    }
    assert forall|i: int|
        0 <= i < a.trig_rows.len() && #[trigger] c.trig_rows[i] && !a.trig_rows[i] implies
        either_row(a.grid, i) by {
        if b.trig_rows[i] {
        }
    }
    assert forall|i: int|
        0 <= i < a.trig_cols.len() && #[trigger] c.trig_cols[i] && !a.trig_cols[i] implies
        either_col(a.grid, i) by {
        if b.trig_cols[i] {
        }
    }
    assert forall|i: int|
        0 <= i < a.trig_dragons.len() && #[trigger] c.trig_dragons[i] && !a.trig_dragons[i] implies
        either_dragon(a.grid, i) by {
        if b.trig_dragons[i] {
        }
    }
    assert forall|i: int| a.record.len() <= i < c.record.len() implies #[trigger] c.record[i]
        is Reward by {
        if i < b.record.len() {
            assert(c.record[i] == b.record[i]);
        }
    }
}

pub proof fn lemma_scan_squares_props(v: BoardV, p: Player, r: int, c: int)
    requires
        shapes_ok(v),
    ensures
        ({
            let s = scan_squares(v, p, r, c);
            scan_frame(v, s.0) && shapes_ok(s.0) && s.1 <= 4
        }),
{
    let s0 = square_step(v, 0, p, r, c);
    let s1 = square_step(s0.0, s0.1, p, r, sat_dec(c));
    let s2 = square_step(s1.0, s1.1, p, sat_dec(r), c);
    let s3 = square_step(s2.0, s2.1, p, sat_dec(r), sat_dec(c));
    lemma_square_step_frame(v, 0, p, r, c);
    lemma_square_step_frame(s0.0, s0.1, p, r, sat_dec(c));
    lemma_scan_frame_trans(v, s0.0, s1.0);
    lemma_square_step_frame(s1.0, s1.1, p, sat_dec(r), c);
    lemma_scan_frame_trans(v, s1.0, s2.0);
    lemma_square_step_frame(s2.0, s2.1, p, sat_dec(r), sat_dec(c));
    lemma_scan_frame_trans(v, s2.0, s3.0);
}

proof fn lemma_square_step_frame(v: BoardV, n: nat, p: Player, ar: int, ac: int)
    requires
        shapes_ok(v),
    ensures
        ({
            let s = square_step(v, n, p, ar, ac);
            scan_frame(v, s.0) && shapes_ok(s.0) && n <= s.1 <= n + 1
        }),
{
    let s = square_step(v, n, p, ar, ac);
    if 0 <= ar < 4 && 0 <= ac < 4 && square_complete(v.grid, ar, ac, p) && !v.trig_squares[sq_idx(
        ar,
        ac,
    )] {
        assert(0 <= sq_idx(ar, ac) < 16);
        assert(s.0.trig_squares[sq_idx(ar, ac)]);
        assert(pattern_subset(v, s.0));
    }
}

pub proof fn lemma_scan_tris_props(v: BoardV, p: Player, k: nat)
    requires
        shapes_ok(v),
    ensures
        ({
            let s = scan_tris(v, p, k);
            scan_frame(v, s.0) && shapes_ok(s.0) && s.1 <= k
        }),
    decreases k,
{
    if k == 0 {
    } else {
        lemma_scan_tris_props(v, p, (k - 1) as nat);
        let s = scan_tris(v, p, (k - 1) as nat);
        lemma_tri_step_frame(s.0, s.1, p, k - 1);
        lemma_scan_frame_trans(v, s.0, tri_step(s.0, s.1, p, k - 1).0);
    }
}

proof fn lemma_tri_step_frame(v: BoardV, n: nat, p: Player, id: int)
    requires
        shapes_ok(v),
    ensures
        ({
            let s = tri_step(v, n, p, id);
            scan_frame(v, s.0) && shapes_ok(s.0) && n <= s.1 <= n + 1
        }),
{
    let s = tri_step(v, n, p, id);
    if 0 <= id < 4 && tri_complete(v.grid, id, p) && !v.trig_tris[id] {
        assert(pattern_subset(v, s.0));
    }
}

pub proof fn lemma_scan_tris_at_props(v: BoardV, p: Player, k: nat, r: int, c: int)
    requires
        shapes_ok(v),
    ensures
        ({
            let s = scan_tris_at(v, p, k, r, c);
            scan_frame(v, s.0) && shapes_ok(s.0) && s.1 <= k
        }),
    decreases k,
{
    if k == 0 {
    } else {
        lemma_scan_tris_at_props(v, p, (k - 1) as nat, r, c);
        let s = scan_tris_at(v, p, (k - 1) as nat, r, c);
        if tri_contains(k - 1, r, c) {
            lemma_tri_step_frame(s.0, s.1, p, k - 1);
            lemma_scan_frame_trans(v, s.0, tri_step(s.0, s.1, p, k - 1).0);
        }
    }
}

pub proof fn lemma_scan_tetras_props(v: BoardV, p: Player, k: nat)
    requires
        shapes_ok(v),
    ensures
        ({
            let s = scan_tetras(v, p, k);
            scan_frame(v, s.0) && shapes_ok(s.0) && s.1 <= k
        }),
    decreases k,
{
    if k == 0 {
    } else {
        lemma_scan_tetras_props(v, p, (k - 1) as nat);
        let s = scan_tetras(v, p, (k - 1) as nat);
        lemma_tetra_step_frame(s.0, s.1, p, k - 1);
        lemma_scan_frame_trans(v, s.0, tetra_step(s.0, s.1, p, k - 1).0);
    }
}

proof fn lemma_tetra_step_frame(v: BoardV, n: nat, p: Player, id: int)
    requires
        shapes_ok(v),
    ensures
        ({
            let s = tetra_step(v, n, p, id);
            scan_frame(v, s.0) && shapes_ok(s.0) && n <= s.1 <= n + 1
        }),
{
    let s = tetra_step(v, n, p, id);
    if 0 <= id < 4 && tetra_complete(v.grid, id, p) && !v.trig_tetras[id] {
        assert(pattern_subset(v, s.0));
    }
}

pub proof fn lemma_scan_tetras_at_props(v: BoardV, p: Player, k: nat, r: int, c: int)
    requires
        shapes_ok(v),
    ensures
        ({
            let s = scan_tetras_at(v, p, k, r, c);
            scan_frame(v, s.0) && shapes_ok(s.0) && s.1 <= k
        }),
    decreases k,
{
    if k == 0 {
    } else {
        lemma_scan_tetras_at_props(v, p, (k - 1) as nat, r, c);
        let s = scan_tetras_at(v, p, (k - 1) as nat, r, c);
        if tetra_contains(k - 1, r, c) {
            lemma_tetra_step_frame(s.0, s.1, p, k - 1);
            lemma_scan_frame_trans(v, s.0, tetra_step(s.0, s.1, p, k - 1).0);
        }
    }
}

pub proof fn lemma_row_step_frame(v: BoardV, n: nat, p: Player, r: int)
    requires
        shapes_ok(v),
    ensures
        ({
            let s = row_step(v, n, p, r);
            scan_frame(v, s.0) && shapes_ok(s.0) && n <= s.1 <= n + 2
        }),
{
    let s = row_step(v, n, p, r);
    if 0 <= r < 5 && row_complete(v.grid, r, p) && !v.trig_rows[r] {
        assert(pattern_subset(v, s.0));
    }
}

pub proof fn lemma_scan_rows_props(v: BoardV, p: Player, k: nat)
    requires
        shapes_ok(v),
    ensures
        ({
            let s = scan_rows(v, p, k);
            scan_frame(v, s.0) && shapes_ok(s.0) && s.1 <= 2 * k
        }),
    decreases k,
{
    if k == 0 {
    } else {
        lemma_scan_rows_props(v, p, (k - 1) as nat);
        let s = scan_rows(v, p, (k - 1) as nat);
        lemma_row_step_frame(s.0, s.1, p, k - 1);
        lemma_scan_frame_trans(v, s.0, row_step(s.0, s.1, p, k - 1).0);
    }
}

pub proof fn lemma_col_step_frame(v: BoardV, n: nat, p: Player, c: int)
    requires
        shapes_ok(v),
    ensures
        ({
            let s = col_step(v, n, p, c);
            scan_frame(v, s.0) && shapes_ok(s.0) && n <= s.1 <= n + 2
        }),
{
    let s = col_step(v, n, p, c);
    if 0 <= c < 5 && col_complete(v.grid, c, p) && !v.trig_cols[c] {
        assert(pattern_subset(v, s.0));
    }
}

pub proof fn lemma_scan_cols_props(v: BoardV, p: Player, k: nat)
    requires
        shapes_ok(v),
    ensures
        ({
            let s = scan_cols(v, p, k);
            scan_frame(v, s.0) && shapes_ok(s.0) && s.1 <= 2 * k
        }),
    decreases k,
{
    if k == 0 {
    } else {
        lemma_scan_cols_props(v, p, (k - 1) as nat);
        let s = scan_cols(v, p, (k - 1) as nat);
        lemma_col_step_frame(s.0, s.1, p, k - 1);
        lemma_scan_frame_trans(v, s.0, col_step(s.0, s.1, p, k - 1).0);
    }
}

proof fn lemma_dragon_step_frame(v: BoardV, n: nat, p: Player, id: int)
    requires
        shapes_ok(v),
    ensures
        ({
            let s = dragon_step(v, n, p, id);
            scan_frame(v, s.0) && shapes_ok(s.0) && n <= s.1 <= n + 2
        }),
{
    let s = dragon_step(v, n, p, id);
    if 0 <= id < 2 && dragon_complete(v.grid, id, p) && !v.trig_dragons[id] {
        assert(pattern_subset(v, s.0));
    }
}

pub proof fn lemma_scan_dragons_props(v: BoardV, p: Player, k: nat)
    requires
        shapes_ok(v),
    ensures
        ({
            let s = scan_dragons(v, p, k);
            scan_frame(v, s.0) && shapes_ok(s.0) && s.1 <= 2 * k
        }),
    decreases k,
{
    if k == 0 {
    } else {
        lemma_scan_dragons_props(v, p, (k - 1) as nat);
        let s = scan_dragons(v, p, (k - 1) as nat);
        lemma_dragon_step_frame(s.0, s.1, p, k - 1);
        lemma_scan_frame_trans(v, s.0, dragon_step(s.0, s.1, p, k - 1).0);
    }
}

pub proof fn lemma_scan_dragons_at_props(v: BoardV, p: Player, k: nat, r: int, c: int)
    requires
        shapes_ok(v),
    ensures
        ({
            let s = scan_dragons_at(v, p, k, r, c);
            scan_frame(v, s.0) && shapes_ok(s.0) && s.1 <= 2 * k
        }),
    decreases k,
{
    if k == 0 {
    } else {
        lemma_scan_dragons_at_props(v, p, (k - 1) as nat, r, c);
        let s = scan_dragons_at(v, p, (k - 1) as nat, r, c);
        if dragon_contains(k - 1, r, c) {
            lemma_dragon_step_frame(s.0, s.1, p, k - 1);
            lemma_scan_frame_trans(v, s.0, dragon_step(s.0, s.1, p, k - 1).0);
        }
    }
}

/// A placement scan only adds flags for owned patterns, keeps everything
/// else, and awards at most 36 bonus placements.
pub proof fn lemma_scan_place_props(v: BoardV, p: Player, r: int, c: int)
    requires
        shapes_ok(v),
    ensures
        ({
            let s = scan_place(v, p, r, c);
            scan_frame(v, s.0) && shapes_ok(s.0) && s.1 <= 36
        }),
{
    let s1 = scan_squares(v, p, r, c);
    let s2 = scan_tris(s1.0, p, 4);
    let s3 = scan_tetras(s2.0, p, 4);
    let s4 = scan_rows(s3.0, p, 5);
    let s5 = scan_cols(s4.0, p, 5);
    let s6 = scan_dragons(s5.0, p, 2);
    lemma_scan_squares_props(v, p, r, c);
    lemma_scan_tris_props(s1.0, p, 4);
    lemma_scan_frame_trans(v, s1.0, s2.0);
    lemma_scan_tetras_props(s2.0, p, 4);
    lemma_scan_frame_trans(v, s2.0, s3.0);
    lemma_scan_rows_props(s3.0, p, 5);
    lemma_scan_frame_trans(v, s3.0, s4.0);
    lemma_scan_cols_props(s4.0, p, 5);
    lemma_scan_frame_trans(v, s4.0, s5.0);
    lemma_scan_dragons_props(s5.0, p, 2);
    lemma_scan_frame_trans(v, s5.0, s6.0);
}

/// A movement scan only adds flags for owned patterns, keeps everything
/// else, and awards at most 20 pending captures.
pub proof fn lemma_scan_move_props(v: BoardV, p: Player, r: int, c: int)
    requires
        shapes_ok(v),
    ensures
        ({
            let s = scan_move(v, p, r, c);
            scan_frame(v, s.0) && shapes_ok(s.0) && s.1 <= 20
        }),
{
    let s1 = scan_squares(v, p, r, c);
    let s2 = scan_tris_at(s1.0, p, 4, r, c);
    let s3 = scan_tetras_at(s2.0, p, 4, r, c);
    let s4 = row_step(s3.0, 0, p, r);
    let s5 = col_step(s4.0, 0, p, c);
    let s6 = scan_dragons_at(s5.0, p, 2, r, c);
    lemma_scan_squares_props(v, p, r, c);
    lemma_scan_tris_at_props(s1.0, p, 4, r, c);
    lemma_scan_frame_trans(v, s1.0, s2.0);
    lemma_scan_tetras_at_props(s2.0, p, 4, r, c);
    lemma_scan_frame_trans(v, s2.0, s3.0);
    lemma_row_step_frame(s3.0, 0, p, r);
    lemma_scan_frame_trans(v, s3.0, s4.0);
    lemma_col_step_frame(s4.0, 0, p, c);
    lemma_scan_frame_trans(v, s4.0, s5.0);
    lemma_scan_dragons_at_props(s5.0, p, 2, r, c);
    lemma_scan_frame_trans(v, s5.0, s6.0);
}

// ---------------------------------------------------------------------------
// Frame facts: protection and capturability ignore everything but the grid
// and the triggered sets
// ---------------------------------------------------------------------------

pub proof fn lemma_protected_frame(v1: BoardV, v2: BoardV, r: int, c: int, p: Player)
    requires
        v1.grid == v2.grid,
        v1.trig_squares == v2.trig_squares,
        v1.trig_tris == v2.trig_tris,
        v1.trig_tetras == v2.trig_tetras,
        v1.trig_rows == v2.trig_rows,
        v1.trig_cols == v2.trig_cols,
        v1.trig_dragons == v2.trig_dragons,
    ensures
        protected_spec(v1, r, c, p) == protected_spec(v2, r, c, p),
{
}

pub proof fn lemma_capturable_frame(v1: BoardV, v2: BoardV, victim: Player)
    requires
        v1.grid == v2.grid,
        v1.trig_squares == v2.trig_squares,
        v1.trig_tris == v2.trig_tris,
        v1.trig_tetras == v2.trig_tetras,
        v1.trig_rows == v2.trig_rows,
        v1.trig_cols == v2.trig_cols,
        v1.trig_dragons == v2.trig_dragons,
    ensures
        capturable_exists(v1, victim) == capturable_exists(v2, victim),
{
    assert forall|r: int, c: int|
        in_bounds(r, c) && #[trigger] owned_by(v1.grid, r, c, victim) implies (protected_spec(
        v1,
        r,
        c,
        victim,
    ) == protected_spec(v2, r, c, victim)) by {
        lemma_protected_frame(v1, v2, r, c, victim);
    }
    if capturable_exists(v1, victim) {
        let (r, c) = choose|r: int, c: int|
            in_bounds(r, c) && #[trigger] owned_by(v1.grid, r, c, victim) && !protected_spec(
                v1,
                r,
                c,
                victim,
            );
        assert(owned_by(v2.grid, r, c, victim) && !protected_spec(v2, r, c, victim));
    }
    if capturable_exists(v2, victim) {
        let (r, c) = choose|r: int, c: int|
            in_bounds(r, c) && #[trigger] owned_by(v2.grid, r, c, victim) && !protected_spec(
                v2,
                r,
                c,
                victim,
            );
        assert(owned_by(v1.grid, r, c, victim) && !protected_spec(v1, r, c, victim));
    }
}

/// Filling an empty point never breaks a complete pattern: every pattern
/// instance some player owned in full is still owned in full afterwards.
pub proof fn lemma_either_preserved_by_fill(g: Seq<Cell>, idx: int, p: Player)
    requires
        g.len() == 25,
        0 <= idx < 25,
        g[idx] == Cell::Empty,
    ensures
        forall|a: int|
            0 <= a < 16 && #[trigger] either_square(g, a) ==> either_square(
                g.update(idx, Cell::Occupied(p)),
                a,
            ),
        forall|i: int|
            0 <= i < 4 && #[trigger] either_tri(g, i) ==> either_tri(
                g.update(idx, Cell::Occupied(p)),
                i,
            ),
        forall|i: int|
            0 <= i < 4 && #[trigger] either_tetra(g, i) ==> either_tetra(
                g.update(idx, Cell::Occupied(p)),
                i,
            ),
        forall|i: int|
            0 <= i < 5 && #[trigger] either_row(g, i) ==> either_row(
                g.update(idx, Cell::Occupied(p)),
                i,
            ),
        forall|i: int|
            0 <= i < 5 && #[trigger] either_col(g, i) ==> either_col(
                g.update(idx, Cell::Occupied(p)),
                i,
            ),
        forall|i: int|
            0 <= i < 2 && #[trigger] either_dragon(g, i) ==> either_dragon(
                g.update(idx, Cell::Occupied(p)),
                i,
            ),
{
    let g1 = g.update(idx, Cell::Occupied(p));
    assert forall|r: int, c: int, q: Player|
        in_bounds(r, c) && #[trigger] owned_by(g, r, c, q) implies owned_by(g1, r, c, q) by {
        assert(0 <= grid_idx(r, c) < 25);
        if grid_idx(r, c) == idx {
            assert(false);
        }
    }
}

// ---------------------------------------------------------------------------
// Quota bounds
// ---------------------------------------------------------------------------

pub proof fn lemma_count_pieces_bound(g: Seq<Cell>, p: Player, n: nat)
    ensures
        count_pieces_up_to(g, p, n) <= n,
    decreases n,
{
    if n > 0 {
        lemma_count_pieces_bound(g, p, (n - 1) as nat);
    }
}

pub proof fn lemma_quota_squares_bound(v: BoardV, p: Player, k: nat)
    ensures
        quota_squares(v, p, k) <= k,
    decreases k,
{
    if k > 0 {
        lemma_quota_squares_bound(v, p, (k - 1) as nat);
    }
}

pub proof fn lemma_quota_tris_bound(v: BoardV, p: Player, k: nat)
    ensures
        quota_tris(v, p, k) <= k,
    decreases k,
{
    if k > 0 {
        lemma_quota_tris_bound(v, p, (k - 1) as nat);
    }
}

pub proof fn lemma_quota_tetras_bound(v: BoardV, p: Player, k: nat)
    ensures
        quota_tetras(v, p, k) <= k,
    decreases k,
{
    if k > 0 {
        lemma_quota_tetras_bound(v, p, (k - 1) as nat);
    }
}

pub proof fn lemma_quota_rows_bound(v: BoardV, p: Player, k: nat)
    ensures
        quota_rows(v, p, k) <= 2 * k,
    decreases k,
{
    if k > 0 {
        lemma_quota_rows_bound(v, p, (k - 1) as nat);
    }
}

pub proof fn lemma_quota_cols_bound(v: BoardV, p: Player, k: nat)
    ensures
        quota_cols(v, p, k) <= 2 * k,
    decreases k,
{
    if k > 0 {
        lemma_quota_cols_bound(v, p, (k - 1) as nat);
    }
}

pub proof fn lemma_quota_dragons_bound(v: BoardV, p: Player, k: nat)
    ensures
        quota_dragons(v, p, k) <= 2 * k,
    decreases k,
{
    if k > 0 {
        lemma_quota_dragons_bound(v, p, (k - 1) as nat);
    }
}

pub proof fn lemma_capture_quota_bound(v: BoardV, p: Player)
    ensures
        capture_quota(v, p) <= 48,
{
    lemma_quota_squares_bound(v, p, 16);
    lemma_quota_tris_bound(v, p, 4);
    lemma_quota_tetras_bound(v, p, 4);
    lemma_quota_rows_bound(v, p, 5);
    lemma_quota_cols_bound(v, p, 5);
    lemma_quota_dragons_bound(v, p, 2);
}

} // verus!

