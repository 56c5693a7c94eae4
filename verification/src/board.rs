//! The authoritative game state and its command surface.
//!
//! Every mutator is specified by the corresponding transition function of
//! the model (`spec_place`, `spec_capture`, `spec_move`): the new board
//! value and the returned result are exactly what the model computes.

use vstd::prelude::*;

use crate::game::{Cell, GameAction, GameError, GamePhase, MovementPhaseOrigin, Player, RewardPattern};
use crate::model::{
    BoardV, adjacent, cap_sum, capturable_exists, capture_quota, cell_of, col_complete,
    count_pieces, count_pieces_up_to, dragon_complete, dragon_contains, either_col, either_dragon,
    either_row, either_square, either_tetra, either_tri, enter_capture, enter_movement, grid_full,
    grid_idx, has_moves, in_bounds, init_board, inv, neighbor_empty, owned_by, pattern_subset,
    protected_spec, quota_cols, quota_dragons, quota_rows, quota_squares, quota_tetras, quota_tris,
    rem_of, rescan, row_complete, scan_cols, scan_dragons, scan_dragons_at, scan_move, scan_place,
    scan_rows, scan_squares, scan_tetras, scan_tetras_at, scan_tris, scan_tris_at, settle_capture,
    spec_capture, spec_move, spec_place, spec_winner, square_complete, square_contains,
    tetra_complete, tetra_contains, tri_complete, tri_contains, with_rem, shapes_ok, sat_cap_u32,
    square_step, tri_step, tetra_step, row_step, col_step, dragon_step, trig_sound,
    lemma_scan_place_props, lemma_scan_move_props, lemma_capturable_frame,
    lemma_capture_quota_bound, lemma_either_preserved_by_fill, result_nat_matches,
    pattern_triggered_spec,
};

verus! {

/// The 5x5 board together with all phase, capture and log state.
/// Constructed by [`Board::new`] and mutated only through the three
/// commands `place_piece`, `capture_piece` and `move_piece`.
pub struct Board {
    grid: Vec<Cell>,
    current_player: Player,
    phase: GamePhase,
    extra_moves: u32,
    capture_remaining_black: u32,
    capture_remaining_white: u32,
    capture_turn: Player,
    movement_phase_origin: MovementPhaseOrigin,
    triggered_squares: Vec<bool>,
    triggered_tris: Vec<bool>,
    triggered_tetras: Vec<bool>,
    triggered_rows: Vec<bool>,
    triggered_cols: Vec<bool>,
    triggered_dragons: Vec<bool>,
    game_record: Vec<GameAction>,
}

impl View for Board {
    type V = BoardV;

    closed spec fn view(&self) -> BoardV {
        BoardV {
            grid: self.grid@,
            current: self.current_player,
            phase: self.phase,
            extra_moves: self.extra_moves as nat,
            cap_black: self.capture_remaining_black as nat,
            cap_white: self.capture_remaining_white as nat,
            capture_turn: self.capture_turn,
            origin: self.movement_phase_origin,
            trig_squares: self.triggered_squares@,
            trig_tris: self.triggered_tris@,
            trig_tetras: self.triggered_tetras@,
            trig_rows: self.triggered_rows@,
            trig_cols: self.triggered_cols@,
            trig_dragons: self.triggered_dragons@,
            record: self.game_record@,
        }
    }
}

impl Board {
    /// The board is well-formed: its abstract value satisfies the model
    /// invariant.
    pub open spec fn wf(&self) -> bool {
        inv(self@)
    }

    /// The grid has its 25 points.
    pub open spec fn grid_ok(&self) -> bool {
        self@.grid.len() == 25
    }

    /// All backing vectors have their fixed lengths.
    pub open spec fn shaped(&self) -> bool {
        shapes_ok(self@)
    }

    /// A fresh game: empty grid, placement phase, Black to act.
    pub fn new() -> (b: Board)
        ensures
            b.wf(),
            b@ == init_board(),
    {
        let b = Board {
            grid: vec![Cell::Empty; 25],
            current_player: Player::Black,
            phase: GamePhase::Placement,
            extra_moves: 0,
            capture_remaining_black: 0,
            capture_remaining_white: 0,
            capture_turn: Player::Black,
            movement_phase_origin: MovementPhaseOrigin::FromPlacement,
            triggered_squares: vec![false; 16],
            triggered_tris: vec![false; 4],
            triggered_tetras: vec![false; 4],
            triggered_rows: vec![false; 5],
            triggered_cols: vec![false; 5],
            triggered_dragons: vec![false; 2],
            game_record: Vec::new(),
        };
        proof {
            assert(b@ =~= init_board());
        }
        b
    }

    /// Current phase and player to act.
    pub fn get_state(&self) -> (r: (GamePhase, Player))
        ensures
            r.0 == self@.phase,
            r.1 == self@.current,
    {
        (self.phase, self.current_player)
    }

    /// The append-only action log.
    pub fn get_game_record(&self) -> (r: &Vec<GameAction>)
        ensures
            r@ == self@.record,
    {
        &self.game_record
    }

    /// Pending captures owed to `p`.
    pub fn capture_remaining(&self, p: Player) -> (r: u32)
        ensures
            r as nat == rem_of(self@, p),
    {
        match p {
            Player::Black => self.capture_remaining_black,
            Player::White => self.capture_remaining_white,
        }
    }

    /// The player who opened the current capture sub-phase.
    pub fn capture_turn(&self) -> (r: Player)
        ensures
            r == self@.capture_turn,
    {
        self.capture_turn
    }

    /// Bonus placements the current player has still to use.
    pub fn extra_moves(&self) -> (r: u32)
        ensures
            r as nat == self@.extra_moves,
    {
        self.extra_moves
    }

    /// How the movement phase was last entered.
    pub fn movement_phase_origin(&self) -> (r: MovementPhaseOrigin)
        ensures
            r == self@.origin,
    {
        self.movement_phase_origin
    }

    /// The content of the grid point (row, col).
    pub fn cell(&self, row: usize, col: usize) -> (r: Cell)
        requires
            self.grid_ok(),
            row < 5,
            col < 5,
        ensures
            r == cell_of(self@.grid, row as int, col as int),
    {
        self.grid[row * 5 + col]
    }

    /// Every point of the grid is occupied.
    pub fn is_full(&self) -> (r: bool)
        requires
            self.grid_ok(),
        ensures
            r == grid_full(self@.grid),
    {
        let mut i: usize = 0;
        while i < 25
            invariant
                self.grid_ok(),
                i <= 25,
                forall|j: int| 0 <= j < i ==> self@.grid[j] != Cell::Empty,
            decreases 25 - i,
        {
            if self.grid[i] == Cell::Empty {
                return false;
            }
            i += 1;
        }
        true
    }

    /// The 2x2 block anchored at (r, c) is wholly owned by `p`.
    pub fn is_square(&self, r: usize, c: usize, p: Player) -> (b: bool)
        requires
            self.grid_ok(),
            r < 4,
            c < 4,
        ensures
            b == square_complete(self@.grid, r as int, c as int, p),
    {
        self.grid[r * 5 + c] == Cell::Occupied(p) && self.grid[r * 5 + c + 1] == Cell::Occupied(p)
            && self.grid[(r + 1) * 5 + c] == Cell::Occupied(p) && self.grid[(r + 1) * 5 + c + 1]
            == Cell::Occupied(p)
    }

    /// The three-point diagonal `id` is wholly owned by `p`.
    pub fn is_tri(&self, id: usize, p: Player) -> (b: bool)
        requires
            self.grid_ok(),
        ensures
            b == tri_complete(self@.grid, id as int, p),
    {
        match id {
            0 => self.owned_at(0, 2, p) && self.owned_at(1, 1, p) && self.owned_at(2, 0, p),
            1 => self.owned_at(0, 2, p) && self.owned_at(1, 3, p) && self.owned_at(2, 4, p),
            2 => self.owned_at(2, 0, p) && self.owned_at(3, 1, p) && self.owned_at(4, 2, p),
            3 => self.owned_at(2, 4, p) && self.owned_at(3, 3, p) && self.owned_at(4, 2, p),
            _ => false,
        }
    }

    /// The four-point diagonal `id` is wholly owned by `p`.
    pub fn is_tetra(&self, id: usize, p: Player) -> (b: bool)
        requires
            self.grid_ok(),
        ensures
            b == tetra_complete(self@.grid, id as int, p),
    {
        match id {
            0 => self.owned_at(0, 1, p) && self.owned_at(1, 2, p) && self.owned_at(2, 3, p)
                && self.owned_at(3, 4, p),
            1 => self.owned_at(0, 3, p) && self.owned_at(1, 2, p) && self.owned_at(2, 1, p)
                && self.owned_at(3, 0, p),
            2 => self.owned_at(1, 0, p) && self.owned_at(2, 1, p) && self.owned_at(3, 2, p)
                && self.owned_at(4, 3, p),
            3 => self.owned_at(1, 4, p) && self.owned_at(2, 3, p) && self.owned_at(3, 2, p)
                && self.owned_at(4, 1, p),
            _ => false,
        }
    }

    /// Row `r` is wholly owned by `p`.
    pub fn is_row(&self, r: usize, p: Player) -> (b: bool)
        requires
            self.grid_ok(),
            r < 5,
        ensures
            b == row_complete(self@.grid, r as int, p),
    {
        self.owned_at(r, 0, p) && self.owned_at(r, 1, p) && self.owned_at(r, 2, p) && self.owned_at(
            r,
            3,
            p,
        ) && self.owned_at(r, 4, p)
    }

    /// Column `c` is wholly owned by `p`.
    pub fn is_col(&self, c: usize, p: Player) -> (b: bool)
        requires
            self.grid_ok(),
            c < 5,
        ensures
            b == col_complete(self@.grid, c as int, p),
    {
        self.owned_at(0, c, p) && self.owned_at(1, c, p) && self.owned_at(2, c, p) && self.owned_at(
            3,
            c,
            p,
        ) && self.owned_at(4, c, p)
    }

    /// The full diagonal `id` is wholly owned by `p`.
    pub fn is_dragon(&self, id: usize, p: Player) -> (b: bool)
        requires
            self.grid_ok(),
        ensures
            b == dragon_complete(self@.grid, id as int, p),
    {
        match id {
            0 => self.owned_at(0, 0, p) && self.owned_at(1, 1, p) && self.owned_at(2, 2, p)
                && self.owned_at(3, 3, p) && self.owned_at(4, 4, p),
            1 => self.owned_at(0, 4, p) && self.owned_at(1, 3, p) && self.owned_at(2, 2, p)
                && self.owned_at(3, 1, p) && self.owned_at(4, 0, p),
            _ => false,
        }
    }

    fn owned_at(&self, r: usize, c: usize, p: Player) -> (b: bool)
        requires
            self.grid_ok(),
            r < 5,
            c < 5,
        ensures
            b == owned_by(self@.grid, r as int, c as int, p),
    {
        self.grid[r * 5 + c] == Cell::Occupied(p)
    }

    /// The positions of all of `p`'s stones, in row-major order.
    pub fn player_pieces(&self, p: Player) -> (v: Vec<(usize, usize)>)
        requires
            self.grid_ok(),
        ensures
            v@.len() == count_pieces(self@.grid, p),
            forall|k: int|
                0 <= k < v@.len() ==> in_bounds(#[trigger] v@[k].0 as int, v@[k].1 as int)
                    && owned_by(self@.grid, v@[k].0 as int, v@[k].1 as int, p),
            forall|r: int, c: int|
                in_bounds(r, c) && #[trigger] owned_by(self@.grid, r, c, p) ==> v@.contains(
                    ((r as usize), (c as usize)),
                ),
            forall|k: int, l: int|
                0 <= k < l < v@.len() ==> (#[trigger] v@[k]).0 * 5 + v@[k].1 < (
                #[trigger] v@[l]).0 * 5 + v@[l].1,
    {
        let mut v: Vec<(usize, usize)> = Vec::new();
        let mut i: usize = 0;
        while i < 25
            invariant
                self.grid_ok(),
                i <= 25,
                v@.len() == count_pieces_up_to(self@.grid, p, i as nat),
                forall|k: int|
                    0 <= k < v@.len() ==> in_bounds(#[trigger] v@[k].0 as int, v@[k].1 as int)
                        && owned_by(self@.grid, v@[k].0 as int, v@[k].1 as int, p),
                forall|j: int|
                    0 <= j < i && self@.grid[j] == Cell::Occupied(p) ==> v@.contains(
                        (((j / 5) as usize), ((j % 5) as usize)),
                    ),
                forall|k: int| 0 <= k < v@.len() ==> (#[trigger] v@[k]).0 * 5 + v@[k].1 < i,
                forall|k: int, l: int|
                    0 <= k < l < v@.len() ==> (#[trigger] v@[k]).0 * 5 + v@[k].1 < (
                    #[trigger] v@[l]).0 * 5 + v@[l].1,
            decreases 25 - i,
        {
            let ghost old_v = v@;
            if self.grid[i] == Cell::Occupied(p) {
                v.push((i / 5, i % 5));
                proof {
                    assert((i as int / 5) * 5 + (i as int % 5) == i as int) by (nonlinear_arith)
                        requires
                            0 <= i < 25,
                    ;
                    assert(owned_by(self@.grid, i as int / 5, i as int % 5, p));
                    assert(v@[v@.len() - 1] == (((i / 5) as usize), ((i % 5) as usize)));
                    assert(forall|j: int|
                        0 <= j < i && self@.grid[j] == Cell::Occupied(p) ==> old_v.contains(
                            (((j / 5) as usize), ((j % 5) as usize)),
                        ));
                    assert forall|j: int|
                        0 <= j < i + 1 && self@.grid[j] == Cell::Occupied(p) implies v@.contains(
                        (((j / 5) as usize), ((j % 5) as usize)),
                    ) by {
                        if j < i {
                            let pos = (((j / 5) as usize), ((j % 5) as usize));
                            let k = choose|k: int| 0 <= k < old_v.len() && old_v[k] == pos;
                            assert(v@[k] == pos);
                        } else {
                            assert(v@[v@.len() - 1] == (((j / 5) as usize), ((j % 5) as usize)));
                        }
                    }
                }
            }
            i += 1;
        }
        proof {
            assert forall|r: int, c: int|
                in_bounds(r, c) && #[trigger] owned_by(self@.grid, r, c, p) implies v@.contains(
                ((r as usize), (c as usize)),
            ) by {
                let j = r * 5 + c;
                assert(self@.grid[j] == Cell::Occupied(p));
                assert(j / 5 == r && j % 5 == c) by (nonlinear_arith)
                    requires
                        0 <= r < 5 && 0 <= c < 5 && j == r * 5 + c,
                ;
            }
        }
        v
    }

    /// Whether `p` could act in the movement phase: at least three stones
    /// and at least one stone beside an empty point. A player with fewer
    /// than three stones never has a legal move.
    pub fn has_legal_moves(&self, p: Player) -> (b: bool)
        requires
            self.grid_ok(),
        ensures
            b == has_moves(self@.grid, p),
    {
        let pieces = self.player_pieces(p);
        if pieces.len() < 3 {
            return false;
        }
        let mut k: usize = 0;
        while k < pieces.len()
            invariant
                self.grid_ok(),
                k <= pieces.len(),
                count_pieces(self@.grid, p) >= 3,
                forall|j: int|
                    0 <= j < pieces@.len() ==> in_bounds(
                        #[trigger] pieces@[j].0 as int,
                        pieces@[j].1 as int,
                    ) && owned_by(self@.grid, pieces@[j].0 as int, pieces@[j].1 as int, p),
                forall|r: int, c: int|
                    in_bounds(r, c) && #[trigger] owned_by(self@.grid, r, c, p) ==> pieces
                        @.contains(((r as usize), (c as usize))),
                forall|j: int|
                    0 <= j < k ==> !neighbor_empty(
                        self@.grid,
                        #[trigger] pieces@[j].0 as int,
                        pieces@[j].1 as int,
                    ),
            decreases pieces.len() - k,
        {
            let (r, c) = pieces[k];
            if self.neighbor_empty_at(r, c) {
                return true;
            }
            k += 1;
        }
        proof {
            assert forall|r: int, c: int|
                in_bounds(r, c) && #[trigger] owned_by(self@.grid, r, c, p) implies !neighbor_empty(
                self@.grid,
                r,
                c,
            ) by {
                let pos = ((r as usize), (c as usize));
                let j = choose|j: int| 0 <= j < pieces@.len() && pieces@[j] == pos;
                assert(!neighbor_empty(self@.grid, pieces@[j].0 as int, pieces@[j].1 as int));
            }
        }
        false
    }

    fn neighbor_empty_at(&self, r: usize, c: usize) -> (b: bool)
        requires
            self.grid_ok(),
            r < 5,
            c < 5,
        ensures
            b == neighbor_empty(self@.grid, r as int, c as int),
    {
        (r > 0 && self.grid[(r - 1) * 5 + c] == Cell::Empty) || (r < 4 && self.grid[(r + 1) * 5 + c]
            == Cell::Empty) || (c > 0 && self.grid[r * 5 + c - 1] == Cell::Empty) || (c < 4
            && self.grid[r * 5 + c + 1] == Cell::Empty)
    }

    /// The winner, if the game is decided.
    pub fn check_winner(&self) -> (r: Option<Player>)
        requires
            self.wf(),
        ensures
            r == spec_winner(self@),
    {
        if self.phase == GamePhase::Placement {
            return Option::None;
        }
        if self.player_pieces(Player::Black).len() < 3 {
            return Option::Some(Player::White);
        }
        if self.player_pieces(Player::White).len() < 3 {
            return Option::Some(Player::Black);
        }
        if self.phase == GamePhase::Movement && !self.has_legal_moves(self.current_player) {
            return Option::Some(self.current_player.opponent());
        }
        Option::None
    }

    /// The stone at (r, c), if any, is protected for `p`: it lies on a
    /// triggered pattern instance that `p` currently owns in full.
    pub fn is_protected_for(&self, r: usize, c: usize, p: Player) -> (b: bool)
        requires
            self.shaped(),
            r < 5,
            c < 5,
        ensures
            b == protected_spec(self@, r as int, c as int, p),
    {
        let mut a: usize = 0;
        while a < 16
            invariant
                self.shaped(),
                r < 5,
                c < 5,
                a <= 16,
                forall|j: int|
                    0 <= j < a ==> !(#[trigger] self@.trig_squares[j] && square_complete(
                        self@.grid,
                        j / 4,
                        j % 4,
                        p,
                    ) && square_contains(j / 4, j % 4, r as int, c as int)),
            decreases 16 - a,
        {
            let ar = a / 4;
            let ac = a % 4;
            if self.triggered_squares[a] && (r == ar || r == ar + 1) && (c == ac || c == ac + 1)
                && self.is_square(ar, ac, p) {
                proof {
                    assert(self@.trig_squares[a as int] && square_complete(
                        self@.grid,
                        a as int / 4,
                        a as int % 4,
                        p,
                    ) && square_contains(a as int / 4, a as int % 4, r as int, c as int));
                }
                return true;
            }
            a += 1;
        }
        let mut id: usize = 0;
        while id < 4
            invariant
                self.shaped(),
                r < 5,
                c < 5,
                id <= 4,
                forall|j: int|
                    0 <= j < id ==> !(#[trigger] self@.trig_tris[j] && tri_complete(
                        self@.grid,
                        j,
                        p,
                    ) && tri_contains(j, r as int, c as int)),
            decreases 4 - id,
        {
            if self.triggered_tris[id] && tri_has(id, r, c) && self.is_tri(id, p) {
                return true;
            }
            id += 1;
        }
        let mut id2: usize = 0;
        while id2 < 4
            invariant
                self.shaped(),
                r < 5,
                c < 5,
                id2 <= 4,
                forall|j: int|
                    0 <= j < id2 ==> !(#[trigger] self@.trig_tetras[j] && tetra_complete(
                        self@.grid,
                        j,
                        p,
                    ) && tetra_contains(j, r as int, c as int)),
            decreases 4 - id2,
        {
            if self.triggered_tetras[id2] && tetra_has(id2, r, c) && self.is_tetra(id2, p) {
                return true;
            }
            id2 += 1;
        }
        if self.triggered_rows[r] && self.is_row(r, p) {
            return true;
        }
        if self.triggered_cols[c] && self.is_col(c, p) {
            return true;
        }
        let mut id3: usize = 0;
        while id3 < 2
            invariant
                self.shaped(),
                r < 5,
                c < 5,
                id3 <= 2,
                forall|j: int|
                    0 <= j < id3 ==> !(#[trigger] self@.trig_dragons[j] && dragon_complete(
                        self@.grid,
                        j,
                        p,
                    ) && dragon_contains(j, r as int, c as int)),
            decreases 2 - id3,
        {
            if self.triggered_dragons[id3] && dragon_has(id3, r, c) && self.is_dragon(id3, p) {
                return true;
            }
            id3 += 1;
        }
        false
    }

    /// Whether `victim` has at least one unprotected stone, i.e. whether
    /// the other player has a legal capture target.
    pub fn has_capturable_pieces(&self, victim: Player) -> (b: bool)
        requires
            self.shaped(),
        ensures
            b == capturable_exists(self@, victim),
    {
        let mut i: usize = 0;
        while i < 25
            invariant
                self.shaped(),
                i <= 25,
                forall|j: int|
                    0 <= j < i && self@.grid[j] == Cell::Occupied(victim) ==> protected_spec(
                        self@,
                        j / 5,
                        j % 5,
                        victim,
                    ),
            decreases 25 - i,
        {
            if self.grid[i] == Cell::Occupied(victim) {
                if !self.is_protected_for(i / 5, i % 5, victim) {
                    proof {
                        assert((i as int / 5) * 5 + (i as int % 5) == i as int) by (nonlinear_arith)
                            requires
                                0 <= i < 25,
                        ;
                        assert(owned_by(self@.grid, i as int / 5, i as int % 5, victim));
                    }
                    return true;
                }
            }
            i += 1;
        }
        proof {
            assert forall|r: int, c: int|
                in_bounds(r, c) && #[trigger] owned_by(self@.grid, r, c, victim) implies
            protected_spec(self@, r, c, victim) by {
                let j = r * 5 + c;
                assert(j / 5 == r && j % 5 == c) by (nonlinear_arith)
                    requires
                        0 <= r < 5 && 0 <= c < 5 && j == r * 5 + c,
                ;
                assert(self@.grid[j] == Cell::Occupied(victim));
            }
        }
        false
    }

    /// The pattern-derived capture quota of `p`: the summed rewards of every
    /// triggered pattern instance `p` currently owns.
    pub fn calculate_capture_count(&self, p: Player) -> (cnt: u32)
        requires
            self.shaped(),
        ensures
            cnt as nat == capture_quota(self@, p),
            cnt <= 48,
    {
        let mut cnt: u32 = 0;
        let mut a: usize = 0;
        while a < 16
            invariant
                self.shaped(),
                a <= 16,
                cnt <= a,
                cnt as nat == quota_squares(self@, p, a as nat),
            decreases 16 - a,
        {
            if self.triggered_squares[a] && self.is_square(a / 4, a % 4, p) {
                cnt += 1;
            }
            a += 1;
        }
        let ghost b0: nat = cnt as nat;
        let mut id: usize = 0;
        while id < 4
            invariant
                self.shaped(),
                id <= 4,
                cnt <= 16 + id,
                b0 == quota_squares(self@, p, 16),
                cnt as nat == b0 + quota_tris(self@, p, id as nat),
            decreases 4 - id,
        {
            if self.triggered_tris[id] && self.is_tri(id, p) {
                cnt += 1;
            }
            id += 1;
        }
        let ghost b1: nat = cnt as nat;
        let mut id2: usize = 0;
        while id2 < 4
            invariant
                self.shaped(),
                id2 <= 4,
                cnt <= 20 + id2,
                b1 == quota_squares(self@, p, 16) + quota_tris(self@, p, 4),
                cnt as nat == b1 + quota_tetras(self@, p, id2 as nat),
            decreases 4 - id2,
        {
            if self.triggered_tetras[id2] && self.is_tetra(id2, p) {
                cnt += 1;
            }
            id2 += 1;
        }
        let ghost b2: nat = cnt as nat;
        let mut rr: usize = 0;
        while rr < 5
            invariant
                self.shaped(),
                rr <= 5,
                cnt <= 24 + 2 * rr,
                b2 == quota_squares(self@, p, 16) + quota_tris(self@, p, 4) + quota_tetras(
                    self@,
                    p,
                    4,
                ),
                cnt as nat == b2 + quota_rows(self@, p, rr as nat),
            decreases 5 - rr,
        {
            if self.triggered_rows[rr] && self.is_row(rr, p) {
                cnt += 2;
            }
            rr += 1;
        }
        let ghost b3: nat = cnt as nat;
        let mut cc: usize = 0;
        while cc < 5
            invariant
                self.shaped(),
                cc <= 5,
                cnt <= 34 + 2 * cc,
                b3 == quota_squares(self@, p, 16) + quota_tris(self@, p, 4) + quota_tetras(
                    self@,
                    p,
                    4,
                ) + quota_rows(self@, p, 5),
                cnt as nat == b3 + quota_cols(self@, p, cc as nat),
            decreases 5 - cc,
        {
            if self.triggered_cols[cc] && self.is_col(cc, p) {
                cnt += 2;
            }
            cc += 1;
        }
        let ghost b4: nat = cnt as nat;
        let mut dd: usize = 0;
        while dd < 2
            invariant
                self.shaped(),
                dd <= 2,
                cnt <= 44 + 2 * dd,
                b4 == quota_squares(self@, p, 16) + quota_tris(self@, p, 4) + quota_tetras(
                    self@,
                    p,
                    4,
                ) + quota_rows(self@, p, 5) + quota_cols(self@, p, 5),
                cnt as nat == b4 + quota_dragons(self@, p, dd as nat),
            decreases 2 - dd,
        {
            if self.triggered_dragons[dd] && self.is_dragon(dd, p) {
                cnt += 2;
            }
            dd += 1;
        }
        cnt
    }

    /// Rebuild every triggered set from the current grid alone.
    fn rescan_all(&mut self)
        requires
            old(self).shaped(),
        ensures
            final(self).shaped(),
            final(self)@ == rescan(old(self)@),
    {
        let mut sq: Vec<bool> = Vec::new();
        let mut a: usize = 0;
        while a < 16
            invariant
                self.shaped(),
                a <= 16,
                sq@.len() == a,
                forall|j: int| 0 <= j < a ==> sq@[j] == either_square(self@.grid, j),
            decreases 16 - a,
        {
            sq.push(
                self.is_square(a / 4, a % 4, Player::Black) || self.is_square(
                    a / 4,
                    a % 4,
                    Player::White,
                ),
            );
            a += 1;
        }
        let mut tr: Vec<bool> = Vec::new();
        let mut i: usize = 0;
        while i < 4
            invariant
                self.shaped(),
                i <= 4,
                tr@.len() == i,
                forall|j: int| 0 <= j < i ==> tr@[j] == either_tri(self@.grid, j),
            decreases 4 - i,
        {
            tr.push(self.is_tri(i, Player::Black) || self.is_tri(i, Player::White));
            i += 1;
        }
        let mut te: Vec<bool> = Vec::new();
        let mut i2: usize = 0;
        while i2 < 4
            invariant
                self.shaped(),
                i2 <= 4,
                te@.len() == i2,
                forall|j: int| 0 <= j < i2 ==> te@[j] == either_tetra(self@.grid, j),
            decreases 4 - i2,
        {
            te.push(self.is_tetra(i2, Player::Black) || self.is_tetra(i2, Player::White));
            i2 += 1;
        }
        let mut ro: Vec<bool> = Vec::new();
        let mut i3: usize = 0;
        while i3 < 5
            invariant
                self.shaped(),
                i3 <= 5,
                ro@.len() == i3,
                forall|j: int| 0 <= j < i3 ==> ro@[j] == either_row(self@.grid, j),
            decreases 5 - i3,
        {
            ro.push(self.is_row(i3, Player::Black) || self.is_row(i3, Player::White));
            i3 += 1;
        }
        let mut co: Vec<bool> = Vec::new();
        let mut i4: usize = 0;
        while i4 < 5
            invariant
                self.shaped(),
                i4 <= 5,
                co@.len() == i4,
                forall|j: int| 0 <= j < i4 ==> co@[j] == either_col(self@.grid, j),
            decreases 5 - i4,
        {
            co.push(self.is_col(i4, Player::Black) || self.is_col(i4, Player::White));
            i4 += 1;
        }
        let mut dr: Vec<bool> = Vec::new();
        let mut i5: usize = 0;
        while i5 < 2
            invariant
                self.shaped(),
                i5 <= 2,
                dr@.len() == i5,
                forall|j: int| 0 <= j < i5 ==> dr@[j] == either_dragon(self@.grid, j),
            decreases 2 - i5,
        {
            dr.push(self.is_dragon(i5, Player::Black) || self.is_dragon(i5, Player::White));
            i5 += 1;
        }
        self.triggered_squares = sq;
        self.triggered_tris = tr;
        self.triggered_tetras = te;
        self.triggered_rows = ro;
        self.triggered_cols = co;
        self.triggered_dragons = dr;
        proof {
            assert(self@.trig_squares =~= rescan(old(self)@).trig_squares);
            assert(self@.trig_tris =~= rescan(old(self)@).trig_tris);
            assert(self@.trig_tetras =~= rescan(old(self)@).trig_tetras);
            assert(self@.trig_rows =~= rescan(old(self)@).trig_rows);
            assert(self@.trig_cols =~= rescan(old(self)@).trig_cols);
            assert(self@.trig_dragons =~= rescan(old(self)@).trig_dragons);
            assert(self@ =~= rescan(old(self)@));
        }
    }

    fn set_remaining(&mut self, p: Player, n: u32)
        ensures
            final(self)@ == with_rem(old(self)@, p, n as nat),
    {
        match p {
            Player::Black => {
                self.capture_remaining_black = n;
            },
            Player::White => {
                self.capture_remaining_white = n;
            },
        }
        proof {
            assert(self@ =~= with_rem(old(self)@, p, n as nat));
        }
    }

    fn enter_movement_exec(&mut self, o: MovementPhaseOrigin)
        ensures
            final(self)@ == enter_movement(old(self)@, o),
    {
        self.phase = GamePhase::Movement;
        self.movement_phase_origin = o;
        match o {
            MovementPhaseOrigin::FromPlacement => {
                self.current_player = Player::White;
            },
            MovementPhaseOrigin::FromCapture => {},
            MovementPhaseOrigin::FromMovement => {
                self.current_player = self.current_player.opponent();
            },
        }
        proof {
            assert(self@ =~= enter_movement(old(self)@, o));
        }
    }

    /// Leave the placement phase once the board is full: rescan patterns
    /// from the final grid, derive quotas, and hand the turn to the first
    /// qualifying capturer, or skip straight to movement.
    fn enter_capture_exec(&mut self)
        requires
            old(self).shaped(),
        ensures
            final(self).shaped(),
            final(self)@ == enter_capture(old(self)@),
    {
        self.rescan_all();
        let qw = if self.has_capturable_pieces(Player::Black) {
            self.calculate_capture_count(Player::White)
        } else {
            0
        };
        let qb = if self.has_capturable_pieces(Player::White) {
            self.calculate_capture_count(Player::Black)
        } else {
            0
        };
        self.capture_remaining_white = qw;
        self.capture_remaining_black = qb;
        proof {
            let vr = rescan(old(self)@);
            lemma_capturable_frame(self@, vr, Player::Black);
            lemma_capturable_frame(self@, vr, Player::White);
        }
        if qw > 0 {
            self.phase = GamePhase::Capture;
            self.current_player = Player::White;
            self.capture_turn = Player::White;
            proof {
                assert(self@ =~= enter_capture(old(self)@));
            }
        } else if qb > 0 {
            self.phase = GamePhase::Capture;
            self.current_player = Player::Black;
            self.capture_turn = Player::Black;
            proof {
                assert(self@ =~= enter_capture(old(self)@));
            }
        } else {
            self.enter_movement_exec(MovementPhaseOrigin::FromPlacement);
            proof {
                assert(self@ =~= enter_capture(old(self)@));
            }
        }
    }
    /// Place a stone of the current player on the empty point (row, col).
    ///
    /// On success the returned number is the bonus placements earned by
    /// newly completed patterns; the stone is down, the log has grown by
    /// the `Place` entry and one `Reward` entry per new pattern, and the
    /// turn has been consumed (a bonus keeps the turn, otherwise it flips).
    /// When the placement fills the board the game leaves the placement
    /// phase. The exact new state is `spec_place` of the old one; on an
    /// error the board is unchanged. Triggered patterns are never lost.
    pub fn place_piece(&mut self, row: usize, col: usize) -> (res: Result<u32, GameError>)
        requires
            old(self).wf(),
        ensures
            final(self).wf(),
            ({
                let s = spec_place(old(self)@, row as int, col as int);
                final(self)@ == s.0 && result_nat_matches(res, s.1)
            }),
            pattern_subset(old(self)@, final(self)@),
    {
        if self.phase != GamePhase::Placement {
            return Err(GameError::WrongPhase);
        }
        if !(row < 5 && col < 5) {
            return Err(GameError::OutOfBounds);
        }
        if self.grid[row * 5 + col] != Cell::Empty {
            return Err(GameError::Occupied);
        }
        let ghost v0 = self@;
        let p = self.current_player;
        self.grid[row * 5 + col] = Cell::Occupied(p);
        self.game_record.push(GameAction::Place { player: p, pos: (row, col) });
        let ghost v1 = BoardV {
            grid: v0.grid.update(grid_idx(row as int, col as int), Cell::Occupied(p)),
            record: v0.record.push(GameAction::Place { player: p, pos: (row, col) }),
            ..v0
        };
        proof {
            assert(self@ =~= v1);
            lemma_scan_place_props(v1, p, row as int, col as int);
        }
        let extra = self.scan_place_exec(p, row, col);
        let ghost v2 = scan_place(v1, p, row as int, col as int).0;
        let em = self.extra_moves.saturating_add(extra);
        if em > 0 {
            self.extra_moves = em - 1;
        } else {
            self.current_player = p.opponent();
        }
        let ghost v3 = if sat_cap_u32(v0.extra_moves + scan_place(v1, p, row as int, col as int).1)
            > 0 {
            BoardV {
                extra_moves: (sat_cap_u32(
                    v0.extra_moves + scan_place(v1, p, row as int, col as int).1,
                ) - 1) as nat,
                ..v2
            }
        } else {
            BoardV { current: p.spec_opponent(), ..v2 }
        };
        proof {
            assert(self@ =~= v3);
        }
        if self.is_full() {
            self.enter_capture_exec();
        }
        proof {
            let s = spec_place(v0, row as int, col as int);
            assert(self@ == s.0);
            lemma_either_preserved_by_fill(v0.grid, grid_idx(row as int, col as int), p);
            // every pattern triggered before the placement stays triggered
            assert(pattern_subset(v0, v3));
            if grid_full(v3.grid) {
                let vr = rescan(v3);
                assert(pattern_subset(v0, s.0)) by {
                    assert(forall|a: int|
                        0 <= a < 16 && #[trigger] v0.trig_squares[a] ==> either_square(v3.grid, a));
                    assert(forall|i: int|
                        0 <= i < 4 && #[trigger] v0.trig_tris[i] ==> either_tri(v3.grid, i));
                    assert(forall|i: int|
                        0 <= i < 4 && #[trigger] v0.trig_tetras[i] ==> either_tetra(v3.grid, i));
                    assert(forall|i: int|
                        0 <= i < 5 && #[trigger] v0.trig_rows[i] ==> either_row(v3.grid, i));
                    assert(forall|i: int|
                        0 <= i < 5 && #[trigger] v0.trig_cols[i] ==> either_col(v3.grid, i));
                    assert(forall|i: int|
                        0 <= i < 2 && #[trigger] v0.trig_dragons[i] ==> either_dragon(v3.grid, i));
                }
                // the new state is well-formed in each branch of enter_capture
                lemma_capture_quota_bound(vr, Player::White);
                lemma_capture_quota_bound(vr, Player::Black);
                if capturable_exists(vr, Player::Black) && capture_quota(vr, Player::White) > 0 {
                    lemma_capturable_frame(s.0, vr, Player::Black);
                } else if capturable_exists(vr, Player::White) && capture_quota(vr, Player::Black)
                    > 0 {
                    lemma_capturable_frame(s.0, vr, Player::White);
                }
                assert(inv(s.0));
            } else {
                // still placing: soundness of the triggered sets is kept
                assert(trig_sound(s.0));
                assert(inv(s.0));
            }
        }
        Ok(extra)
    }

    /// Remove the opponent stone at (row, col) as one owed capture of the
    /// current player.
    ///
    /// The target must be an unprotected opponent stone and the acting
    /// player must owe at least one capture. Afterwards the acting player
    /// continues while owing with a target; a debt without a target is
    /// forfeited; when no capture is pending the game moves on to the
    /// movement phase. If that leaves the opponent without a legal move the
    /// command reports `OpponentImmobilized`: the action stands and the
    /// acting player has won. The exact new state is `spec_capture` of the
    /// old one; on any other error the board is unchanged. The total
    /// pending count never increases, and triggered patterns are never
    /// lost.
    pub fn capture_piece(&mut self, row: usize, col: usize) -> (res: Result<(), GameError>)
        requires
            old(self).wf(),
        ensures
            final(self).wf(),
            ({
                let s = spec_capture(old(self)@, row as int, col as int);
                final(self)@ == s.0 && res == s.1
            }),
            pattern_subset(old(self)@, final(self)@),
            cap_sum(final(self)@) <= cap_sum(old(self)@),
    {
        if self.phase != GamePhase::Capture {
            return Err(GameError::WrongPhase);
        }
        let p = self.current_player;
        let o = p.opponent();
        let rem = self.capture_remaining(p);
        if rem == 0 {
            return Err(GameError::NoCaptureQuota);
        }
        if !(row < 5 && col < 5) {
            return Err(GameError::OutOfBounds);
        }
        if self.is_protected_for(row, col, o) {
            return Err(GameError::ProtectedPiece);
        }
        let target = self.grid[row * 5 + col];
        if target == Cell::Occupied(p) {
            return Err(GameError::NotOpponentPiece);
        }
        if target == Cell::Empty {
            return Err(GameError::EmptyCell);
        }
        let ghost v0 = self@;
        self.grid[row * 5 + col] = Cell::Empty;
        self.game_record.push(GameAction::Capture { player: p, pos: (row, col) });
        self.set_remaining(p, rem - 1);
        let ghost v1 = with_rem(
            BoardV {
                grid: v0.grid.update(grid_idx(row as int, col as int), Cell::Empty),
                record: v0.record.push(GameAction::Capture { player: p, pos: (row, col) }),
                ..v0
            },
            p,
            (rem_of(v0, p) - 1) as nat,
        );
        proof {
            assert(self@ =~= v1);
        }
        self.settle_capture_exec(p);
        proof {
            let v2 = settle_capture(v1, p);
            assert(self@ == v2);
            // the settled state is well-formed, branch by branch
            if rem_of(v1, p) + rem_of(v1, o) == 0 {
                assert(inv(v2));
            } else if rem_of(v1, p) > 0 && capturable_exists(v1, o) {
                assert(inv(v2));
            } else {
                let w = with_rem(v1, p, 0);
                if rem_of(w, o) > 0 && capturable_exists(w, p) {
                    lemma_capturable_frame(v2, w, p);
                    assert(inv(v2));
                } else {
                    assert(inv(v2));
                }
            }
        }
        if self.phase == GamePhase::Movement && !self.has_legal_moves(o) {
            return Err(GameError::OpponentImmobilized);
        }
        Ok(())
    }

    /// Slide the current player's stone from `from` to the orthogonally
    /// adjacent empty point `to`.
    ///
    /// Rewards are evaluated at the destination against the triggered sets,
    /// so a pattern instance never pays twice. A positive count re-enters
    /// the capture phase with the mover owing that many captures (provided
    /// a target exists; otherwise the quota is forfeited on the spot) and
    /// is returned to the caller as the pending count. With nothing owed,
    /// an opponent left without a legal move means the mover has won,
    /// reported as `OpponentImmobilized` with the move already applied;
    /// otherwise the turn flips. The exact new state is `spec_move` of the
    /// old one; on any other error the board is unchanged. Triggered
    /// patterns are never lost.
    pub fn move_piece(&mut self, from: (usize, usize), to: (usize, usize)) -> (res: Result<
        u32,
        GameError,
    >)
        requires
            old(self).wf(),
        ensures
            final(self).wf(),
            ({
                let s = spec_move(
                    old(self)@,
                    from.0 as int,
                    from.1 as int,
                    to.0 as int,
                    to.1 as int,
                );
                final(self)@ == s.0 && result_nat_matches(res, s.1)
            }),
            pattern_subset(old(self)@, final(self)@),
    {
        if self.phase != GamePhase::Movement {
            return Err(GameError::WrongPhase);
        }
        let (fr, fc) = from;
        let (tr, tc) = to;
        if !(fr < 5 && fc < 5 && tr < 5 && tc < 5) {
            return Err(GameError::OutOfBounds);
        }
        let source = self.grid[fr * 5 + fc];
        if source == Cell::Empty {
            return Err(GameError::EmptyCell);
        }
        if source != Cell::Occupied(self.current_player) {
            return Err(GameError::NotYourPiece);
        }
        if self.grid[tr * 5 + tc] != Cell::Empty {
            return Err(GameError::Occupied);
        }
        let rd = if fr >= tr {
            fr - tr
        } else {
            tr - fr
        };
        let cd = if fc >= tc {
            fc - tc
        } else {
            tc - fc
        };
        if !((rd == 1 && cd == 0) || (rd == 0 && cd == 1)) {
            return Err(GameError::NotAdjacent);
        }
        let ghost v0 = self@;
        let p = self.current_player;
        self.grid[fr * 5 + fc] = Cell::Empty;
        self.grid[tr * 5 + tc] = Cell::Occupied(p);
        self.game_record.push(GameAction::Move { player: p, from: (fr, fc), to: (tr, tc) });
        let ghost v1 = BoardV {
            grid: v0.grid.update(grid_idx(fr as int, fc as int), Cell::Empty).update(
                grid_idx(tr as int, tc as int),
                Cell::Occupied(p),
            ),
            record: v0.record.push(GameAction::Move { player: p, from: (fr, fc), to: (tr, tc) }),
            ..v0
        };
        proof {
            assert(self@ =~= v1);
            lemma_scan_move_props(v1, p, tr as int, tc as int);
        }
        let cnt = self.scan_move_exec(p, tr, tc);
        let ghost v2 = scan_move(v1, p, tr as int, tc as int).0;
        if cnt > 0 && self.has_capturable_pieces(p.opponent()) {
            self.phase = GamePhase::Capture;
            self.set_remaining(p, cnt);
            self.capture_turn = p;
            proof {
                let s = spec_move(v0, fr as int, fc as int, tr as int, tc as int);
                assert(self@ =~= s.0);
                lemma_capturable_frame(s.0, v2, p.spec_opponent());
                assert(inv(s.0));
            }
            return Ok(cnt);
        }
        if !self.has_legal_moves(p.opponent()) {
            proof {
                let s = spec_move(v0, fr as int, fc as int, tr as int, tc as int);
                assert(self@ == s.0);
                assert(inv(s.0));
            }
            return Err(GameError::OpponentImmobilized);
        }
        self.current_player = p.opponent();
        proof {
            let s = spec_move(v0, fr as int, fc as int, tr as int, tc as int);
            assert(self@ =~= s.0);
            assert(inv(s.0));
        }
        Ok(0)
    }

    /// Whether the given pattern instance has been triggered this game.
    pub fn is_pattern_triggered(&self, pattern: &RewardPattern) -> (b: bool)
        requires
            self.shaped(),
        ensures
            b == pattern_triggered_spec(self@, *pattern),
    {
        match *pattern {
            RewardPattern::Square { top_left } => top_left.0 < 4 && top_left.1 < 4
                && self.triggered_squares[top_left.0 * 4 + top_left.1],
            RewardPattern::Tri { id } => id < 4 && self.triggered_tris[id],
            RewardPattern::Tetra { id } => id < 4 && self.triggered_tetras[id],
            RewardPattern::Row { index } => index < 5 && self.triggered_rows[index],
            RewardPattern::Col { index } => index < 5 && self.triggered_cols[index],
            RewardPattern::Dragon { id } => id < 2 && self.triggered_dragons[id],
        }
    }

    /// A deep copy of the whole game state: advisors explore on the copy
    /// and the authoritative board stays untouched.
    pub fn snapshot(&self) -> (b: Board)
        ensures
            b@ == self@,
    {
        let b = Board {
            grid: copy_vec(&self.grid),
            current_player: self.current_player,
            phase: self.phase,
            extra_moves: self.extra_moves,
            capture_remaining_black: self.capture_remaining_black,
            capture_remaining_white: self.capture_remaining_white,
            capture_turn: self.capture_turn,
            movement_phase_origin: self.movement_phase_origin,
            triggered_squares: copy_vec(&self.triggered_squares),
            triggered_tris: copy_vec(&self.triggered_tris),
            triggered_tetras: copy_vec(&self.triggered_tetras),
            triggered_rows: copy_vec(&self.triggered_rows),
            triggered_cols: copy_vec(&self.triggered_cols),
            triggered_dragons: copy_vec(&self.triggered_dragons),
            game_record: copy_vec(&self.game_record),
        };
        proof {
            assert(b@ =~= self@);
        }
        b
    }

    fn square_probe(&mut self, p: Player, ar: usize, ac: usize, extra: u32) -> (r: u32)
        requires
            old(self).shaped(),
            extra <= 40,
        ensures
            final(self).shaped(),
            ({
                let s = square_step(old(self)@, extra as nat, p, ar as int, ac as int);
                final(self)@ == s.0 && r as nat == s.1
            }),
            r <= extra + 1,
    {
        if ar < 4 && ac < 4 {
            if self.is_square(ar, ac, p) && !self.triggered_squares[ar * 4 + ac] {
                self.triggered_squares[ar * 4 + ac] = true;
                self.game_record.push(
                    GameAction::Reward {
                        player: p,
                        pattern: RewardPattern::Square { top_left: (ar, ac) },
                    },
                );
                proof {
                    assert(self@ =~= square_step(
                        old(self)@,
                        extra as nat,
                        p,
                        ar as int,
                        ac as int,
                    ).0);
                }
                return extra + 1;
            }
        }
        extra
    }

    fn tri_probe(&mut self, p: Player, id: usize, extra: u32) -> (r: u32)
        requires
            old(self).shaped(),
            extra <= 40,
        ensures
            final(self).shaped(),
            ({
                let s = tri_step(old(self)@, extra as nat, p, id as int);
                final(self)@ == s.0 && r as nat == s.1
            }),
            r <= extra + 1,
    {
        if id < 4 {
            if self.is_tri(id, p) && !self.triggered_tris[id] {
                self.triggered_tris[id] = true;
                self.game_record.push(
                    GameAction::Reward { player: p, pattern: RewardPattern::Tri { id } },
                );
                proof {
                    assert(self@ =~= tri_step(old(self)@, extra as nat, p, id as int).0);
                }
                return extra + 1;
            }
        }
        extra
    }

    fn tetra_probe(&mut self, p: Player, id: usize, extra: u32) -> (r: u32)
        requires
            old(self).shaped(),
            extra <= 40,
        ensures
            final(self).shaped(),
            ({
                let s = tetra_step(old(self)@, extra as nat, p, id as int);
                final(self)@ == s.0 && r as nat == s.1
            }),
            r <= extra + 1,
    {
        if id < 4 {
            if self.is_tetra(id, p) && !self.triggered_tetras[id] {
                self.triggered_tetras[id] = true;
                self.game_record.push(
                    GameAction::Reward { player: p, pattern: RewardPattern::Tetra { id } },
                );
                proof {
                    assert(self@ =~= tetra_step(old(self)@, extra as nat, p, id as int).0);
                }
                return extra + 1;
            }
        }
        extra
    }

    fn row_probe(&mut self, p: Player, rr: usize, extra: u32) -> (r: u32)
        requires
            old(self).shaped(),
            rr < 5,
            extra <= 40,
        ensures
            final(self).shaped(),
            ({
                let s = row_step(old(self)@, extra as nat, p, rr as int);
                final(self)@ == s.0 && r as nat == s.1
            }),
            r <= extra + 2,
    {
        if self.is_row(rr, p) && !self.triggered_rows[rr] {
            self.triggered_rows[rr] = true;
            self.game_record.push(
                GameAction::Reward { player: p, pattern: RewardPattern::Row { index: rr } },
            );
            proof {
                assert(self@ =~= row_step(old(self)@, extra as nat, p, rr as int).0);
            }
            return extra + 2;
        }
        extra
    }

    fn col_probe(&mut self, p: Player, cc: usize, extra: u32) -> (r: u32)
        requires
            old(self).shaped(),
            cc < 5,
            extra <= 40,
        ensures
            final(self).shaped(),
            ({
                let s = col_step(old(self)@, extra as nat, p, cc as int);
                final(self)@ == s.0 && r as nat == s.1
            }),
            r <= extra + 2,
    {
        if self.is_col(cc, p) && !self.triggered_cols[cc] {
            self.triggered_cols[cc] = true;
            self.game_record.push(
                GameAction::Reward { player: p, pattern: RewardPattern::Col { index: cc } },
            );
            proof {
                assert(self@ =~= col_step(old(self)@, extra as nat, p, cc as int).0);
            }
            return extra + 2;
        }
        extra
    }

    fn dragon_probe(&mut self, p: Player, id: usize, extra: u32) -> (r: u32)
        requires
            old(self).shaped(),
            extra <= 40,
        ensures
            final(self).shaped(),
            ({
                let s = dragon_step(old(self)@, extra as nat, p, id as int);
                final(self)@ == s.0 && r as nat == s.1
            }),
            r <= extra + 2,
    {
        if id < 2 {
            if self.is_dragon(id, p) && !self.triggered_dragons[id] {
                self.triggered_dragons[id] = true;
                self.game_record.push(
                    GameAction::Reward { player: p, pattern: RewardPattern::Dragon { id } },
                );
                proof {
                    assert(self@ =~= dragon_step(old(self)@, extra as nat, p, id as int).0);
                }
                return extra + 2;
            }
        }
        extra
    }

    fn scan_squares_exec(&mut self, p: Player, r: usize, c: usize) -> (extra: u32)
        requires
            old(self).shaped(),
            r < 5,
            c < 5,
        ensures
            final(self).shaped(),
            ({
                let s = scan_squares(old(self)@, p, r as int, c as int);
                final(self)@ == s.0 && extra as nat == s.1
            }),
            extra <= 4,
    {
        let rm = if r > 0 {
            r - 1
        } else {
            0
        };
        let cm = if c > 0 {
            c - 1
        } else {
            0
        };
        let e0 = self.square_probe(p, r, c, 0);
        let e1 = self.square_probe(p, r, cm, e0);
        let e2 = self.square_probe(p, rm, c, e1);
        let e3 = self.square_probe(p, rm, cm, e2);
        e3
    }

    fn scan_tris_exec(&mut self, p: Player) -> (extra: u32)
        requires
            old(self).shaped(),
        ensures
            final(self).shaped(),
            ({
                let s = scan_tris(old(self)@, p, 4);
                final(self)@ == s.0 && extra as nat == s.1
            }),
            extra <= 4,
    {
        let ghost v0 = self@;
        let mut extra: u32 = 0;
        let mut id: usize = 0;
        while id < 4
            invariant
                self.shaped(),
                id <= 4,
                extra <= id,
                ({
                    let s = scan_tris(v0, p, id as nat);
                    self@ == s.0 && extra as nat == s.1
                }),
            decreases 4 - id,
        {
            extra = self.tri_probe(p, id, extra);
            id += 1;
        }
        extra
    }

    fn scan_tris_at_exec(&mut self, p: Player, r: usize, c: usize) -> (extra: u32)
        requires
            old(self).shaped(),
            r < 5,
            c < 5,
        ensures
            final(self).shaped(),
            ({
                let s = scan_tris_at(old(self)@, p, 4, r as int, c as int);
                final(self)@ == s.0 && extra as nat == s.1
            }),
            extra <= 4,
    {
        let ghost v0 = self@;
        let mut extra: u32 = 0;
        let mut id: usize = 0;
        while id < 4
            invariant
                self.shaped(),
                id <= 4,
                r < 5,
                c < 5,
                extra <= id,
                ({
                    let s = scan_tris_at(v0, p, id as nat, r as int, c as int);
                    self@ == s.0 && extra as nat == s.1
                }),
            decreases 4 - id,
        {
            if tri_has(id, r, c) {
                extra = self.tri_probe(p, id, extra);
            }
            id += 1;
        }
        extra
    }

    fn scan_tetras_exec(&mut self, p: Player) -> (extra: u32)
        requires
            old(self).shaped(),
        ensures
            final(self).shaped(),
            ({
                let s = scan_tetras(old(self)@, p, 4);
                final(self)@ == s.0 && extra as nat == s.1
            }),
            extra <= 4,
    {
        let ghost v0 = self@;
        let mut extra: u32 = 0;
        let mut id: usize = 0;
        while id < 4
            invariant
                self.shaped(),
                id <= 4,
                extra <= id,
                ({
                    let s = scan_tetras(v0, p, id as nat);
                    self@ == s.0 && extra as nat == s.1
                }),
            decreases 4 - id,
        {
            extra = self.tetra_probe(p, id, extra);
            id += 1;
        }
        extra
    }

    fn scan_tetras_at_exec(&mut self, p: Player, r: usize, c: usize) -> (extra: u32)
        requires
            old(self).shaped(),
            r < 5,
            c < 5,
        ensures
            final(self).shaped(),
            ({
                let s = scan_tetras_at(old(self)@, p, 4, r as int, c as int);
                final(self)@ == s.0 && extra as nat == s.1
            }),
            extra <= 4,
    {
        let ghost v0 = self@;
        let mut extra: u32 = 0;
        let mut id: usize = 0;
        while id < 4
            invariant
                self.shaped(),
                id <= 4,
                r < 5,
                c < 5,
                extra <= id,
                ({
                    let s = scan_tetras_at(v0, p, id as nat, r as int, c as int);
                    self@ == s.0 && extra as nat == s.1
                }),
            decreases 4 - id,
        {
            if tetra_has(id, r, c) {
                extra = self.tetra_probe(p, id, extra);
            }
            id += 1;
        }
        extra
    }

    fn scan_rows_exec(&mut self, p: Player) -> (extra: u32)
        requires
            old(self).shaped(),
        ensures
            final(self).shaped(),
            ({
                let s = scan_rows(old(self)@, p, 5);
                final(self)@ == s.0 && extra as nat == s.1
            }),
            extra <= 10,
    {
        let ghost v0 = self@;
        let mut extra: u32 = 0;
        let mut rr: usize = 0;
        while rr < 5
            invariant
                self.shaped(),
                rr <= 5,
                extra <= 2 * rr,
                ({
                    let s = scan_rows(v0, p, rr as nat);
                    self@ == s.0 && extra as nat == s.1
                }),
            decreases 5 - rr,
        {
            extra = self.row_probe(p, rr, extra);
            rr += 1;
        }
        extra
    }

    fn scan_cols_exec(&mut self, p: Player) -> (extra: u32)
        requires
            old(self).shaped(),
        ensures
            final(self).shaped(),
            ({
                let s = scan_cols(old(self)@, p, 5);
                final(self)@ == s.0 && extra as nat == s.1
            }),
            extra <= 10,
    {
        let ghost v0 = self@;
        let mut extra: u32 = 0;
        let mut cc: usize = 0;
        while cc < 5
            invariant
                self.shaped(),
                cc <= 5,
                extra <= 2 * cc,
                ({
                    let s = scan_cols(v0, p, cc as nat);
                    self@ == s.0 && extra as nat == s.1
                }),
            decreases 5 - cc,
        {
            extra = self.col_probe(p, cc, extra);
            cc += 1;
        }
        extra
    }

    fn scan_dragons_exec(&mut self, p: Player) -> (extra: u32)
        requires
            old(self).shaped(),
        ensures
            final(self).shaped(),
            ({
                let s = scan_dragons(old(self)@, p, 2);
                final(self)@ == s.0 && extra as nat == s.1
            }),
            extra <= 4,
    {
        let ghost v0 = self@;
        let mut extra: u32 = 0;
        let mut id: usize = 0;
        while id < 2
            invariant
                self.shaped(),
                id <= 2,
                extra <= 2 * id,
                ({
                    let s = scan_dragons(v0, p, id as nat);
                    self@ == s.0 && extra as nat == s.1
                }),
            decreases 2 - id,
        {
            extra = self.dragon_probe(p, id, extra);
            id += 1;
        }
        extra
    }

    fn scan_dragons_at_exec(&mut self, p: Player, r: usize, c: usize) -> (extra: u32)
        requires
            old(self).shaped(),
            r < 5,
            c < 5,
        ensures
            final(self).shaped(),
            ({
                let s = scan_dragons_at(old(self)@, p, 2, r as int, c as int);
                final(self)@ == s.0 && extra as nat == s.1
            }),
            extra <= 4,
    {
        let ghost v0 = self@;
        let mut extra: u32 = 0;
        let mut id: usize = 0;
        while id < 2
            invariant
                self.shaped(),
                id <= 2,
                r < 5,
                c < 5,
                extra <= 2 * id,
                ({
                    let s = scan_dragons_at(v0, p, id as nat, r as int, c as int);
                    self@ == s.0 && extra as nat == s.1
                }),
            decreases 2 - id,
        {
            if dragon_has(id, r, c) {
                extra = self.dragon_probe(p, id, extra);
            }
            id += 1;
        }
        extra
    }

    fn scan_place_exec(&mut self, p: Player, r: usize, c: usize) -> (extra: u32)
        requires
            old(self).shaped(),
            r < 5,
            c < 5,
        ensures
            final(self).shaped(),
            ({
                let s = scan_place(old(self)@, p, r as int, c as int);
                final(self)@ == s.0 && extra as nat == s.1
            }),
            extra <= 36,
    {
        let e1 = self.scan_squares_exec(p, r, c);
        let e2 = self.scan_tris_exec(p);
        let e3 = self.scan_tetras_exec(p);
        let e4 = self.scan_rows_exec(p);
        let e5 = self.scan_cols_exec(p);
        let e6 = self.scan_dragons_exec(p);
        e1 + e2 + e3 + e4 + e5 + e6
    }

    fn scan_move_exec(&mut self, p: Player, r: usize, c: usize) -> (cnt: u32)
        requires
            old(self).shaped(),
            r < 5,
            c < 5,
        ensures
            final(self).shaped(),
            ({
                let s = scan_move(old(self)@, p, r as int, c as int);
                final(self)@ == s.0 && cnt as nat == s.1
            }),
            cnt <= 20,
    {
        let e1 = self.scan_squares_exec(p, r, c);
        let e2 = self.scan_tris_at_exec(p, r, c);
        let e3 = self.scan_tetras_at_exec(p, r, c);
        let e4 = self.row_probe(p, r, 0);
        let e5 = self.col_probe(p, c, 0);
        let e6 = self.scan_dragons_at_exec(p, r, c);
        e1 + e2 + e3 + e4 + e5 + e6
    }

    fn settle_capture_exec(&mut self, p: Player)
        requires
            old(self).shaped(),
        ensures
            final(self).shaped(),
            final(self)@ == settle_capture(old(self)@, p),
    {
        let o = p.opponent();
        let rp = self.capture_remaining(p);
        let ro = self.capture_remaining(o);
        if rp == 0 && ro == 0 {
            self.enter_movement_exec(MovementPhaseOrigin::FromMovement);
            return;
        }
        if rp > 0 && self.has_capturable_pieces(o) {
            return;
        }
        self.set_remaining(p, 0);
        if self.capture_remaining(o) > 0 && self.has_capturable_pieces(p) {
            self.current_player = o;
            proof {
                assert(self@ =~= settle_capture(old(self)@, p));
            }
            return;
        }
        self.set_remaining(o, 0);
        self.enter_movement_exec(MovementPhaseOrigin::FromCapture);
        proof {
            assert(self@ =~= settle_capture(old(self)@, p));
        }
    }
}

fn copy_vec<T: Copy>(v: &Vec<T>) -> (r: Vec<T>)
    ensures
        r@ == v@,
{
    let mut r: Vec<T> = Vec::new();
    let mut i: usize = 0;
    while i < v.len()
        invariant
            i <= v@.len(),
            r@.len() == i,
            forall|j: int| 0 <= j < i ==> r@[j] == v@[j],
        decreases v@.len() - i,
    {
        r.push(v[i]);
        i += 1;
    }
    proof {
        assert(r@ =~= v@);
    }
    r
}

fn tri_has(id: usize, r: usize, c: usize) -> (b: bool)
    ensures
        b == tri_contains(id as int, r as int, c as int),
{
    match id {
        0 => (r == 0 && c == 2) || (r == 1 && c == 1) || (r == 2 && c == 0),
        1 => (r == 0 && c == 2) || (r == 1 && c == 3) || (r == 2 && c == 4),
        2 => (r == 2 && c == 0) || (r == 3 && c == 1) || (r == 4 && c == 2),
        3 => (r == 2 && c == 4) || (r == 3 && c == 3) || (r == 4 && c == 2),
        _ => false,
    }
}

fn tetra_has(id: usize, r: usize, c: usize) -> (b: bool)
    ensures
        b == tetra_contains(id as int, r as int, c as int),
{
    match id {
        0 => (r == 0 && c == 1) || (r == 1 && c == 2) || (r == 2 && c == 3) || (r == 3 && c == 4),
        1 => (r == 0 && c == 3) || (r == 1 && c == 2) || (r == 2 && c == 1) || (r == 3 && c == 0),
        2 => (r == 1 && c == 0) || (r == 2 && c == 1) || (r == 3 && c == 2) || (r == 4 && c == 3),
        3 => (r == 1 && c == 4) || (r == 2 && c == 3) || (r == 3 && c == 2) || (r == 4 && c == 1),
        _ => false,
    }
}

fn dragon_has(id: usize, r: usize, c: usize) -> (b: bool)
    requires
        r < 5,
        c < 5,
    ensures
        b == dragon_contains(id as int, r as int, c as int),
{
    match id {
        0 => r == c,
        1 => r + c == 4,
        _ => false,
    }
}

} // verus!
