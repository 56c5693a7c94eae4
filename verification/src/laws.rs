//! Standalone statements of the engine's global guarantees. Most of the
//! library's laws stand directly in the `ensures` clauses of the commands
//! (the exact transition, the append-only triggered sets, the
//! non-increasing pending count); the lemmas here state the remaining ones
//! in their own right.

use vstd::prelude::*;

use crate::game::{Cell, GameAction, GameError, GamePhase, Player, RewardPattern};
use crate::model::{
    BoardV, adjacent, cap_sum, capturable_exists, col_complete, count_pieces, dragon_complete,
    grid_full, grid_idx, has_moves, in_bounds, inv, lemma_capturable_frame,
    lemma_either_preserved_by_fill, lemma_scan_move_props, lemma_scan_place_props, pattern_subset,
    rem_of, rescan, row_complete, scan_dragons_at, scan_move, scan_place, scan_squares,
    scan_tetras_at, scan_tris_at, spec_capture, spec_move, spec_winner, sq_idx, square_complete,
    tetra_complete, tri_complete, with_rem,
};
use crate::replay::{Command, apply_command};

verus! {

/// Taking the opponent twice returns the original player.
pub proof fn lemma_opponent_involution(p: Player)
    ensures
        p.spec_opponent().spec_opponent() == p,
{
}

/// A player with fewer than three stones has no legal move, whatever empty
/// points surround their stones.
pub proof fn lemma_few_stones_no_moves(g: Seq<Cell>, p: Player)
    requires
        count_pieces(g, p) < 3,
    ensures
        !has_moves(g, p),
{
}

/// After the placement phase, a player reduced below three stones has lost:
/// the winner is the opponent.
pub proof fn lemma_two_stones_lose(v: BoardV, p: Player)
    requires
        v.phase != GamePhase::Placement,
        count_pieces(v.grid, p) < 3,
        count_pieces(v.grid, p.spec_opponent()) >= 3,
    ensures
        spec_winner(v) == Some(p.spec_opponent()),
{
}

/// On every well-formed board the game sits in the capture phase exactly
/// while captures are pending: together with the non-increasing pending
/// count ensured by `capture_piece`, the game moves on exactly when the
/// total pending count reaches zero.
pub proof fn lemma_capture_phase_iff_pending(v: BoardV)
    requires
        inv(v),
    ensures
        v.phase == GamePhase::Capture <==> cap_sum(v) > 0,
{
}

/// The capture protocol conserves the pending count: one command never
/// increases the total owed, and whenever it leaves the capture phase the
/// total has reached zero.
pub proof fn lemma_capture_pending_conserved(v: BoardV, r: int, c: int)
    requires
        inv(v),
    ensures
        cap_sum(spec_capture(v, r, c).0) <= cap_sum(v),
        spec_capture(v, r, c).0.phase != GamePhase::Capture ==> cap_sum(
            spec_capture(v, r, c).0,
        ) == 0,
{
}

/// A movement-phase move onto the point completing a full row of the
/// mover, when that row is not yet triggered, no other untriggered
/// pattern instance completes with it, and the opponent still has an
/// unprotected stone afterwards, yields a pending count of exactly two
/// and re-enters the capture phase with the mover to capture; no stone
/// has been captured yet. (Without an unprotected opposing stone the
/// engine instead forfeits the unservable quota on the spot.)
pub proof fn lemma_move_row_completion(v: BoardV, fr: int, fc: int, tr: int, tc: int)
    requires
        inv(v),
        v.phase == GamePhase::Movement,
        in_bounds(fr, fc),
        in_bounds(tr, tc),
        v.grid[grid_idx(fr, fc)] == Cell::Occupied(v.current),
        v.grid[grid_idx(tr, tc)] == Cell::Empty,
        adjacent(fr, fc, tr, tc),
        ({
            let g1 = v.grid.update(grid_idx(fr, fc), Cell::Empty).update(
                grid_idx(tr, tc),
                Cell::Occupied(v.current),
            );
            &&& row_complete(g1, tr, v.current)
            &&& !v.trig_rows[tr]
            &&& (forall|a: int|
                0 <= a < 16 && square_complete(g1, a / 4, a % 4, v.current)
                    ==> #[trigger] v.trig_squares[a])
            &&& (forall|i: int|
                0 <= i < 4 && tri_complete(g1, i, v.current) ==> #[trigger] v.trig_tris[i])
            &&& (forall|i: int|
                0 <= i < 4 && tetra_complete(g1, i, v.current) ==> #[trigger] v.trig_tetras[i])
            &&& (col_complete(g1, tc, v.current) ==> v.trig_cols[tc])
            &&& (forall|i: int|
                0 <= i < 2 && dragon_complete(g1, i, v.current) ==> #[trigger] v.trig_dragons[i])
            &&& capturable_exists(
                BoardV { grid: g1, trig_rows: v.trig_rows.update(tr, true), ..v },
                v.current.spec_opponent(),
            )
        }),
    ensures
        ({
            let s = spec_move(v, fr, fc, tr, tc);
            &&& s.1 == Ok::<nat, GameError>(2)
            &&& s.0.phase == GamePhase::Capture
            &&& s.0.capture_turn == v.current
            &&& rem_of(s.0, v.current) == 2
            &&& s.0.grid == v.grid.update(grid_idx(fr, fc), Cell::Empty).update(
                grid_idx(tr, tc),
                Cell::Occupied(v.current),
            )
        }),
{
    let p = v.current;
    let g1 = v.grid.update(grid_idx(fr, fc), Cell::Empty).update(
        grid_idx(tr, tc),
        Cell::Occupied(p),
    );
    let v1 = BoardV {
        grid: g1,
        record: v.record.push(
            GameAction::Move {
                player: p,
                from: ((fr as usize), (fc as usize)),
                to: ((tr as usize), (tc as usize)),
            },
        ),
        ..v
    };
    // no square instance fires: every complete square is already triggered
    assert forall|ar: int, ac: int|
        0 <= ar < 4 && 0 <= ac < 4 && square_complete(g1, ar, ac, p) implies v1.trig_squares[sq_idx(
        ar,
        ac,
    )] by {
        let a = ar * 4 + ac;
        assert(a / 4 == ar && a % 4 == ac) by (nonlinear_arith)
            requires
                0 <= ar < 4 && 0 <= ac < 4 && a == ar * 4 + ac,
        ;
        assert(v.trig_squares[a]);
    }
    let s1 = scan_squares(v1, p, tr, tc);
    assert(s1 == (v1, 0nat));
    // neither do the diagonals: all complete instances are triggered
    assert(scan_tris_at(v1, p, 0, tr, tc) == (v1, 0nat));
    assert(scan_tris_at(v1, p, 1, tr, tc) == (v1, 0nat));
    assert(scan_tris_at(v1, p, 2, tr, tc) == (v1, 0nat));
    assert(scan_tris_at(v1, p, 3, tr, tc) == (v1, 0nat));
    assert(scan_tris_at(v1, p, 4, tr, tc) == (v1, 0nat));
    assert(scan_tetras_at(v1, p, 0, tr, tc) == (v1, 0nat));
    assert(scan_tetras_at(v1, p, 1, tr, tc) == (v1, 0nat));
    assert(scan_tetras_at(v1, p, 2, tr, tc) == (v1, 0nat));
    assert(scan_tetras_at(v1, p, 3, tr, tc) == (v1, 0nat));
    assert(scan_tetras_at(v1, p, 4, tr, tc) == (v1, 0nat));
    // the row fires for its reward of two
    let w1 = BoardV {
        trig_rows: v1.trig_rows.update(tr, true),
        record: v1.record.push(
            GameAction::Reward { player: p, pattern: RewardPattern::Row { index: tr as usize } },
        ),
        ..v1
    };
    assert(crate::model::row_step(v1, 0, p, tr) == (w1, 2nat));
    // the column and the full diagonals stay quiet
    assert(crate::model::col_step(w1, 2nat, p, tc) == (w1, 2nat));
    assert(scan_dragons_at(w1, p, 0, tr, tc) == (w1, 0nat));
    assert(scan_dragons_at(w1, p, 1, tr, tc) == (w1, 0nat));
    assert(scan_dragons_at(w1, p, 2, tr, tc) == (w1, 0nat));
    assert(scan_move(v1, p, tr, tc) == (w1, 2nat));
    // the premise's unprotected stone carries over: only the log differs
    lemma_capturable_frame(
        w1,
        BoardV { grid: g1, trig_rows: v.trig_rows.update(tr, true), ..v },
        p.spec_opponent(),
    );
    assert(spec_move(v, fr, fc, tr, tc) == (
        BoardV { phase: GamePhase::Capture, capture_turn: p, ..with_rem(w1, p, 2) },
        Ok::<nat, GameError>(2),
    ));
}

/// The triggered-pattern sets are append-only: no command ever removes a
/// triggered pattern instance, even the full rescan run when the board
/// fills, because during placement every triggered instance is owned in
/// full by some player and a placement cannot break an owned instance.
#[verifier::rlimit(60)]
pub proof fn lemma_triggered_append_only(v: BoardV, cmd: Command)
    requires
        inv(v),
    ensures
        pattern_subset(v, apply_command(v, cmd)),
{
    match cmd {
        Command::PlaceAt { row, col } => {
            if v.phase == GamePhase::Placement && in_bounds(row, col) && v.grid[grid_idx(
                row,
                col,
            )] == Cell::Empty {
                let p = v.current;
                let v1 = BoardV {
                    grid: v.grid.update(grid_idx(row, col), Cell::Occupied(p)),
                    record: v.record.push(
                        GameAction::Place { player: p, pos: ((row as usize), (col as usize)) },
                    ),
                    ..v
                };
                lemma_scan_place_props(v1, p, row, col);
                lemma_either_preserved_by_fill(v.grid, grid_idx(row, col), p);
                let v2 = scan_place(v1, p, row, col).0;
                if grid_full(v2.grid) {
                    assert(forall|a: int|
                        0 <= a < 16 && #[trigger] v.trig_squares[a] ==> crate::model::either_square(
                            v2.grid,
                            a,
                        ));
                    assert(forall|i: int|
                        0 <= i < 4 && #[trigger] v.trig_tris[i] ==> crate::model::either_tri(
                            v2.grid,
                            i,
                        ));
                    assert(forall|i: int|
                        0 <= i < 4 && #[trigger] v.trig_tetras[i] ==> crate::model::either_tetra(
                            v2.grid,
                            i,
                        ));
                    assert(forall|i: int|
                        0 <= i < 5 && #[trigger] v.trig_rows[i] ==> crate::model::either_row(
                            v2.grid,
                            i,
                        ));
                    assert(forall|i: int|
                        0 <= i < 5 && #[trigger] v.trig_cols[i] ==> crate::model::either_col(
                            v2.grid,
                            i,
                        ));
                    assert(forall|i: int|
                        0 <= i < 2 && #[trigger] v.trig_dragons[i] ==> crate::model::either_dragon(
                            v2.grid,
                            i,
                        ));
                    assert(pattern_subset(v, rescan(v2)));
                }
            }
        },
        Command::CaptureAt { row, col } => {
        },
        Command::MoveFromTo { fr, fc, tr, tc } => {
            if v.phase == GamePhase::Movement && in_bounds(fr, fc) && in_bounds(tr, tc)
                && v.grid[grid_idx(fr, fc)] == Cell::Occupied(v.current) && v.grid[grid_idx(
                tr,
                tc,
            )] == Cell::Empty && crate::model::adjacent(fr, fc, tr, tc) {
                let p = v.current;
                let v1 = BoardV {
                    grid: v.grid.update(grid_idx(fr, fc), Cell::Empty).update(
                        grid_idx(tr, tc),
                        Cell::Occupied(p),
                    ),
                    record: v.record.push(
                        GameAction::Move {
                            player: p,
                            from: ((fr as usize), (fc as usize)),
                            to: ((tr as usize), (tc as usize)),
                        },
                    ),
                    ..v
                };
                lemma_scan_move_props(v1, p, tr, tc);
            }
        },
    }
}

} // verus!
