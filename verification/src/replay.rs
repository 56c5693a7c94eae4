//! Replaying a recorded game.
//!
//! A recorded action list drives the same command surface again: `Place`,
//! `Capture` and `Move` entries are re-issued in order, `Reward` entries
//! are side-effect markers and are skipped. Because every command is a
//! function of the board value alone, a replay from a fresh board rebuilds
//! the original states exactly; `lemma_replay_round_trip` proves it.

use vstd::prelude::*;

use crate::board::Board;
use crate::game::{Cell, GameAction, GamePhase};
use crate::model::{
    BoardV, init_board, inv, shapes_ok, spec_capture, spec_move, spec_place, grid_idx, in_bounds,
    scan_place, scan_move, lemma_scan_place_props, lemma_scan_move_props, settle_capture,
    with_rem, rem_of,
};

verus! {

/// One invocation of the command surface, as the model sees it.
pub enum Command {
    PlaceAt { row: int, col: int },
    CaptureAt { row: int, col: int },
    MoveFromTo { fr: int, fc: int, tr: int, tc: int },
}

/// The state a command leaves behind, error or not: a failed command
/// leaves the board unchanged, and the immobilized-opponent signal comes
/// after its action has been applied.
pub open spec fn apply_command(v: BoardV, cmd: Command) -> BoardV {
    match cmd {
        Command::PlaceAt { row, col } => spec_place(v, row, col).0,
        Command::CaptureAt { row, col } => spec_capture(v, row, col).0,
        Command::MoveFromTo { fr, fc, tr, tc } => spec_move(v, fr, fc, tr, tc).0,
    }
}

/// The state after a whole session of commands, played from `v`.
pub open spec fn apply_commands(v: BoardV, cmds: Seq<Command>) -> BoardV
    decreases cmds.len(),
{
    if cmds.len() == 0 {
        v
    } else {
        apply_command(apply_commands(v, cmds.drop_last()), cmds.last())
    }
}

/// What a replayer does with one recorded entry: re-issue the command it
/// stands for, or skip it if it is a `Reward` marker.
pub open spec fn replay_action(v: BoardV, a: GameAction) -> BoardV {
    match a {
        GameAction::Place { player, pos } => spec_place(v, pos.0 as int, pos.1 as int).0,
        GameAction::Capture { player, pos } => spec_capture(v, pos.0 as int, pos.1 as int).0,
        GameAction::Move { player, from, to } => spec_move(
            v,
            from.0 as int,
            from.1 as int,
            to.0 as int,
            to.1 as int,
        ).0,
        GameAction::Reward { .. } => v,
    }
}

/// The state after replaying the first `n` entries of `acts` from `v`.
pub open spec fn replay_actions(v: BoardV, acts: Seq<GameAction>, n: nat) -> BoardV
    decreases n,
{
    if n == 0 {
        v
    } else {
        replay_action(replay_actions(v, acts, (n - 1) as nat), acts[n - 1])
    }
}

// ---------------------------------------------------------------------------
// The round-trip proof
// ---------------------------------------------------------------------------

/// Replaying only reads the first `n` entries.
proof fn lemma_replay_prefix(v: BoardV, acts1: Seq<GameAction>, acts2: Seq<GameAction>, n: nat)
    requires
        forall|i: int| 0 <= i < n ==> acts1[i] == acts2[i],
    ensures
        replay_actions(v, acts1, n) == replay_actions(v, acts2, n),
    decreases n,
{
    if n > 0 {
        lemma_replay_prefix(v, acts1, acts2, (n - 1) as nat);
    }
}

/// `Reward` entries are inert under replay.
proof fn lemma_replay_reward_tail(
    v: BoardV,
    w: BoardV,
    acts: Seq<GameAction>,
    m: nat,
    n: nat,
)
    requires
        m <= n,
        replay_actions(v, acts, m) == w,
        forall|i: int| m <= i < n ==> #[trigger] acts[i] is Reward,
    ensures
        replay_actions(v, acts, n) == w,
    decreases n - m,
{
    if n > m {
        lemma_replay_reward_tail(v, w, acts, m, (n - 1) as nat);
    }
}

/// What a placement leaves in the log: nothing on failure, else the
/// `Place` entry at the old end of the log, `Reward` markers after it, and
/// re-issuing that entry from the old state rebuilds the new state.
pub proof fn lemma_place_record(v: BoardV, r: int, c: int)
    requires
        shapes_ok(v),
    ensures
        shapes_ok(spec_place(v, r, c).0),
        ({
            let s = spec_place(v, r, c);
            let n0 = v.record.len() as int;
            ||| s.0 == v
            ||| {
                &&& s.0.record.len() > n0
                &&& (forall|i: int| 0 <= i < n0 ==> s.0.record[i] == v.record[i])
                &&& replay_action(v, s.0.record[n0]) == s.0
                &&& (forall|i: int| n0 < i < s.0.record.len() ==> #[trigger] s.0.record[i]
                    is Reward)
            }
        }),
{
    let s = spec_place(v, r, c);
    if v.phase == GamePhase::Placement && in_bounds(r, c) && v.grid[grid_idx(r, c)]
        == Cell::Empty {
        let p = v.current;
        let entry = GameAction::Place { player: p, pos: ((r as usize), (c as usize)) };
        let v1 = BoardV {
            grid: v.grid.update(grid_idx(r, c), Cell::Occupied(p)),
            record: v.record.push(entry),
            ..v
        };
        lemma_scan_place_props(v1, p, r, c);
        let sc = scan_place(v1, p, r, c);
        assert(s.0.record == sc.0.record);
        assert(sc.0.record[v.record.len() as int] == entry);
        assert(((r as usize) as int) == r && ((c as usize) as int) == c);
        assert(replay_action(v, entry) == s.0);
    }
}

/// What a capture leaves in the log: nothing on a rejected command, else
/// exactly the `Capture` entry, whose re-issue rebuilds the new state.
pub proof fn lemma_capture_record(v: BoardV, r: int, c: int)
    requires
        shapes_ok(v),
    ensures
        shapes_ok(spec_capture(v, r, c).0),
        ({
            let s = spec_capture(v, r, c);
            let n0 = v.record.len() as int;
            ||| s.0 == v
            ||| {
                &&& s.0.record.len() == n0 + 1
                &&& (forall|i: int| 0 <= i < n0 ==> s.0.record[i] == v.record[i])
                &&& replay_action(v, s.0.record[n0]) == s.0
            }
        }),
{
    let s = spec_capture(v, r, c);
    let p = v.current;
    let o = p.spec_opponent();
    if v.phase == GamePhase::Capture && rem_of(v, p) > 0 && in_bounds(r, c)
        && !crate::model::protected_spec(v, r, c, o) && v.grid[grid_idx(r, c)]
        != Cell::Occupied(p) && v.grid[grid_idx(r, c)] != Cell::Empty {
        let entry = GameAction::Capture { player: p, pos: ((r as usize), (c as usize)) };
        let v1 = with_rem(
            BoardV {
                grid: v.grid.update(grid_idx(r, c), Cell::Empty),
                record: v.record.push(entry),
                ..v
            },
            p,
            (rem_of(v, p) - 1) as nat,
        );
        assert(settle_capture(v1, p).record == v1.record);
        assert(s.0.record == v1.record);
        assert(((r as usize) as int) == r && ((c as usize) as int) == c);
        assert(replay_action(v, entry) == s.0);
    }
}

/// What a move leaves in the log: nothing on a rejected command, else the
/// `Move` entry followed by `Reward` markers, and re-issuing that entry
/// rebuilds the new state.
pub proof fn lemma_move_record(v: BoardV, fr: int, fc: int, tr: int, tc: int)
    requires
        shapes_ok(v),
    ensures
        shapes_ok(spec_move(v, fr, fc, tr, tc).0),
        ({
            let s = spec_move(v, fr, fc, tr, tc);
            let n0 = v.record.len() as int;
            ||| s.0 == v
            ||| {
                &&& s.0.record.len() > n0
                &&& (forall|i: int| 0 <= i < n0 ==> s.0.record[i] == v.record[i])
                &&& replay_action(v, s.0.record[n0]) == s.0
                &&& (forall|i: int| n0 < i < s.0.record.len() ==> #[trigger] s.0.record[i]
                    is Reward)
            }
        }),
{
    let s = spec_move(v, fr, fc, tr, tc);
    if v.phase == GamePhase::Movement && in_bounds(fr, fc) && in_bounds(tr, tc) && v.grid[grid_idx(
        fr,
        fc,
    )] == Cell::Occupied(v.current) && v.grid[grid_idx(tr, tc)] == Cell::Empty
        && crate::model::adjacent(fr, fc, tr, tc) {
        let p = v.current;
        let entry = GameAction::Move {
            player: p,
            from: ((fr as usize), (fc as usize)),
            to: ((tr as usize), (tc as usize)),
        };
        let v1 = BoardV {
            grid: v.grid.update(grid_idx(fr, fc), Cell::Empty).update(
                grid_idx(tr, tc),
                Cell::Occupied(p),
            ),
            record: v.record.push(entry),
            ..v
        };
        lemma_scan_move_props(v1, p, tr, tc);
        let sc = scan_move(v1, p, tr, tc);
        assert(s.0.record == sc.0.record);
        assert(sc.0.record[v.record.len() as int] == entry);
        assert(((fr as usize) as int) == fr && ((fc as usize) as int) == fc);
        assert(((tr as usize) as int) == tr && ((tc as usize) as int) == tc);
        assert(replay_action(v, entry) == s.0);
    }
}

/// Every command keeps the fixed shapes of the board value.
pub proof fn lemma_apply_commands_shapes(cmds: Seq<Command>)
    ensures
        shapes_ok(apply_commands(init_board(), cmds)),
    decreases cmds.len(),
{
    if cmds.len() == 0 {
        assert(shapes_ok(init_board()));
    } else {
        lemma_apply_commands_shapes(cmds.drop_last());
        let v = apply_commands(init_board(), cmds.drop_last());
        match cmds.last() {
            Command::PlaceAt { row, col } => lemma_place_record(v, row, col),
            Command::CaptureAt { row, col } => lemma_capture_record(v, row, col),
            Command::MoveFromTo { fr, fc, tr, tc } => lemma_move_record(v, fr, fc, tr, tc),
        }
    }
}

/// Round trip: play any session of commands from a fresh board, then
/// replay the log it left behind from another fresh board; the replay
/// rebuilds the final board value exactly: the same grid, the same phase,
/// and every other part of the state.
pub proof fn lemma_replay_round_trip(cmds: Seq<Command>)
    ensures
        ({
            let w = apply_commands(init_board(), cmds);
            replay_actions(init_board(), w.record, w.record.len()) == w
        }),
    decreases cmds.len(),
{
    let w = apply_commands(init_board(), cmds);
    if cmds.len() == 0 {
    } else {
        let pre = cmds.drop_last();
        let v = apply_commands(init_board(), pre);
        lemma_replay_round_trip(pre);
        lemma_apply_commands_shapes(pre);
        let n0 = v.record.len();
        match cmds.last() {
            Command::PlaceAt { row, col } => {
                lemma_place_record(v, row, col);
                if w == v {
                } else {
                    lemma_replay_prefix(init_board(), w.record, v.record, n0);
                    assert(replay_actions(init_board(), w.record, n0) == v);
                    assert(replay_actions(init_board(), w.record, n0 + 1) == replay_action(
                        v,
                        w.record[n0 as int],
                    ));
                    lemma_replay_reward_tail(
                        init_board(),
                        w,
                        w.record,
                        n0 + 1,
                        w.record.len(),
                    );
                }
            },
            Command::CaptureAt { row, col } => {
                lemma_capture_record(v, row, col);
                if w == v {
                } else {
                    lemma_replay_prefix(init_board(), w.record, v.record, n0);
                    assert(replay_actions(init_board(), w.record, n0) == v);
                    assert(replay_actions(init_board(), w.record, n0 + 1) == replay_action(
                        v,
                        w.record[n0 as int],
                    ));
                }
            },
            Command::MoveFromTo { fr, fc, tr, tc } => {
                lemma_move_record(v, fr, fc, tr, tc);
                if w == v {
                } else {
                    lemma_replay_prefix(init_board(), w.record, v.record, n0);
                    assert(replay_actions(init_board(), w.record, n0) == v);
                    assert(replay_actions(init_board(), w.record, n0 + 1) == replay_action(
                        v,
                        w.record[n0 as int],
                    ));
                    lemma_replay_reward_tail(
                        init_board(),
                        w,
                        w.record,
                        n0 + 1,
                        w.record.len(),
                    );
                }
            },
        }
    }
}

// ---------------------------------------------------------------------------
// The executable replayer
// ---------------------------------------------------------------------------

/// Steps through a recorded action list, rebuilding the board state one
/// entry at a time on a board of its own.
pub struct GameReplayer {
    actions: Vec<GameAction>,
    current_step: usize,
    board: Board,
}

impl GameReplayer {
    /// The recorded entries driving this replayer.
    pub closed spec fn spec_actions(&self) -> Seq<GameAction> {
        self.actions@
    }

    /// How many entries have been consumed.
    pub closed spec fn spec_step(&self) -> nat {
        self.current_step as nat
    }

    /// The current board value.
    pub closed spec fn spec_board(&self) -> BoardV {
        self.board@
    }

    pub open spec fn wf(&self) -> bool {
        &&& inv(self.spec_board())
        &&& self.spec_step() <= self.spec_actions().len()
    }

    /// A replayer over `actions`, starting from a fresh board.
    pub fn new(actions: Vec<GameAction>) -> (r: GameReplayer)
        ensures
            r.wf(),
            r.spec_actions() == actions@,
            r.spec_step() == 0,
            r.spec_board() == init_board(),
    {
        GameReplayer { actions, current_step: 0, board: Board::new() }
    }

    /// Consume one entry: re-issue the command it stands for (errors are
    /// deliberately ignored: a valid record replays without them) and
    /// return the board, or `None` when the record is exhausted.
    pub fn step_forward(&mut self) -> (r: Option<&Board>)
        requires
            old(self).wf(),
        ensures
            final(self).wf(),
            final(self).spec_actions() == old(self).spec_actions(),
            old(self).spec_step() >= old(self).spec_actions().len() ==> r is None && *final(self) == *old(self),
            old(self).spec_step() < old(self).spec_actions().len() ==> {
                &&& r is Some
                &&& final(self).spec_step() == old(self).spec_step() + 1
                &&& final(self).spec_board() == replay_action(
                    old(self).spec_board(),
                    old(self).spec_actions()[old(self).spec_step() as int],
                )
            },
    {
        if self.current_step >= self.actions.len() {
            return None;
        }
        let a = self.actions[self.current_step];
        match a {
            GameAction::Place { player, pos } => {
                let _ = self.board.place_piece(pos.0, pos.1);
            },
            GameAction::Capture { player, pos } => {
                let _ = self.board.capture_piece(pos.0, pos.1);
            },
            GameAction::Move { player, from, to } => {
                let _ = self.board.move_piece(from, to);
            },
            GameAction::Reward { .. } => {},
        }
        self.current_step += 1;
        Some(&self.board)
    }

    /// Back to the fresh board with the record untouched.
    pub fn reset(&mut self)
        ensures
            final(self).wf(),
            final(self).spec_actions() == old(self).spec_actions(),
            final(self).spec_step() == 0,
            final(self).spec_board() == init_board(),
    {
        self.current_step = 0;
        self.board = Board::new();
    }

    /// The board as rebuilt so far.
    pub fn get_current_board(&self) -> (r: &Board)
        ensures
            r@ == self.spec_board(),
    {
        &self.board
    }
}

} // verus!
