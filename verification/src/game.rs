//! The basic vocabulary of the game: players, cells, phases, reward
//! patterns, log entries and the error taxonomy of the command surface.

use vstd::prelude::*;

verus! {

/// The two sides of a game.
#[derive(Debug, Clone, Copy, PartialEq, Eq, Structural)]
pub enum Player {
    Black,
    White,
}

impl Player {
    /// The other side. Applying this twice returns the original player.
    pub open spec fn spec_opponent(self) -> Player {
        match self {
            Player::Black => Player::White,
            Player::White => Player::Black,
        }
    }

    #[verifier::when_used_as_spec(spec_opponent)]
    pub fn opponent(self) -> (r: Player)
        ensures
            r == self.spec_opponent(),
    {
        match self {
            Player::Black => Player::White,
            Player::White => Player::Black,
        }
    }

    /// One-letter tag for a player's stone, used by text renderings.
    pub fn as_char(&self) -> (r: char)
        ensures
            r == (if self is Black { 'B' } else { 'W' }),
    {
        match self {
            Player::Black => 'B',
            Player::White => 'W',
        }
    }

    /// Human-readable side name.
    pub fn color_name(&self) -> (r: &'static str)
        ensures
            self is Black ==> r@ == "Black"@,
            self is White ==> r@ == "White"@,
    {
        match self {
            Player::Black => "Black",
            Player::White => "White",
        }
    }
}

/// One point of the 5x5 grid.
#[derive(Debug, Clone, Copy, PartialEq, Eq, Structural)]
pub enum Cell {
    Empty,
    Occupied(Player),
}

/// The phase the game is in. Exactly one is active at any time.
#[derive(Debug, Clone, Copy, PartialEq, Eq, Structural)]
pub enum GamePhase {
    /// Players alternately fill the empty grid.
    Placement,
    /// Pending captures are resolved one stone at a time.
    Capture,
    /// Players slide stones to orthogonally adjacent empty points.
    Movement,
}

/// How the movement phase was entered; this decides whose turn it is
/// when movement begins.
#[derive(Debug, Clone, Copy, PartialEq, Eq, Structural)]
pub enum MovementPhaseOrigin {
    /// Every capture was skipped after the board filled: White moves first.
    FromPlacement,
    /// A capture sub-phase ended with a forfeit: the mid-capture player keeps
    /// the turn.
    FromCapture,
    /// A capture sub-phase completed normally: the turn flips to the opponent
    /// of the last capturer.
    FromMovement,
}

/// One concrete reward shape on the grid.
#[derive(Debug, Clone, Copy, PartialEq, Eq)]
pub enum RewardPattern {
    /// A 2x2 block, identified by its top-left anchor.
    Square { top_left: (usize, usize) },
    /// One of four short diagonals of three points.
    Tri { id: usize },
    /// One of four diagonals of four points.
    Tetra { id: usize },
    /// A full row of five.
    Row { index: usize },
    /// A full column of five.
    Col { index: usize },
    /// One of the two full diagonals.
    Dragon { id: usize },
}

/// One entry of the append-only game log. `Reward` entries record a pattern
/// award as a side effect of the preceding `Place` or `Move`; a replay does
/// not re-apply them.
#[derive(Debug, Clone, Copy, PartialEq, Eq)]
pub enum GameAction {
    Place { player: Player, pos: (usize, usize) },
    Capture { player: Player, pos: (usize, usize) },
    Move { player: Player, from: (usize, usize), to: (usize, usize) },
    Reward { player: Player, pattern: RewardPattern },
}

/// Why a command was rejected. All variants are recoverable; the board is
/// unchanged, except for `OpponentImmobilized`, which reports a completed
/// action whose outcome ends the game in the acting player's favour.
#[derive(Debug, Clone, Copy, PartialEq, Eq, Structural)]
pub enum GameError {
    /// The command is not valid in the current phase.
    WrongPhase,
    /// A coordinate lies outside the 5x5 grid.
    OutOfBounds,
    /// The destination already holds a stone.
    Occupied,
    /// The addressed point holds no stone.
    EmptyCell,
    /// A capture addressed the acting player's own stone.
    NotOpponentPiece,
    /// A capture addressed a stone protected by a triggered pattern.
    ProtectedPiece,
    /// A move started from a stone the acting player does not own.
    NotYourPiece,
    /// A move target is not orthogonally adjacent to its source.
    NotAdjacent,
    /// The acting player owes no capture.
    NoCaptureQuota,
    /// The action succeeded and left the opponent without a legal move:
    /// the acting player wins immediately.
    OpponentImmobilized,
}

} // verus!
