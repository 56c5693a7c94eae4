//! Rules engine and move advisor for Wudao, a three-phase capture game
//! played on a 5x5 grid.
//!
//! The engine owns the board state and enforces every rule; the advisor
//! explores snapshots of the board to recommend moves. All state-changing
//! logic is specified against a mathematical model of the board and
//! verified against it.

pub mod game;
pub mod model;
pub mod board;
pub mod replay;
pub mod advisor;
pub mod laws;

pub use game::{Cell, GameAction, GameError, GamePhase, MovementPhaseOrigin, Player, RewardPattern};
