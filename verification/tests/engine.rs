use wudao::board::Board;
use wudao::game::{Cell, GameAction, GameError, GamePhase, MovementPhaseOrigin, Player, RewardPattern};
use wudao::replay::GameReplayer;

fn first_empty(b: &Board) -> Option<(usize, usize)> {
    for r in 0..5 {
        for c in 0..5 {
            if b.cell(r, c) == Cell::Empty {
                return Some((r, c));
            }
        }
    }
    None
}

fn last_empty(b: &Board) -> Option<(usize, usize)> {
    for r in (0..5).rev() {
        for c in (0..5).rev() {
            if b.cell(r, c) == Cell::Empty {
                return Some((r, c));
            }
        }
    }
    None
}

/// A deterministic full placement: Black fills from the top-left, White
/// from the bottom-right. Black completes row after row, piling up bonus
/// placements, and ends the placement phase owning most of the grid.
fn rampage_game() -> Board {
    let mut b = Board::new();
    while b.get_state().0 == GamePhase::Placement {
        let pos = if b.get_state().1 == Player::Black {
            first_empty(&b).unwrap()
        } else {
            last_empty(&b).unwrap()
        };
        assert!(b.place_piece(pos.0, pos.1).is_ok());
    }
    b
}

/// The scripted game behind the movement-reward scenario: both sides earn
/// exactly one pattern during placement (White a square, Black a short
/// diagonal), each side captures once, and the board ends in the movement
/// phase with row 0 one stone short for Black.
fn scripted_game_to_movement() -> Board {
    let black = [
        (0usize, 0usize),
        (0, 1),
        (0, 2),
        (0, 3),
        (1, 2),
        (1, 4),
        (2, 3),
        (3, 1),
        (4, 0),
        (2, 4),
        (3, 3),
        (4, 2),
        (4, 3),
    ];
    let white = [
        (1usize, 0usize),
        (1, 1),
        (2, 0),
        (2, 1),
        (0, 4),
        (1, 3),
        (2, 2),
        (3, 0),
        (3, 2),
        (3, 4),
        (4, 1),
        (4, 4),
    ];
    let mut b = Board::new();
    let mut bi = 0;
    let mut wi = 0;
    while b.get_state().0 == GamePhase::Placement {
        let pos = if b.get_state().1 == Player::Black {
            bi += 1;
            black[bi - 1]
        } else {
            wi += 1;
            white[wi - 1]
        };
        assert!(b.place_piece(pos.0, pos.1).is_ok());
    }
    assert_eq!(bi, 13);
    assert_eq!(wi, 12);
    // one capture each, then the game moves on
    assert_eq!(b.get_state(), (GamePhase::Capture, Player::White));
    assert_eq!(b.capture_remaining(Player::White), 1);
    assert_eq!(b.capture_remaining(Player::Black), 1);
    assert_eq!(b.capture_piece(1, 2), Ok(()));
    assert_eq!(b.get_state(), (GamePhase::Capture, Player::Black));
    assert_eq!(b.capture_piece(0, 4), Ok(()));
    assert_eq!(b.get_state(), (GamePhase::Movement, Player::White));
    b
}

#[test]
fn square_detection_all_anchors() {
    // A Black square at the bottom-right anchor (3, 3): the corner cells
    // (4, 4) etc. are probed without stepping out of the grid.
    let mut b = Board::new();
    assert_eq!(b.place_piece(3, 3), Ok(0));
    assert_eq!(b.place_piece(0, 0), Ok(0));
    assert_eq!(b.place_piece(3, 4), Ok(0));
    assert_eq!(b.place_piece(0, 1), Ok(0));
    assert_eq!(b.place_piece(4, 3), Ok(0));
    assert_eq!(b.place_piece(0, 2), Ok(0));
    assert_eq!(b.place_piece(4, 4), Ok(1));
    for r in 0..4 {
        for c in 0..4 {
            let expect_black = r == 3 && c == 3;
            assert_eq!(b.is_square(r, c, Player::Black), expect_black);
            let expect_white = false;
            assert_eq!(b.is_square(r, c, Player::White), expect_white);
        }
    }
}

#[test]
fn square_bonus_once_and_occupied() {
    // Black assembles the square anchored at (0, 0); the fourth stone
    // grants exactly one bonus placement, exactly once, and a fifth
    // attempt on the anchor is rejected as occupied.
    let mut b = Board::new();
    assert_eq!(b.place_piece(0, 0), Ok(0));
    assert_eq!(b.place_piece(4, 4), Ok(0));
    assert_eq!(b.place_piece(0, 1), Ok(0));
    assert_eq!(b.place_piece(4, 3), Ok(0));
    assert_eq!(b.place_piece(1, 0), Ok(0));
    assert_eq!(b.place_piece(3, 4), Ok(0));
    assert_eq!(b.place_piece(1, 1), Ok(1));
    assert!(b.is_pattern_triggered(&RewardPattern::Square { top_left: (0, 0) }));
    // the bonus keeps the turn with Black
    assert_eq!(b.get_state(), (GamePhase::Placement, Player::Black));
    assert_eq!(b.place_piece(0, 0), Err(GameError::Occupied));
    // the same square never pays again
    assert_eq!(b.place_piece(2, 2), Ok(0));
    assert_eq!(b.extra_moves(), 0);
}

#[test]
fn few_stones_never_have_moves() {
    // With fewer than three stones a player has no legal move, no matter
    // how many empty neighbours their stones see.
    let mut b = Board::new();
    assert!(!b.has_legal_moves(Player::Black));
    assert_eq!(b.place_piece(2, 2), Ok(0));
    assert!(!b.has_legal_moves(Player::Black));
    assert_eq!(b.place_piece(0, 0), Ok(0));
    assert_eq!(b.place_piece(2, 3), Ok(0));
    assert!(!b.has_legal_moves(Player::Black));
    assert_eq!(b.place_piece(0, 1), Ok(0));
    assert_eq!(b.place_piece(2, 1), Ok(0));
    // three stones beside empty points: now Black can move
    assert!(b.has_legal_moves(Player::Black));
}

#[test]
fn capture_pending_conserved() {
    // Pattern-derived quotas at the capture entry; the total pending count
    // only ever shrinks, by exactly one per executed capture.
    let mut b = rampage_game();
    assert_eq!(b.get_state(), (GamePhase::Capture, Player::Black));
    assert_eq!(b.capture_turn(), Player::Black);
    assert_eq!(b.capture_remaining(Player::Black), 28);
    assert_eq!(b.capture_remaining(Player::White), 0);
    assert_eq!(b.capture_piece(4, 1), Ok(()));
    assert_eq!(b.capture_remaining(Player::Black), 27);
    assert_eq!(b.get_state(), (GamePhase::Capture, Player::Black));
    assert_eq!(b.capture_piece(4, 2), Ok(()));
    assert_eq!(b.capture_remaining(Player::Black), 26);
}

#[test]
fn two_stones_decide_the_winner() {
    // White reduced to two stones mid-capture: the winner is Black even
    // while the capture phase is still running.
    let mut b = rampage_game();
    assert_eq!(b.check_winner(), None);
    assert_eq!(b.capture_piece(4, 1), Ok(()));
    assert_eq!(b.check_winner(), None);
    assert_eq!(b.capture_piece(4, 2), Ok(()));
    assert_eq!(b.get_state().0, GamePhase::Capture);
    assert_eq!(b.player_pieces(Player::White).len(), 2);
    assert_eq!(b.check_winner(), Some(Player::Black));
}

#[test]
fn capturing_the_last_stone_wins_immediately() {
    // Capturing White out of the game forfeits the leftover debt, enters
    // the movement phase, and reports the immobilized opponent as an
    // immediate win for Black.
    let mut b = rampage_game();
    assert_eq!(b.capture_piece(4, 1), Ok(()));
    assert_eq!(b.capture_piece(4, 2), Ok(()));
    assert_eq!(b.capture_piece(4, 3), Ok(()));
    assert_eq!(b.capture_piece(4, 4), Err(GameError::OpponentImmobilized));
    assert_eq!(b.get_state().0, GamePhase::Movement);
    assert_eq!(b.capture_remaining(Player::Black), 0);
    assert_eq!(b.capture_remaining(Player::White), 0);
    assert_eq!(b.check_winner(), Some(Player::Black));
}

#[test]
fn movement_row_completion_rewards_two_captures() {
    // A movement-phase move onto the cell completing a full Black row
    // yields a pending count of exactly two and re-enters the capture
    // phase with the mover to capture.
    let mut b = scripted_game_to_movement();
    // White shuffles a stone into the hole its capture left
    assert_eq!(b.move_piece((2, 2), (1, 2)), Ok(0));
    assert_eq!(b.get_state(), (GamePhase::Movement, Player::Black));
    // Black completes row 0
    assert_eq!(b.move_piece((1, 4), (0, 4)), Ok(2));
    assert_eq!(b.get_state(), (GamePhase::Capture, Player::Black));
    assert_eq!(b.capture_turn(), Player::Black);
    assert_eq!(b.capture_remaining(Player::Black), 2);
    assert_eq!(b.capture_remaining(Player::White), 0);
    assert!(b.is_pattern_triggered(&RewardPattern::Row { index: 0 }));
}

#[test]
fn triggered_patterns_are_never_lost() {
    // Once a pattern instance is triggered it stays triggered through
    // captures, moves and rescans, even as cell ownership changes.
    let mut b = scripted_game_to_movement();
    let square = RewardPattern::Square { top_left: (1, 0) };
    let tri = RewardPattern::Tri { id: 3 };
    assert!(b.is_pattern_triggered(&square));
    assert!(b.is_pattern_triggered(&tri));
    assert_eq!(b.move_piece((2, 2), (1, 2)), Ok(0));
    assert_eq!(b.move_piece((1, 4), (0, 4)), Ok(2));
    assert!(b.is_pattern_triggered(&square));
    assert!(b.is_pattern_triggered(&tri));
    assert!(b.is_pattern_triggered(&RewardPattern::Row { index: 0 }));
    // capture a square stone's owner cannot be touched, but capturing an
    // unprotected stone changes ownership without untriggering anything
    assert_eq!(b.capture_piece(1, 3), Ok(()));
    assert!(b.is_pattern_triggered(&square));
    assert!(b.is_pattern_triggered(&tri));
}

#[test]
fn protected_stones_cannot_be_captured() {
    let mut b = scripted_game_to_movement();
    assert_eq!(b.move_piece((2, 2), (1, 2)), Ok(0));
    assert_eq!(b.move_piece((1, 4), (0, 4)), Ok(2));
    // White's square at (1, 0) is intact and triggered: its stones are
    // protected from Black's two pending captures
    assert_eq!(b.capture_piece(1, 0), Err(GameError::ProtectedPiece));
    assert_eq!(b.capture_piece(2, 1), Err(GameError::ProtectedPiece));
    // unprotected White stones fall
    assert_eq!(b.capture_piece(1, 3), Ok(()));
    assert_eq!(b.capture_piece(3, 0), Ok(()));
    assert_eq!(b.capture_remaining(Player::Black), 0);
    assert_eq!(b.get_state().0, GamePhase::Movement);
}

#[test]
fn replay_rebuilds_the_same_game() {
    // Round trip: replaying the recorded action list from a fresh board
    // reproduces the final grid and phase exactly; the reward markers are
    // skipped, not re-applied.
    let mut b = scripted_game_to_movement();
    assert_eq!(b.move_piece((2, 2), (1, 2)), Ok(0));
    assert_eq!(b.move_piece((1, 4), (0, 4)), Ok(2));
    assert_eq!(b.capture_piece(1, 3), Ok(()));
    let record = b.get_game_record().clone();
    let mut rp = GameReplayer::new(record);
    while rp.step_forward().is_some() {}
    let rb = rp.get_current_board();
    for r in 0..5 {
        for c in 0..5 {
            assert_eq!(rb.cell(r, c), b.cell(r, c));
        }
    }
    assert_eq!(rb.get_state(), b.get_state());
    assert_eq!(rb.capture_remaining(Player::Black), b.capture_remaining(Player::Black));
    assert_eq!(rb.capture_remaining(Player::White), b.capture_remaining(Player::White));
    assert_eq!(rb.get_game_record().len(), b.get_game_record().len());
}

#[test]
fn replayer_reset_starts_over() {
    let mut b = Board::new();
    assert_eq!(b.place_piece(2, 2), Ok(0));
    let mut rp = GameReplayer::new(b.get_game_record().clone());
    assert!(rp.step_forward().is_some());
    assert_eq!(rp.get_current_board().cell(2, 2), Cell::Occupied(Player::Black));
    rp.reset();
    assert_eq!(rp.get_current_board().cell(2, 2), Cell::Empty);
    assert!(rp.step_forward().is_some());
    assert!(rp.step_forward().is_none());
}

#[test]
fn command_errors_leave_the_board_unchanged() {
    let mut b = Board::new();
    assert_eq!(b.capture_piece(0, 0), Err(GameError::WrongPhase));
    assert_eq!(b.move_piece((0, 0), (0, 1)), Err(GameError::WrongPhase));
    assert_eq!(b.place_piece(9, 9), Err(GameError::OutOfBounds));
    assert_eq!(b.place_piece(0, 0), Ok(0));
    assert_eq!(b.place_piece(0, 0), Err(GameError::Occupied));
    assert_eq!(b.get_game_record().len(), 1);
    assert_eq!(b.get_state(), (GamePhase::Placement, Player::White));

    let mut m = scripted_game_to_movement();
    // movement-phase rejections, each leaving the state alone
    let before = m.get_game_record().len();
    assert_eq!(m.move_piece((9, 0), (0, 0)), Err(GameError::OutOfBounds));
    assert_eq!(m.move_piece((1, 2), (2, 2)), Err(GameError::EmptyCell));
    assert_eq!(m.move_piece((0, 0), (0, 4)), Err(GameError::NotYourPiece));
    assert_eq!(m.move_piece((2, 2), (2, 3)), Err(GameError::Occupied));
    assert_eq!(m.move_piece((2, 2), (0, 4)), Err(GameError::NotAdjacent));
    assert_eq!(m.place_piece(0, 4), Err(GameError::WrongPhase));
    assert_eq!(m.get_game_record().len(), before);
    assert_eq!(m.get_state(), (GamePhase::Movement, Player::White));
}

#[test]
fn no_patterns_skips_capture() {
    // A full board on which neither side completed any pattern: no quota,
    // no capture phase; the game steps straight into movement with White,
    // the second placer, to move first.
    let black = [
        (0usize, 2usize),
        (1, 1),
        (1, 3),
        (1, 4),
        (2, 1),
        (2, 3),
        (3, 1),
        (3, 2),
        (3, 4),
        (4, 0),
        (4, 2),
        (4, 3),
        (4, 4),
    ];
    let white = [
        (0usize, 0usize),
        (0, 1),
        (0, 3),
        (0, 4),
        (1, 0),
        (1, 2),
        (2, 0),
        (2, 2),
        (2, 4),
        (3, 0),
        (3, 3),
        (4, 1),
    ];
    let mut b = Board::new();
    let mut bi = 0;
    let mut wi = 0;
    while b.get_state().0 == GamePhase::Placement {
        let pos = if b.get_state().1 == Player::Black {
            bi += 1;
            black[bi - 1]
        } else {
            wi += 1;
            white[wi - 1]
        };
        assert_eq!(b.place_piece(pos.0, pos.1), Ok(0));
    }
    assert_eq!(b.get_state(), (GamePhase::Movement, Player::White));
    assert_eq!(b.movement_phase_origin(), MovementPhaseOrigin::FromPlacement);
    assert_eq!(b.capture_remaining(Player::Black), 0);
    assert_eq!(b.capture_remaining(Player::White), 0);
    // the board is full: nobody can move, so White to act loses on sight
    assert_eq!(b.check_winner(), Some(Player::Black));
}

#[test]
fn movement_origin_tracks_the_entry() {
    // A normally completed capture sub-phase flips the turn away from the
    // last capturer...
    let b = scripted_game_to_movement();
    assert_eq!(b.movement_phase_origin(), MovementPhaseOrigin::FromMovement);
    assert_eq!(b.get_state(), (GamePhase::Movement, Player::White));
    // ...while a forfeited debt keeps the mid-capture player as the mover.
    let mut r = rampage_game();
    assert!(r.capture_piece(4, 1).is_ok());
    assert!(r.capture_piece(4, 2).is_ok());
    assert!(r.capture_piece(4, 3).is_ok());
    assert_eq!(r.capture_piece(4, 4), Err(GameError::OpponentImmobilized));
    assert_eq!(r.movement_phase_origin(), MovementPhaseOrigin::FromCapture);
    assert_eq!(r.get_state(), (GamePhase::Movement, Player::Black));
}

#[test]
fn replayer_ignores_invalid_entries() {
    // A hand-made record with an out-of-range entry and a reward marker:
    // the replayer consumes every entry, skipping what cannot be applied.
    let actions = vec![
        GameAction::Place { player: Player::Black, pos: (9, 9) },
        GameAction::Place { player: Player::Black, pos: (0, 0) },
        GameAction::Reward {
            player: Player::Black,
            pattern: RewardPattern::Square { top_left: (0, 0) },
        },
    ];
    let mut rp = GameReplayer::new(actions);
    let mut steps = 0;
    while rp.step_forward().is_some() {
        steps += 1;
    }
    assert_eq!(steps, 3);
    let b = rp.get_current_board();
    assert_eq!(b.cell(0, 0), Cell::Occupied(Player::Black));
    assert_eq!(b.get_state(), (GamePhase::Placement, Player::White));
    assert_eq!(b.get_game_record().len(), 1);
}

#[test]
fn capture_rejections() {
    let mut b = rampage_game();
    // Black owes 28 captures; White owes none
    assert_eq!(b.capture_piece(9, 9), Err(GameError::OutOfBounds));
    assert_eq!(b.capture_piece(0, 0), Err(GameError::NotOpponentPiece));
    // every cell is occupied after placement, so empty only after captures
    assert_eq!(b.capture_piece(4, 1), Ok(()));
    assert_eq!(b.capture_piece(4, 1), Err(GameError::EmptyCell));
}

#[test]
fn no_quota_no_capture() {
    // A move that completes nothing re-enters no capture phase, and a
    // capture attempt without a pending quota is rejected.
    let mut b = scripted_game_to_movement();
    assert_eq!(b.move_piece((2, 2), (1, 2)), Ok(0));
    // Black to act in the movement phase; White owes nothing, and even for
    // Black the phase is wrong
    assert_eq!(b.capture_piece(3, 0), Err(GameError::WrongPhase));
}
