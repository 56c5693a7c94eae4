use wudao::advisor::{
    advise_capture, advise_movement, advise_placement, better_mean, capture_score_exec,
    legal_moves, place_score_exec, rollout, simulate_move, static_eval,
};
use wudao::board::Board;
use wudao::game::{Cell, GamePhase, Player};

fn first_empty(b: &Board) -> Option<(usize, usize)> {
    for r in 0..5 {
        for c in 0..5 {
            if b.cell(r, c) == Cell::Empty {
                return Some((r, c));
            }
        }
    }
    None
}

fn last_empty(b: &Board) -> Option<(usize, usize)> {
    for r in (0..5).rev() {
        for c in (0..5).rev() {
            if b.cell(r, c) == Cell::Empty {
                return Some((r, c));
            }
        }
    }
    None
}

fn rampage_game() -> Board {
    let mut b = Board::new();
    while b.get_state().0 == GamePhase::Placement {
        let pos = if b.get_state().1 == Player::Black {
            first_empty(&b).unwrap()
        } else {
            last_empty(&b).unwrap()
        };
        assert!(b.place_piece(pos.0, pos.1).is_ok());
    }
    b
}

fn movement_game() -> Board {
    let mut b = rampage_game();
    assert!(b.capture_piece(4, 1).is_ok());
    assert!(b.capture_piece(4, 2).is_ok());
    assert!(b.capture_piece(4, 3).is_ok());
    // capturing White's last stone forfeits the leftover debt and enters
    // the movement phase with the win signalled
    assert!(b.capture_piece(4, 4).is_err());
    assert_eq!(b.get_state().0, GamePhase::Movement);
    b
}

fn fingerprint(b: &Board) -> (Vec<Cell>, GamePhase, Player, usize, u32, u32, u32, Player) {
    let mut cells = Vec::new();
    for r in 0..5 {
        for c in 0..5 {
            cells.push(b.cell(r, c));
        }
    }
    (
        cells,
        b.get_state().0,
        b.get_state().1,
        b.get_game_record().len(),
        b.capture_remaining(Player::Black),
        b.capture_remaining(Player::White),
        b.extra_moves(),
        b.capture_turn(),
    )
}

#[test]
fn advisor_never_mutates_the_board() {
    // Snapshot isolation: every advisory call leaves the authoritative
    // board exactly as it was.
    let b = Board::new();
    let before = fingerprint(&b);
    let _ = advise_placement(&b);
    let _ = advise_capture(&b);
    let _ = advise_movement(&b, 2, 6);
    let _ = simulate_move(&b, (0, 0), (0, 1), 6);
    let _ = static_eval(&b, Player::Black);
    assert_eq!(fingerprint(&b), before);

    let m = rampage_game();
    let before = fingerprint(&m);
    let _ = advise_placement(&m);
    let _ = advise_capture(&m);
    let _ = advise_movement(&m, 2, 6);
    let _ = simulate_move(&m, (4, 0), (4, 1), 6);
    let _ = static_eval(&m, Player::White);
    assert_eq!(fingerprint(&m), before);
}

#[test]
fn placement_advice_prefers_the_centre() {
    // On the empty grid all cells score alike except for the positional
    // weight, which peaks at the centre.
    let b = Board::new();
    assert_eq!(advise_placement(&b), Some((2, 2)));
    // base worth plus positional weight, nothing else on an empty grid
    assert_eq!(place_score_exec(&b, 0, 0, Player::Black), 14);
    assert_eq!(place_score_exec(&b, 2, 2, Player::Black), 22);
}

#[test]
fn placement_advice_none_on_full_board() {
    let b = rampage_game();
    // placement ended with a full grid
    assert_eq!(advise_placement(&b), None);
}

#[test]
fn capture_advice_prefers_the_centre_file() {
    // Black to capture in the rampage game; White's stones sit at
    // (4,1)..(4,4) and the centre-column stone scores highest.
    let b = rampage_game();
    assert_eq!(b.get_state(), (GamePhase::Capture, Player::Black));
    assert_eq!(capture_score_exec(4, 2), 33);
    assert_eq!(capture_score_exec(4, 4), 14);
    assert_eq!(advise_capture(&b), Some((4, 2)));
}

#[test]
fn movement_advice_returns_a_legal_move() {
    let b = movement_game();
    assert_eq!(b.get_state().0, GamePhase::Movement);
    let mv = advise_movement(&b, 3, 10).unwrap();
    let ((fr, fc), (tr, tc)) = mv;
    let me = b.get_state().1;
    assert_eq!(b.cell(fr, fc), Cell::Occupied(me));
    assert_eq!(b.cell(tr, tc), Cell::Empty);
    let dr = if fr >= tr { fr - tr } else { tr - fr };
    let dc = if fc >= tc { fc - tc } else { tc - fc };
    assert_eq!(dr + dc, 1);
    // the enumeration agrees
    let all = legal_moves(&b);
    assert!(all.contains(&mv));
    assert!(!all.is_empty());
}

#[test]
fn simulate_rejects_illegal_moves() {
    let b = movement_game();
    // moving from an empty point is no move at all
    assert_eq!(simulate_move(&b, (4, 1), (4, 2), 8), None);
    // a legal move yields a bounded score
    let moves = legal_moves(&b);
    let (from, to) = moves[0];
    let s = simulate_move(&b, from, to, 8).unwrap();
    assert!((-3000..=3000).contains(&s));
}

#[test]
fn static_eval_exact_values() {
    let b = Board::new();
    assert_eq!(static_eval(&b, Player::Black), 0);
    assert_eq!(static_eval(&b, Player::White), 0);
    let mut b = Board::new();
    assert_eq!(b.place_piece(2, 2), Ok(0));
    // one Black stone in the centre: ten for the stone, twelve for control
    assert_eq!(static_eval(&b, Player::Black), 22);
    assert_eq!(static_eval(&b, Player::White), -22);
}

#[test]
fn rollout_zero_plies_is_the_static_worth() {
    let b = movement_game();
    let me = b.get_state().1;
    let expected = static_eval(&b, me);
    let mut sim = b.snapshot();
    assert_eq!(rollout(&mut sim, me, 0), expected);
}

#[test]
fn rollout_scores_a_decided_position() {
    // White is out of stones: the position is decided before any ply.
    let b = movement_game();
    let mut sim = b.snapshot();
    assert_eq!(rollout(&mut sim, Player::Black, 5), 100);
    let mut sim = b.snapshot();
    assert_eq!(rollout(&mut sim, Player::White, 5), -100);
}

#[test]
fn simulate_reports_an_immobilizing_move() {
    // Any legal Black move leaves the stoneless White side immobilized:
    // the simulation reports the decisive score without a rollout.
    let b = movement_game();
    assert_eq!(simulate_move(&b, (4, 0), (4, 1), 8), Some(100));
}

#[test]
fn pieces_come_in_row_major_order() {
    let b = rampage_game();
    let white = b.player_pieces(Player::White);
    assert_eq!(white, vec![(4, 1), (4, 2), (4, 3), (4, 4)]);
}

#[test]
fn legal_moves_lists_every_move() {
    // Black's stones fill rows 0..=3 and (4,0); the four empty points of
    // row 4 admit exactly five moves.
    let b = movement_game();
    let moves = legal_moves(&b);
    assert_eq!(moves.len(), 5);
    for mv in [
        ((3, 1), (4, 1)),
        ((4, 0), (4, 1)),
        ((3, 2), (4, 2)),
        ((3, 3), (4, 3)),
        ((3, 4), (4, 4)),
    ] {
        assert!(moves.contains(&mv));
    }
}

#[test]
fn mean_comparison_is_exact() {
    assert!(better_mean(3, 2, 1, 1));
    assert!(!better_mean(1, 1, 3, 2));
    assert!(!better_mean(2, 4, 1, 2));
    assert!(better_mean(-1, 2, -2, 3));
    assert!(!better_mean(-2, 3, -1, 2));
}
