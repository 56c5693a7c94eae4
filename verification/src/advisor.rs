//! The move advisor.
//!
//! Everything here reads the authoritative board through a shared
//! reference and explores hypothetical futures only on deep copies, so a
//! recommendation can never change the game state. Placement and capture
//! advice are deterministic scored scans, specified exactly; movement
//! advice ranks the legal moves by randomized self-play rollouts, so its
//! contract promises a legal recommendation while the ranking itself
//! depends on the random draws.

use vstd::prelude::*;

use crate::board::Board;
use crate::game::{Cell, GameError, GamePhase, Player, RewardPattern};
use crate::model::{
    BoardV, abs_d, capturable_exists, cell_of, col_complete, count_pieces, dragon_complete,
    grid_full, in_bounds, lemma_count_pieces_bound, owned_by, protected_spec, quota_squares,
    quota_tetras, quota_tris, row_complete, spec_move, spec_winner, square_contains, adjacent,
};

verus! {

// ---------------------------------------------------------------------------
// Scores
// ---------------------------------------------------------------------------

/// Static positional weight, biased towards the centre of the grid.
pub open spec fn cell_weight(r: int, c: int) -> int {
    12 - 2 * (abs_d(r, 2) + abs_d(c, 2))
}

pub open spec fn corner_owned_or_is(
    g: Seq<Cell>,
    rr: int,
    cc: int,
    r: int,
    c: int,
    p: Player,
) -> bool {
    (rr == r && cc == c) || owned_by(g, rr, cc, p)
}

/// Placing a stone of `p` at (r, c) would complete the square anchored at
/// flat index `a`: the square contains the point and `p` already owns its
/// other three corners.
pub open spec fn would_complete_square(g: Seq<Cell>, a: int, r: int, c: int, p: Player) -> bool {
    let ar = a / 4;
    let ac = a % 4;
    &&& square_contains(ar, ac, r, c)
    &&& corner_owned_or_is(g, ar, ac, r, c, p)
    &&& corner_owned_or_is(g, ar, ac + 1, r, c, p)
    &&& corner_owned_or_is(g, ar + 1, ac, r, c, p)
    &&& corner_owned_or_is(g, ar + 1, ac + 1, r, c, p)
}

pub open spec fn count_would_complete(g: Seq<Cell>, r: int, c: int, p: Player, k: nat) -> nat
    decreases k,
{
    if k == 0 {
        0
    } else {
        count_would_complete(g, r, c, p, (k - 1) as nat) + if would_complete_square(
            g,
            k - 1,
            r,
            c,
            p,
        ) {
            1nat
        } else {
            0nat
        }
    }
}

/// The square anchored at `a` is a standing threat of `o` that a placement
/// at (r, c) would leave intact: the placement is not on the square, `o`
/// owns three of its corners and the fourth is empty.
pub open spec fn threat_square(g: Seq<Cell>, a: int, r: int, c: int, o: Player) -> bool {
    let ar = a / 4;
    let ac = a % 4;
    &&& !square_contains(ar, ac, r, c)
    &&& owned_corners(g, ar, ac, o) == 3
    &&& empty_corners(g, ar, ac) == 1
}

pub open spec fn owned_corners(g: Seq<Cell>, ar: int, ac: int, p: Player) -> int {
    (if owned_by(g, ar, ac, p) {
        1int
    } else {
        0int
    }) + (if owned_by(g, ar, ac + 1, p) {
        1int
    } else {
        0int
    }) + (if owned_by(g, ar + 1, ac, p) {
        1int
    } else {
        0int
    }) + (if owned_by(g, ar + 1, ac + 1, p) {
        1int
    } else {
        0int
    })
}

pub open spec fn empty_corners(g: Seq<Cell>, ar: int, ac: int) -> int {
    (if cell_of(g, ar, ac) == Cell::Empty {
        1int
    } else {
        0int
    }) + (if cell_of(g, ar, ac + 1) == Cell::Empty {
        1int
    } else {
        0int
    }) + (if cell_of(g, ar + 1, ac) == Cell::Empty {
        1int
    } else {
        0int
    }) + (if cell_of(g, ar + 1, ac + 1) == Cell::Empty {
        1int
    } else {
        0int
    })
}

pub open spec fn count_threats(g: Seq<Cell>, r: int, c: int, o: Player, k: nat) -> nat
    decreases k,
{
    if k == 0 {
        0
    } else {
        count_threats(g, r, c, o, (k - 1) as nat) + if threat_square(g, k - 1, r, c, o) {
            1nat
        } else {
            0nat
        }
    }
}

/// The placement heuristic: a base worth, the squares the stone would
/// complete, the positional weight, minus the opposing near-complete
/// squares it would leave standing.
pub open spec fn place_score(g: Seq<Cell>, r: int, c: int, p: Player) -> int {
    10 + 50 * count_would_complete(g, r, c, p, 16) + cell_weight(r, c) - 20 * count_threats(
        g,
        r,
        c,
        p.spec_opponent(),
        16,
    )
}

/// The capture heuristic: a base worth, the positional weight, and a bonus
/// for a stone on the central row or column, which tends to guard reward
/// patterns.
pub open spec fn capture_score(r: int, c: int) -> int {
    10 + cell_weight(r, c) + if r == 2 || c == 2 {
        15int
    } else {
        0int
    }
}

/// A legal movement-phase step on board value `v`.
pub open spec fn move_legal(v: BoardV, fr: int, fc: int, tr: int, tc: int) -> bool {
    &&& in_bounds(fr, fc)
    &&& in_bounds(tr, tc)
    &&& owned_by(v.grid, fr, fc, v.current)
    &&& cell_of(v.grid, tr, tc) == Cell::Empty
    &&& adjacent(fr, fc, tr, tc)
}

// ---------------------------------------------------------------------------
// Randomness
// ---------------------------------------------------------------------------

/// Relies on `rand::Rng::gen_range` over `rand::thread_rng`: a uniform
/// draw from `0..n`, which is in range and panics only on an empty range,
/// excluded here. Nothing more is assumed: two calls may differ.
#[verifier::external_body]
fn random_below(n: usize) -> (r: usize)
    requires
        n > 0,
    ensures
        r < n,
{
    rand::Rng::gen_range(&mut rand::thread_rng(), 0..n)
}

// ---------------------------------------------------------------------------
// Deterministic scoring, executable
// ---------------------------------------------------------------------------

fn weight_exec(r: usize, c: usize) -> (w: i64)
    requires
        r < 5,
        c < 5,
    ensures
        w as int == cell_weight(r as int, c as int),
{
    let dr = if r >= 2 {
        r - 2
    } else {
        2 - r
    };
    let dc = if c >= 2 {
        c - 2
    } else {
        2 - c
    };
    12 - 2 * ((dr + dc) as i64)
}

fn corner_ok(b: &Board, rr: usize, cc: usize, r: usize, c: usize, p: Player) -> (res: bool)
    requires
        b.grid_ok(),
        rr < 5,
        cc < 5,
    ensures
        res == corner_owned_or_is(b@.grid, rr as int, cc as int, r as int, c as int, p),
{
    (rr == r && cc == c) || b.cell(rr, cc) == Cell::Occupied(p)
}

fn count_would_complete_exec(b: &Board, r: usize, c: usize, p: Player) -> (n: u32)
    requires
        b.grid_ok(),
        r < 5,
        c < 5,
    ensures
        n as nat == count_would_complete(b@.grid, r as int, c as int, p, 16),
        n <= 16,
{
    let mut n: u32 = 0;
    let mut a: usize = 0;
    while a < 16
        invariant
            b.grid_ok(),
            r < 5,
            c < 5,
            a <= 16,
            n <= a,
            n as nat == count_would_complete(b@.grid, r as int, c as int, p, a as nat),
        decreases 16 - a,
    {
        let ar = a / 4;
        let ac = a % 4;
        if (r == ar || r == ar + 1) && (c == ac || c == ac + 1) && corner_ok(b, ar, ac, r, c, p)
            && corner_ok(b, ar, ac + 1, r, c, p) && corner_ok(b, ar + 1, ac, r, c, p) && corner_ok(
            b,
            ar + 1,
            ac + 1,
            r,
            c,
            p,
        ) {
            n += 1;
        }
        a += 1;
    }
    n
}

fn owned_corners_exec(b: &Board, ar: usize, ac: usize, p: Player) -> (n: u32)
    requires
        b.grid_ok(),
        ar < 4,
        ac < 4,
    ensures
        n as int == owned_corners(b@.grid, ar as int, ac as int, p),
{
    let mut n: u32 = 0;
    if b.cell(ar, ac) == Cell::Occupied(p) {
        n += 1;
    }
    if b.cell(ar, ac + 1) == Cell::Occupied(p) {
        n += 1;
    }
    if b.cell(ar + 1, ac) == Cell::Occupied(p) {
        n += 1;
    }
    if b.cell(ar + 1, ac + 1) == Cell::Occupied(p) {
        n += 1;
    }
    n
}

fn empty_corners_exec(b: &Board, ar: usize, ac: usize) -> (n: u32)
    requires
        b.grid_ok(),
        ar < 4,
        ac < 4,
    ensures
        n as int == empty_corners(b@.grid, ar as int, ac as int),
{
    let mut n: u32 = 0;
    if b.cell(ar, ac) == Cell::Empty {
        n += 1;
    }
    if b.cell(ar, ac + 1) == Cell::Empty {
        n += 1;
    }
    if b.cell(ar + 1, ac) == Cell::Empty {
        n += 1;
    }
    if b.cell(ar + 1, ac + 1) == Cell::Empty {
        n += 1;
    }
    n
}

fn count_threats_exec(b: &Board, r: usize, c: usize, o: Player) -> (n: u32)
    requires
        b.grid_ok(),
        r < 5,
        c < 5,
    ensures
        n as nat == count_threats(b@.grid, r as int, c as int, o, 16),
        n <= 16,
{
    let mut n: u32 = 0;
    let mut a: usize = 0;
    while a < 16
        invariant
            b.grid_ok(),
            r < 5,
            c < 5,
            a <= 16,
            n <= a,
            n as nat == count_threats(b@.grid, r as int, c as int, o, a as nat),
        decreases 16 - a,
    {
        let ar = a / 4;
        let ac = a % 4;
        let on_square = (r == ar || r == ar + 1) && (c == ac || c == ac + 1);
        if !on_square && owned_corners_exec(b, ar, ac, o) == 3 && empty_corners_exec(b, ar, ac)
            == 1 {
            n += 1;
        }
        a += 1;
    }
    n
}

/// The placement heuristic worth of the empty point (r, c) for `p`.
pub fn place_score_exec(b: &Board, r: usize, c: usize, p: Player) -> (s: i64)
    requires
        b.grid_ok(),
        r < 5,
        c < 5,
    ensures
        s as int == place_score(b@.grid, r as int, c as int, p),
        -330 <= s <= 830,
{
    let completes = count_would_complete_exec(b, r, c, p);
    let threats = count_threats_exec(b, r, c, p.opponent());
    10 + 50 * (completes as i64) + weight_exec(r, c) - 20 * (threats as i64)
}

/// The capture heuristic worth of the target point (r, c).
pub fn capture_score_exec(r: usize, c: usize) -> (s: i64)
    requires
        r < 5,
        c < 5,
    ensures
        s as int == capture_score(r as int, c as int),
        0 <= s <= 40,
{
    let bonus: i64 = if r == 2 || c == 2 {
        15
    } else {
        0
    };
    10 + weight_exec(r, c) + bonus
}

// ---------------------------------------------------------------------------
// Placement and capture advice
// ---------------------------------------------------------------------------

/// Recommend a placement for the player to act: the empty point with the
/// highest heuristic worth, scanning row-major and keeping the first
/// strict maximum. `None` exactly when the grid is full. The board is only
/// read.
pub fn advise_placement(b: &Board) -> (res: Option<(usize, usize)>)
    requires
        b.wf(),
    ensures
        res is None <==> grid_full(b@.grid),
        match res {
            Some(pos) => {
                &&& pos.0 < 5 && pos.1 < 5
                &&& cell_of(b@.grid, pos.0 as int, pos.1 as int) == Cell::Empty
                &&& (forall|r2: int, c2: int|
                    #![trigger cell_of(b@.grid, r2, c2)]
                    in_bounds(r2, c2) && cell_of(b@.grid, r2, c2) == Cell::Empty ==> place_score(
                        b@.grid,
                        r2,
                        c2,
                        b@.current,
                    ) <= place_score(b@.grid, pos.0 as int, pos.1 as int, b@.current))
                &&& (forall|r2: int, c2: int|
                    #![trigger cell_of(b@.grid, r2, c2)]
                    in_bounds(r2, c2) && cell_of(b@.grid, r2, c2) == Cell::Empty && r2 * 5 + c2
                        < pos.0 * 5 + pos.1 ==> place_score(b@.grid, r2, c2, b@.current)
                        < place_score(b@.grid, pos.0 as int, pos.1 as int, b@.current))
            },
            None => true,
        },
{
    let p = self_player(b);
    let mut best: Option<(usize, usize)> = None;
    let mut best_score: i64 = 0;
    let mut i: usize = 0;
    while i < 25
        invariant
            b.wf(),
            i <= 25,
            p == b@.current,
            match best {
                None => forall|j: int| 0 <= j < i ==> b@.grid[j] != Cell::Empty,
                Some(pos) => {
                    &&& pos.0 < 5 && pos.1 < 5
                    &&& pos.0 * 5 + pos.1 < i
                    &&& b@.grid[pos.0 * 5 + pos.1] == Cell::Empty
                    &&& best_score as int == place_score(
                        b@.grid,
                        pos.0 as int,
                        pos.1 as int,
                        p,
                    )
                    &&& (forall|j: int|
                        0 <= j < i && b@.grid[j] == Cell::Empty ==> place_score(
                            b@.grid,
                            j / 5,
                            j % 5,
                            p,
                        ) <= best_score as int)
                    &&& (forall|j: int|
                        0 <= j < pos.0 * 5 + pos.1 && b@.grid[j] == Cell::Empty ==> place_score(
                            b@.grid,
                            j / 5,
                            j % 5,
                            p,
                        ) < best_score as int)
                },
            },
        decreases 25 - i,
    {
        proof {
            assert((i as int / 5) * 5 + (i as int % 5) == i as int) by (nonlinear_arith)
                requires
                    0 <= i < 25,
            ;
        }
        if b.cell(i / 5, i % 5) == Cell::Empty {
            let s = place_score_exec(b, i / 5, i % 5, p);
            let take = match best {
                None => true,
                Some(_) => s > best_score,
            };
            if take {
                best = Some((i / 5, i % 5));
                best_score = s;
            }
        }
        i += 1;
    }
    proof {
        if best is Some {
            let pos = best->Some_0;
            assert forall|r2: int, c2: int|
                in_bounds(r2, c2) && #[trigger] cell_of(b@.grid, r2, c2)
                    == Cell::Empty implies place_score(b@.grid, r2, c2, b@.current) <= place_score(
                b@.grid,
                pos.0 as int,
                pos.1 as int,
                b@.current,
            ) by {
                let j = r2 * 5 + c2;
                assert(j / 5 == r2 && j % 5 == c2) by (nonlinear_arith)
                    requires
                        0 <= r2 < 5 && 0 <= c2 < 5 && j == r2 * 5 + c2,
                ;
            }
            assert forall|r2: int, c2: int|
                in_bounds(r2, c2) && #[trigger] cell_of(b@.grid, r2, c2) == Cell::Empty && r2 * 5
                    + c2 < pos.0 * 5 + pos.1 implies place_score(b@.grid, r2, c2, b@.current)
                < place_score(b@.grid, pos.0 as int, pos.1 as int, b@.current) by {
                let j = r2 * 5 + c2;
                assert(j / 5 == r2 && j % 5 == c2) by (nonlinear_arith)
                    requires
                        0 <= r2 < 5 && 0 <= c2 < 5 && j == r2 * 5 + c2,
                ;
            }
        } else {
            assert(grid_full(b@.grid));
        }
    }
    best
}

/// Recommend a capture target for the player to act: the unprotected
/// opposing stone with the highest heuristic worth, scanning row-major and
/// keeping the first strict maximum. `None` exactly when no legal target
/// exists. The board is only read.
pub fn advise_capture(b: &Board) -> (res: Option<(usize, usize)>)
    requires
        b.wf(),
    ensures
        res is None <==> !capturable_exists(b@, b@.current.spec_opponent()),
        match res {
            Some(pos) => {
                let o = b@.current.spec_opponent();
                &&& pos.0 < 5 && pos.1 < 5
                &&& owned_by(b@.grid, pos.0 as int, pos.1 as int, o)
                &&& !protected_spec(b@, pos.0 as int, pos.1 as int, o)
                &&& (forall|r2: int, c2: int|
                    #![trigger owned_by(b@.grid, r2, c2, o)]
                    in_bounds(r2, c2) && owned_by(b@.grid, r2, c2, o) && !protected_spec(
                        b@,
                        r2,
                        c2,
                        o,
                    ) ==> capture_score(r2, c2) <= capture_score(pos.0 as int, pos.1 as int))
            },
            None => true,
        },
{
    let o = self_player(b).opponent();
    let mut best: Option<(usize, usize)> = None;
    let mut best_score: i64 = 0;
    let mut i: usize = 0;
    while i < 25
        invariant
            b.wf(),
            i <= 25,
            o == b@.current.spec_opponent(),
            match best {
                None => forall|j: int|
                    0 <= j < i ==> !(b@.grid[j] == Cell::Occupied(o) && !protected_spec(
                        b@,
                        j / 5,
                        j % 5,
                        o,
                    )),
                Some(pos) => {
                    &&& pos.0 < 5 && pos.1 < 5
                    &&& pos.0 * 5 + pos.1 < i
                    &&& owned_by(b@.grid, pos.0 as int, pos.1 as int, o)
                    &&& !protected_spec(b@, pos.0 as int, pos.1 as int, o)
                    &&& best_score as int == capture_score(pos.0 as int, pos.1 as int)
                    &&& (forall|j: int|
                        0 <= j < i && b@.grid[j] == Cell::Occupied(o) && !protected_spec(
                            b@,
                            j / 5,
                            j % 5,
                            o,
                        ) ==> capture_score(j / 5, j % 5) <= best_score as int)
                },
            },
        decreases 25 - i,
    {
        proof {
            assert((i as int / 5) * 5 + (i as int % 5) == i as int) by (nonlinear_arith)
                requires
                    0 <= i < 25,
            ;
        }
        if b.cell(i / 5, i % 5) == Cell::Occupied(o) && !b.is_protected_for(i / 5, i % 5, o) {
            let s = capture_score_exec(i / 5, i % 5);
            let take = match best {
                None => true,
                Some(_) => s > best_score,
            };
            if take {
                best = Some((i / 5, i % 5));
                best_score = s;
            }
        }
        i += 1;
    }
    proof {
        let oo = b@.current.spec_opponent();
        if best is Some {
            let pos = best->Some_0;
            assert(capturable_exists(b@, oo)) by {
                assert(owned_by(b@.grid, pos.0 as int, pos.1 as int, oo) && !protected_spec(
                    b@,
                    pos.0 as int,
                    pos.1 as int,
                    oo,
                ));
            }
            assert forall|r2: int, c2: int|
                in_bounds(r2, c2) && #[trigger] owned_by(b@.grid, r2, c2, oo) && !protected_spec(
                    b@,
                    r2,
                    c2,
                    oo,
                ) implies capture_score(r2, c2) <= capture_score(pos.0 as int, pos.1 as int) by {
                let j = r2 * 5 + c2;
                assert(j / 5 == r2 && j % 5 == c2) by (nonlinear_arith)
                    requires
                        0 <= r2 < 5 && 0 <= c2 < 5 && j == r2 * 5 + c2,
                ;
            }
        } else {
            assert forall|r2: int, c2: int|
                in_bounds(r2, c2) && #[trigger] owned_by(b@.grid, r2, c2, oo) implies
            protected_spec(b@, r2, c2, oo) by {
                let j = r2 * 5 + c2;
                assert(j / 5 == r2 && j % 5 == c2) by (nonlinear_arith)
                    requires
                        0 <= r2 < 5 && 0 <= c2 < 5 && j == r2 * 5 + c2,
                ;
            }
        }
    }
    best
}

fn self_player(b: &Board) -> (p: Player)
    ensures
        p == b@.current,
{
    let (_, p) = b.get_state();
    p
}

// ---------------------------------------------------------------------------
// Static evaluation of a finished rollout
// ---------------------------------------------------------------------------

pub open spec fn rows1(v: BoardV, p: Player, k: nat) -> nat
    decreases k,
{
    if k == 0 {
        0
    } else {
        rows1(v, p, (k - 1) as nat) + if v.trig_rows[k - 1] && row_complete(v.grid, k - 1, p) {
            1nat
        } else {
            0nat
        }
    }
}

pub open spec fn cols1(v: BoardV, p: Player, k: nat) -> nat
    decreases k,
{
    if k == 0 {
        0
    } else {
        cols1(v, p, (k - 1) as nat) + if v.trig_cols[k - 1] && col_complete(v.grid, k - 1, p) {
            1nat
        } else {
            0nat
        }
    }
}

pub open spec fn dragons1(v: BoardV, p: Player, k: nat) -> nat
    decreases k,
{
    if k == 0 {
        0
    } else {
        dragons1(v, p, (k - 1) as nat) + if v.trig_dragons[k - 1] && dragon_complete(
            v.grid,
            k - 1,
            p,
        ) {
            1nat
        } else {
            0nat
        }
    }
}

/// How many triggered pattern instances `p` currently owns, each counted
/// once.
pub open spec fn pattern_count(v: BoardV, p: Player) -> nat {
    quota_squares(v, p, 16) + quota_tris(v, p, 4) + quota_tetras(v, p, 4) + rows1(v, p, 5) + cols1(
        v,
        p,
        5,
    ) + dragons1(v, p, 2)
}

/// How many of `p`'s stones are protected, over the first `n` points.
pub open spec fn protected_count(v: BoardV, p: Player, n: nat) -> nat
    decreases n,
{
    if n == 0 {
        0
    } else {
        protected_count(v, p, (n - 1) as nat) + if protected_spec(
            v,
            (n - 1) as int / 5,
            (n - 1) as int % 5,
            p,
        ) {
            1nat
        } else {
            0nat
        }
    }
}

/// Positional control: the summed centre-biased weights of `p`'s stones
/// over the first `n` points.
pub open spec fn control(g: Seq<Cell>, p: Player, n: nat) -> int
    decreases n,
{
    if n == 0 {
        0
    } else {
        control(g, p, (n - 1) as nat) + if g[n - 1] == Cell::Occupied(p) {
            cell_weight((n - 1) as int / 5, (n - 1) as int % 5)
        } else {
            0int
        }
    }
}

/// The static worth of a position from `p`'s side: stone-count difference,
/// owned-pattern difference, protected-stone difference and positional
/// control.
pub open spec fn static_eval_spec(v: BoardV, p: Player) -> int {
    let o = p.spec_opponent();
    10 * count_pieces(v.grid, p) - 10 * count_pieces(v.grid, o) + 50 * pattern_count(v, p) - 50
        * pattern_count(v, o) + 5 * protected_count(v, p, 25) - 5 * protected_count(v, o, 25)
        + control(v.grid, p, 25) - control(v.grid, o, 25)
}

fn pattern_count_exec(b: &Board, p: Player) -> (n: u32)
    requires
        b.shaped(),
    ensures
        n as nat == pattern_count(b@, p),
        n <= 36,
{
    let mut n: u32 = 0;
    let mut a: usize = 0;
    while a < 16
        invariant
            b.shaped(),
            a <= 16,
            n <= a,
            n as nat == quota_squares(b@, p, a as nat),
        decreases 16 - a,
    {
        proof {
            assert((a as int / 4) * 4 + (a as int % 4) == a as int) by (nonlinear_arith)
                requires
                    0 <= a < 16,
            ;
        }
        if b.is_pattern_triggered(&RewardPattern::Square { top_left: (a / 4, a % 4) })
            && b.is_square(a / 4, a % 4, p) {
            n += 1;
        }
        a += 1;
    }
    let ghost b0: nat = n as nat;
    let mut id: usize = 0;
    while id < 4
        invariant
            b.shaped(),
            id <= 4,
            n <= 16 + id,
            b0 == quota_squares(b@, p, 16),
            n as nat == b0 + quota_tris(b@, p, id as nat),
        decreases 4 - id,
    {
        if b.is_pattern_triggered(&RewardPattern::Tri { id }) && b.is_tri(id, p) {
            n += 1;
        }
        id += 1;
    }
    let ghost b1: nat = n as nat;
    let mut id2: usize = 0;
    while id2 < 4
        invariant
            b.shaped(),
            id2 <= 4,
            n <= 20 + id2,
            b1 == quota_squares(b@, p, 16) + quota_tris(b@, p, 4),
            n as nat == b1 + quota_tetras(b@, p, id2 as nat),
        decreases 4 - id2,
    {
        if b.is_pattern_triggered(&RewardPattern::Tetra { id: id2 }) && b.is_tetra(id2, p) {
            n += 1;
        }
        id2 += 1;
    }
    let ghost b2: nat = n as nat;
    let mut rr: usize = 0;
    while rr < 5
        invariant
            b.shaped(),
            rr <= 5,
            n <= 24 + rr,
            b2 == quota_squares(b@, p, 16) + quota_tris(b@, p, 4) + quota_tetras(b@, p, 4),
            n as nat == b2 + rows1(b@, p, rr as nat),
        decreases 5 - rr,
    {
        if b.is_pattern_triggered(&RewardPattern::Row { index: rr }) && b.is_row(rr, p) {
            n += 1;
        }
        rr += 1;
    }
    let ghost b3: nat = n as nat;
    let mut cc: usize = 0;
    while cc < 5
        invariant
            b.shaped(),
            cc <= 5,
            n <= 29 + cc,
            b3 == quota_squares(b@, p, 16) + quota_tris(b@, p, 4) + quota_tetras(b@, p, 4) + rows1(
                b@,
                p,
                5,
            ),
            n as nat == b3 + cols1(b@, p, cc as nat),
        decreases 5 - cc,
    {
        if b.is_pattern_triggered(&RewardPattern::Col { index: cc }) && b.is_col(cc, p) {
            n += 1;
        }
        cc += 1;
    }
    let ghost b4: nat = n as nat;
    let mut dd: usize = 0;
    while dd < 2
        invariant
            b.shaped(),
            dd <= 2,
            n <= 34 + dd,
            b4 == quota_squares(b@, p, 16) + quota_tris(b@, p, 4) + quota_tetras(b@, p, 4) + rows1(
                b@,
                p,
                5,
            ) + cols1(b@, p, 5),
            n as nat == b4 + dragons1(b@, p, dd as nat),
        decreases 2 - dd,
    {
        if b.is_pattern_triggered(&RewardPattern::Dragon { id: dd }) && b.is_dragon(dd, p) {
            n += 1;
        }
        dd += 1;
    }
    n
}

fn protected_count_exec(b: &Board, p: Player) -> (n: u32)
    requires
        b.shaped(),
    ensures
        n as nat == protected_count(b@, p, 25),
        n <= 25,
{
    let mut n: u32 = 0;
    let mut i: usize = 0;
    while i < 25
        invariant
            b.shaped(),
            i <= 25,
            n <= i,
            n as nat == protected_count(b@, p, i as nat),
        decreases 25 - i,
    {
        if b.is_protected_for(i / 5, i % 5, p) {
            n += 1;
        }
        i += 1;
    }
    n
}

fn control_exec(b: &Board, p: Player) -> (s: i64)
    requires
        b.grid_ok(),
    ensures
        s as int == control(b@.grid, p, 25),
        0 <= s <= 300,
{
    let mut s: i64 = 0;
    let mut i: usize = 0;
    while i < 25
        invariant
            b.grid_ok(),
            i <= 25,
            0 <= s <= 12 * i,
            s as int == control(b@.grid, p, i as nat),
        decreases 25 - i,
    {
        proof {
            assert((i as int / 5) * 5 + (i as int % 5) == i as int) by (nonlinear_arith)
                requires
                    0 <= i < 25,
            ;
        }
        if b.cell(i / 5, i % 5) == Cell::Occupied(p) {
            s += weight_exec(i / 5, i % 5);
        }
        i += 1;
    }
    s
}

/// The static worth of the position from `p`'s side.
pub fn static_eval(b: &Board, p: Player) -> (s: i64)
    requires
        b.wf(),
    ensures
        s as int == static_eval_spec(b@, p),
        -3000 <= s <= 3000,
{
    let o = p.opponent();
    let mine = b.player_pieces(p).len();
    let theirs = b.player_pieces(o).len();
    proof {
        lemma_count_pieces_bound(b@.grid, p, 25);
        lemma_count_pieces_bound(b@.grid, o, 25);
    }
    let my_pat = pattern_count_exec(b, p);
    let their_pat = pattern_count_exec(b, o);
    let my_prot = protected_count_exec(b, p);
    let their_prot = protected_count_exec(b, o);
    let my_ctrl = control_exec(b, p);
    let their_ctrl = control_exec(b, o);
    10 * (mine as i64) - 10 * (theirs as i64) + 50 * (my_pat as i64) - 50 * (their_pat as i64) + 5
        * (my_prot as i64) - 5 * (their_prot as i64) + my_ctrl - their_ctrl
}

// ---------------------------------------------------------------------------
// Legal moves and rollouts
// ---------------------------------------------------------------------------

/// Every legal movement-phase step of the player to act, each source in
/// row-major order: the list holds only legal steps, and it is empty only
/// when the player has none.
/// An element a sequence holds is still held after a push.
proof fn lemma_push_keeps<T>(s: Seq<T>, y: T)
    ensures
        forall|x: T| #[trigger] s.contains(x) ==> s.push(y).contains(x),
{
    assert forall|x: T| #[trigger] s.contains(x) implies s.push(y).contains(x) by {
        let m = choose|m: int| 0 <= m < s.len() && s[m] == x;
        assert(s.push(y)[m] == x);
    }
}

pub fn legal_moves(b: &Board) -> (v: Vec<((usize, usize), (usize, usize))>)
    requires
        b.wf(),
    ensures
        forall|k: int|
            0 <= k < v@.len() ==> move_legal(
                b@,
                (#[trigger] v@[k]).0.0 as int,
                v@[k].0.1 as int,
                v@[k].1.0 as int,
                v@[k].1.1 as int,
            ),
        forall|fr: int, fc: int, tr: int, tc: int|
            #[trigger] move_legal(b@, fr, fc, tr, tc) ==> v@.contains(
                (((fr as usize), (fc as usize)), ((tr as usize), (tc as usize))),
            ),
{
    let p = self_player(b);
    let pieces = b.player_pieces(p);
    let mut v: Vec<((usize, usize), (usize, usize))> = Vec::new();
    let mut k: usize = 0;
    while k < pieces.len()
        invariant
            b.wf(),
            p == b@.current,
            k <= pieces.len(),
            forall|j: int|
                0 <= j < pieces@.len() ==> in_bounds(
                    #[trigger] pieces@[j].0 as int,
                    pieces@[j].1 as int,
                ) && owned_by(b@.grid, pieces@[j].0 as int, pieces@[j].1 as int, p),
            forall|r2: int, c2: int|
                in_bounds(r2, c2) && #[trigger] owned_by(b@.grid, r2, c2, p) ==> pieces@.contains(
                    ((r2 as usize), (c2 as usize)),
                ),
            forall|m: int|
                0 <= m < v@.len() ==> move_legal(
                    b@,
                    (#[trigger] v@[m]).0.0 as int,
                    v@[m].0.1 as int,
                    v@[m].1.0 as int,
                    v@[m].1.1 as int,
                ),
            forall|j: int, tr: int, tc: int|
                0 <= j < k && #[trigger] move_legal(
                    b@,
                    pieces@[j].0 as int,
                    pieces@[j].1 as int,
                    tr,
                    tc,
                ) ==> v@.contains((pieces@[j], ((tr as usize), (tc as usize)))),
        decreases pieces.len() - k,
    {
        let (r, c) = pieces[k];
        let up = r > 0 && b.cell(r - 1, c) == Cell::Empty;
        let down = r < 4 && b.cell(r + 1, c) == Cell::Empty;
        let left = c > 0 && b.cell(r, c - 1) == Cell::Empty;
        let right = c < 4 && b.cell(r, c + 1) == Cell::Empty;
        if up {
            proof {
                lemma_push_keeps(v@, ((r, c), ((r - 1) as usize, c)));
            }
            v.push(((r, c), (r - 1, c)));
            proof {
                assert(v@[v@.len() - 1] == ((r, c), ((r - 1) as usize, c)));
                assert(v@.contains(((r, c), ((r - 1) as usize, c))));
            }
        }
        if down {
            proof {
                lemma_push_keeps(v@, ((r, c), ((r + 1) as usize, c)));
            }
            v.push(((r, c), (r + 1, c)));
            proof {
                assert(v@[v@.len() - 1] == ((r, c), ((r + 1) as usize, c)));
                assert(v@.contains(((r, c), ((r + 1) as usize, c))));
            }
        }
        if left {
            proof {
                lemma_push_keeps(v@, ((r, c), (r, (c - 1) as usize)));
            }
            v.push(((r, c), (r, c - 1)));
            proof {
                assert(v@[v@.len() - 1] == ((r, c), (r, (c - 1) as usize)));
                assert(v@.contains(((r, c), (r, (c - 1) as usize))));
            }
        }
        if right {
            proof {
                lemma_push_keeps(v@, ((r, c), (r, (c + 1) as usize)));
            }
            v.push(((r, c), (r, c + 1)));
            proof {
                assert(v@[v@.len() - 1] == ((r, c), (r, (c + 1) as usize)));
                assert(v@.contains(((r, c), (r, (c + 1) as usize))));
            }
        }
        proof {
            assert forall|j: int, tr: int, tc: int|
                0 <= j < k + 1 && #[trigger] move_legal(
                    b@,
                    pieces@[j].0 as int,
                    pieces@[j].1 as int,
                    tr,
                    tc,
                ) implies v@.contains((pieces@[j], ((tr as usize), (tc as usize)))) by {
                if j == k {
                    // the move starts at the piece just processed; its
                    // target is one of the four probed neighbours, and the
                    // matching probe found it empty and pushed the move
                    assert(pieces@[j] == (r, c));
                    assert(adjacent(r as int, c as int, tr, tc));
                    if tr == r - 1 && tc == c {
                        assert(up);
                        assert(((tr as usize), (tc as usize)) == (((r - 1) as usize), c));
                    } else if tr == r + 1 && tc == c {
                        assert(down);
                        assert(((tr as usize), (tc as usize)) == (((r + 1) as usize), c));
                    } else if tr == r && tc == c - 1 {
                        assert(left);
                        assert(((tr as usize), (tc as usize)) == (r, ((c - 1) as usize)));
                    } else {
                        assert(tr == r && tc == c + 1);
                        assert(right);
                        assert(((tr as usize), (tc as usize)) == (r, ((c + 1) as usize)));
                    }
                }
            }
        }
        k += 1;
    }
    proof {
        assert forall|fr: int, fc: int, tr: int, tc: int|
            #[trigger] move_legal(b@, fr, fc, tr, tc) implies v@.contains(
            (((fr as usize), (fc as usize)), ((tr as usize), (tc as usize))),
        ) by {
            let pos = ((fr as usize), (fc as usize));
            assert(pieces@.contains(pos));
            let j = choose|j: int| 0 <= j < pieces@.len() && pieces@[j] == pos;
            assert(move_legal(b@, pieces@[j].0 as int, pieces@[j].1 as int, tr, tc));
        }
    }
    v
}

fn collect_empties(b: &Board) -> (v: Vec<(usize, usize)>)
    requires
        b.grid_ok(),
    ensures
        forall|k: int|
            0 <= k < v@.len() ==> (#[trigger] v@[k]).0 < 5 && v@[k].1 < 5 && cell_of(
                b@.grid,
                v@[k].0 as int,
                v@[k].1 as int,
            ) == Cell::Empty,
{
    let mut v: Vec<(usize, usize)> = Vec::new();
    let mut i: usize = 0;
    while i < 25
        invariant
            b.grid_ok(),
            i <= 25,
            forall|k: int|
                0 <= k < v@.len() ==> (#[trigger] v@[k]).0 < 5 && v@[k].1 < 5 && cell_of(
                    b@.grid,
                    v@[k].0 as int,
                    v@[k].1 as int,
                ) == Cell::Empty,
        decreases 25 - i,
    {
        if b.cell(i / 5, i % 5) == Cell::Empty {
            v.push((i / 5, i % 5));
        }
        i += 1;
    }
    v
}

fn collect_targets(b: &Board, victim: Player) -> (v: Vec<(usize, usize)>)
    requires
        b.wf(),
    ensures
        forall|k: int|
            0 <= k < v@.len() ==> (#[trigger] v@[k]).0 < 5 && v@[k].1 < 5 && owned_by(
                b@.grid,
                v@[k].0 as int,
                v@[k].1 as int,
                victim,
            ) && !protected_spec(b@, v@[k].0 as int, v@[k].1 as int, victim),
{
    let mut v: Vec<(usize, usize)> = Vec::new();
    let mut i: usize = 0;
    while i < 25
        invariant
            b.wf(),
            i <= 25,
            forall|k: int|
                0 <= k < v@.len() ==> (#[trigger] v@[k]).0 < 5 && v@[k].1 < 5 && owned_by(
                    b@.grid,
                    v@[k].0 as int,
                    v@[k].1 as int,
                    victim,
                ) && !protected_spec(b@, v@[k].0 as int, v@[k].1 as int, victim),
        decreases 25 - i,
    {
        if b.cell(i / 5, i % 5) == Cell::Occupied(victim) && !b.is_protected_for(
            i / 5,
            i % 5,
            victim,
        ) {
            v.push((i / 5, i % 5));
        }
        i += 1;
    }
    v
}

/// One bounded random self-play from the current position, scored from
/// `me`'s side: a decided game is worth plus or minus 100, an undecided one
/// its static worth. The board handed in is a scratch copy; whatever the
/// random draws do to it, it stays well-formed and the score stays in
/// range. On the inputs no draw ever decides, the score is fixed: with no
/// plies to play it is the position's static worth, and on an already
/// decided position it is the decisive value for or against `me`.
pub fn rollout(b: &mut Board, me: Player, max_plies: u32) -> (score: i64)
    requires
        old(b).wf(),
    ensures
        final(b).wf(),
        -3000 <= score <= 3000,
        max_plies == 0 ==> score as int == static_eval_spec(old(b)@, me),
        max_plies > 0 && spec_winner(old(b)@) is Some ==> score as int == (
        if spec_winner(old(b)@) == Some(me) {
            100int
        } else {
            -100int
        }),
{
    let ghost b0 = *b;
    let mut ply: u32 = 0;
    while ply < max_plies
        invariant
            b.wf(),
            b0 == *old(b),
            ply <= max_plies,
            ply == 0 ==> *b == b0,
            ply > 0 ==> spec_winner(b0@) is None,
        decreases max_plies - ply,
    {
        if let Some(w) = b.check_winner() {
            return if w == me {
                100
            } else {
                -100
            };
        }
        proof {
            if ply == 0 {
                assert(spec_winner(b0@) is None);
            }
        }
        let (phase, cur) = b.get_state();
        match phase {
            GamePhase::Placement => {
                let empties = collect_empties(b);
                if empties.len() == 0 {
                    return static_eval(b, me);
                }
                let k = random_below(empties.len());
                let (r, c) = empties[k];
                let _ = b.place_piece(r, c);
            },
            GamePhase::Capture => {
                let targets = collect_targets(b, cur.opponent());
                if targets.len() == 0 {
                    return static_eval(b, me);
                }
                let k = random_below(targets.len());
                let (r, c) = targets[k];
                match b.capture_piece(r, c) {
                    Err(GameError::OpponentImmobilized) => {
                        return if cur == me {
                            100
                        } else {
                            -100
                        };
                    },
                    _ => {},
                }
            },
            GamePhase::Movement => {
                let moves = legal_moves(b);
                if moves.len() == 0 {
                    return static_eval(b, me);
                }
                let k = random_below(moves.len());
                let (from, to) = moves[k];
                match b.move_piece(from, to) {
                    Err(GameError::OpponentImmobilized) => {
                        return if cur == me {
                            100
                        } else {
                            -100
                        };
                    },
                    _ => {},
                }
            },
        }
        ply += 1;
    }
    static_eval(b, me)
}

/// Score one candidate move by a single rollout on a deep copy of the
/// board: `None` exactly when the move is rejected, a decisive 100 when it
/// immobilizes the opponent on the spot, otherwise a rollout score from
/// the current player's side. The board handed in is only read.
pub fn simulate_move(b: &Board, from: (usize, usize), to: (usize, usize), max_plies: u32) -> (r:
    Option<i64>)
    requires
        b.wf(),
    ensures
        r is Some ==> -3000 <= r->0 <= 3000,
        ({
            let res = spec_move(b@, from.0 as int, from.1 as int, to.0 as int, to.1 as int).1;
            &&& (r is None <==> res is Err && res->Err_0 != GameError::OpponentImmobilized)
            &&& (res is Err && res->Err_0 == GameError::OpponentImmobilized ==> r is Some && r->0
                == 100)
        }),
{
    let me = self_player(b);
    let mut sim = b.snapshot();
    match sim.move_piece(from, to) {
        Err(GameError::OpponentImmobilized) => Some(100),
        Err(_) => None,
        Ok(_) => Some(rollout(&mut sim, me, max_plies)),
    }
}

/// Whether the running mean `sum_a / cnt_a` exceeds `sum_b / cnt_b`,
/// decided exactly by cross-multiplication.
pub fn better_mean(sum_a: i64, cnt_a: u64, sum_b: i64, cnt_b: u64) -> (r: bool)
    requires
        -0x4000_0000_0000 <= sum_a <= 0x4000_0000_0000,
        -0x4000_0000_0000 <= sum_b <= 0x4000_0000_0000,
        cnt_a <= 0x4000_0000,
        cnt_b <= 0x4000_0000,
    ensures
        r == (sum_a * cnt_b > sum_b * cnt_a),
{
    proof {
        assert(-0x1000_0000_0000_0000_0000 <= (sum_a as int) * (cnt_b as int)
            <= 0x1000_0000_0000_0000_0000) by (nonlinear_arith)
            requires
                -0x4000_0000_0000 <= sum_a <= 0x4000_0000_0000 && 0 <= cnt_b <= 0x4000_0000,
        ;
        assert(-0x1000_0000_0000_0000_0000 <= (sum_b as int) * (cnt_a as int)
            <= 0x1000_0000_0000_0000_0000) by (nonlinear_arith)
            requires
                -0x4000_0000_0000 <= sum_b <= 0x4000_0000_0000 && 0 <= cnt_a <= 0x4000_0000,
        ;
    }
    let lhs: i128 = (sum_a as i128) * (cnt_b as i128);
    let rhs: i128 = (sum_b as i128) * (cnt_a as i128);
    lhs > rhs
}

/// Recommend a movement-phase step: every legal move is scored by
/// `rollouts_per_move` random rollouts on private copies of the board, and
/// the move with the best running mean wins, first to report kept on a
/// tie. `None` exactly when the player to act has no legal move. The
/// ranking depends on the random draws; the recommendation is always a
/// legal move, and the board is only read.
pub fn advise_movement(b: &Board, rollouts_per_move: u32, max_plies: u32) -> (res: Option<
    ((usize, usize), (usize, usize)),
>)
    requires
        b.wf(),
        rollouts_per_move <= 0x10_0000,
    ensures
        res is None <==> !(exists|fr: int, fc: int, tr: int, tc: int|
            move_legal(b@, fr, fc, tr, tc)),
        match res {
            Some(mv) => move_legal(b@, mv.0.0 as int, mv.0.1 as int, mv.1.0 as int, mv.1.1 as int),
            None => true,
        },
{
    let moves = legal_moves(b);
    if moves.len() == 0 {
        return None;
    }
    let mut best_idx: usize = 0;
    let mut best_sum: i64 = 0;
    let mut best_cnt: u64 = 0;
    let mut i: usize = 0;
    while i < moves.len()
        invariant
            b.wf(),
            moves@.len() > 0,
            best_idx < moves@.len(),
            rollouts_per_move <= 0x10_0000,
            -0x4000_0000_0000 <= best_sum <= 0x4000_0000_0000,
            best_cnt <= 0x4000_0000,
            forall|k: int|
                0 <= k < moves@.len() ==> move_legal(
                    b@,
                    (#[trigger] moves@[k]).0.0 as int,
                    moves@[k].0.1 as int,
                    moves@[k].1.0 as int,
                    moves@[k].1.1 as int,
                ),
        decreases moves@.len() - i,
    {
        let (from, to) = moves[i];
        let mut sum: i64 = 0;
        let mut cnt: u64 = 0;
        let mut n: u32 = 0;
        while n < rollouts_per_move
            invariant
                b.wf(),
                n <= rollouts_per_move,
                rollouts_per_move <= 0x10_0000,
                cnt <= n,
                -3000 * (cnt as i64) <= sum <= 3000 * (cnt as i64),
            decreases rollouts_per_move - n,
        {
            match simulate_move(b, from, to, max_plies) {
                Some(s) => {
                    sum += s;
                    cnt += 1;
                },
                None => {},
            }
            n += 1;
        }
        if cnt > 0 && (best_cnt == 0 || better_mean(sum, cnt, best_sum, best_cnt)) {
            best_idx = i;
            best_sum = sum;
            best_cnt = cnt;
        }
        i += 1;
    }
    let mv = moves[best_idx];
    proof {
        assert(move_legal(b@, mv.0.0 as int, mv.0.1 as int, mv.1.0 as int, mv.1.1 as int));
    }
    Some(mv)
}

} // verus!
