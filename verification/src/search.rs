//! The adversarial search: a depth-limited minimax over the legal moves,
//! computed with alpha-beta pruning, that returns the score of a position
//! and the moves that reach it.

use crate::board::{lemma_apply_wf, Board, BoardView, Move, Player};
use crate::eval::{evaluate, heuristic, lemma_score_bounds, outcome, winner, Winner};
use crate::moves::{legal_moves, legal_moves_of, lemma_legal_moves};
use vstd::prelude::*;

verus! {

/// What a won position is worth before its depth is taken off. It lies far
/// above every positional score.
pub const WIN_SCORE: i64 = 999999;

/// Below every score: where the search for a greatest score starts.
pub const NEG_INF: i64 = -100000000007;

/// Above every score: where the search for a least score starts.
pub const POS_INF: i64 = 100000000007;

/// The search goes no further from this position: the game has ended on
/// it, or the depth has reached its bound.
pub open spec fn is_leaf(bv: BoardView, depth: int, bound: int) -> bool {
    outcome(bv) is Some || depth >= bound
}

/// The score of a position at which the search stops, seen from the
/// searching side: a win is worth `WIN_SCORE` less the squared depth, a
/// loss `-WIN_SCORE` less the squared depth, and any other position its
/// positional score, counted in favour of the searching side.
pub open spec fn leaf_score(bv: BoardView, mover: Player, depth: int) -> int {
    match winner(bv) {
        Some(p) => if p == mover {
            WIN_SCORE - depth * depth
        } else {
            -WIN_SCORE - depth * depth
        },
        None => mover.sign() * heuristic(bv.cells),
    }
}

/// At even depths the searching side moves and takes the greatest score; at
/// odd depths its opponent moves and takes the least.
pub open spec fn maximizing(depth: int) -> bool {
    depth % 2 == 0
}

/// The side that moves at a depth.
pub open spec fn side_at(mover: Player, depth: int) -> Player {
    if maximizing(depth) {
        mover
    } else {
        mover.other()
    }
}

/// The position reached by the `k`-th legal move at a depth.
pub open spec fn child(bv: BoardView, mover: Player, depth: int, k: int) -> BoardView {
    bv.apply(legal_moves(bv)[k], side_at(mover, depth))
}

pub open spec fn max_int(a: int, b: int) -> int {
    if a >= b {
        a
    } else {
        b
    }
}

pub open spec fn min_int(a: int, b: int) -> int {
    if a <= b {
        a
    } else {
        b
    }
}

/// The best score among the first `k` legal moves of a position, each move
/// scored by the full minimax of the position it leads to.
pub open spec fn mm_best(bv: BoardView, mover: Player, depth: int, bound: int, k: int) -> int
    decreases bound - depth, k,
{
    if k <= 0 || depth >= bound {
        if maximizing(depth) {
            NEG_INF as int
        } else {
            POS_INF as int
        }
    } else {
        let prev = mm_best(bv, mover, depth, bound, k - 1);
        if k > legal_moves(bv).len() {
            prev
        } else {
            let r = minimax(child(bv, mover, depth, k - 1), mover, depth + 1, bound);
            if maximizing(depth) {
                max_int(prev, r)
            } else {
                min_int(prev, r)
            }
        }
    }
}

/// The minimax score of a position: its leaf score where the search stops,
/// and else the greatest (at even depths) or least (at odd depths) minimax
/// score of the positions that its legal moves lead to. Nothing is pruned.
pub open spec fn minimax(bv: BoardView, mover: Player, depth: int, bound: int) -> int
    decreases bound - depth, legal_moves(bv).len() + 1,
{
    if is_leaf(bv, depth, bound) {
        leaf_score(bv, mover, depth)
    } else {
        mm_best(bv, mover, depth, bound, legal_moves(bv).len() as int)
    }
}

/// Where the scan of a position's moves stands: the best score so far, the
/// window, the moves that reached the best score, and whether the scan was
/// cut off.
pub struct Scan {
    pub best: int,
    pub alpha: int,
    pub beta: int,
    pub tied: Seq<Move>,
    pub cut: bool,
}

/// The scan before the first move.
pub open spec fn scan_start(depth: int, alpha: int, beta: int) -> Scan {
    Scan {
        best: if maximizing(depth) {
            NEG_INF as int
        } else {
            POS_INF as int
        },
        alpha,
        beta,
        tied: Seq::empty(),
        cut: false,
    }
}

/// The scan after one more move, which was scored `r`. A better score
/// replaces the best one and empties the list of tied moves; an equal score
/// adds its move to the list. The scan is cut off when the best score
/// leaves the window on the far side; else the window closes in on it.
pub open spec fn scan_step(s: Scan, mv: Move, r: int, maxing: bool) -> Scan {
    let better = if maxing {
        r > s.best
    } else {
        r < s.best
    };
    let best = if better {
        r
    } else {
        s.best
    };
    let tied = if better {
        seq![mv]
    } else if r == s.best {
        s.tied.push(mv)
    } else {
        s.tied
    };
    if maxing {
        if best > s.beta {
            Scan { best, alpha: s.alpha, beta: s.beta, tied, cut: true }
        } else {
            Scan { best, alpha: max_int(s.alpha, best), beta: s.beta, tied, cut: false }
        }
    } else {
        if best < s.alpha {
            Scan { best, alpha: s.alpha, beta: s.beta, tied, cut: true }
        } else {
            Scan { best, alpha: s.alpha, beta: min_int(s.beta, best), tied, cut: false }
        }
    }
}

/// The alpha-beta scan of a position after its first `k` legal moves.
pub open spec fn ab_scan(
    bv: BoardView,
    mover: Player,
    depth: int,
    bound: int,
    alpha: int,
    beta: int,
    k: int,
) -> Scan
    decreases bound - depth, k,
{
    if k <= 0 || depth >= bound {
        scan_start(depth, alpha, beta)
    } else {
        let prev = ab_scan(bv, mover, depth, bound, alpha, beta, k - 1);
        if prev.cut || k > legal_moves(bv).len() {
            prev
        } else {
            let r = ab_search(
                child(bv, mover, depth, k - 1),
                mover,
                depth + 1,
                bound,
                prev.alpha,
                prev.beta,
            ).best;
            scan_step(prev, legal_moves(bv)[k - 1], r, maximizing(depth))
        }
    }
}

/// The result of the alpha-beta search of a position within a window: at a
/// leaf its leaf score and no move, else the scan of all its legal moves.
pub open spec fn ab_search(
    bv: BoardView,
    mover: Player,
    depth: int,
    bound: int,
    alpha: int,
    beta: int,
) -> Scan
    decreases bound - depth, legal_moves(bv).len() + 1,
{
    if is_leaf(bv, depth, bound) {
        Scan { best: leaf_score(bv, mover, depth), alpha, beta, tied: Seq::empty(), cut: false }
    } else {
        ab_scan(bv, mover, depth, bound, alpha, beta, legal_moves(bv).len() as int)
    }
}

/// The legal moves among the first `k` whose position has the minimax score
/// `target`, in their order.
pub open spec fn optimal_prefix(
    bv: BoardView,
    mover: Player,
    depth: int,
    bound: int,
    target: int,
    k: int,
) -> Seq<Move>
    decreases k,
{
    if k <= 0 {
        Seq::empty()
    } else {
        let prev = optimal_prefix(bv, mover, depth, bound, target, k - 1);
        if k <= legal_moves(bv).len() && minimax(
            child(bv, mover, depth, k - 1),
            mover,
            depth + 1,
            bound,
        ) == target {
            prev.push(legal_moves(bv)[k - 1])
        } else {
            prev
        }
    }
}

/// The best moves of `mover` on a board: the legal moves that lead to a
/// position whose minimax score is the minimax score of the board itself,
/// in the order of the game's moves. There is none where the game has ended
/// or the bound is 0.
pub open spec fn optimal_moves(bv: BoardView, mover: Player, bound: int) -> Seq<Move> {
    if is_leaf(bv, 0, bound) {
        Seq::empty()
    } else {
        optimal_prefix(
            bv,
            mover,
            0,
            bound,
            minimax(bv, mover, 0, bound),
            legal_moves(bv).len() as int,
        )
    }
}

/// What a search returns: the score of the position, and the moves that
/// reach it, in the order in which they were tried. Which of them is played
/// is not for the search to say.
#[derive(Debug)]
pub struct SearchResult {
    pub score: i64,
    pub tied: Vec<Move>,
}

/// Once a scan is cut off it stays as it is.
pub proof fn lemma_cut_stays(
    bv: BoardView,
    mover: Player,
    depth: int,
    bound: int,
    alpha: int,
    beta: int,
    k: int,
    n: int,
)
    requires
        0 <= k <= n,
        ab_scan(bv, mover, depth, bound, alpha, beta, k).cut,
    ensures
        ab_scan(bv, mover, depth, bound, alpha, beta, n) == ab_scan(
            bv,
            mover,
            depth,
            bound,
            alpha,
            beta,
            k,
        ),
    decreases n - k,
{
    if k < n {
        lemma_cut_stays(bv, mover, depth, bound, alpha, beta, k, n - 1);
    }
}

/// The score of a leaf of a well-formed board lies strictly between
/// `NEG_INF` and `POS_INF`.
pub proof fn lemma_leaf_score_bounds(bv: BoardView, mover: Player, depth: int)
    requires
        bv.wf(),
        0 <= depth <= 255,
    ensures
        NEG_INF < leaf_score(bv, mover, depth) < POS_INF,
{
    lemma_position_score_bounds(bv, mover);
    assert(0 <= depth * depth <= 65025) by (nonlinear_arith)
        requires
            0 <= depth <= 255,
    ;
}

/// The positional score of a well-formed board, counted for either side,
/// lies between -10752 and 10752.
pub proof fn lemma_position_score_bounds(bv: BoardView, mover: Player)
    requires
        bv.wf(),
    ensures
        -10752 <= mover.sign() * heuristic(bv.cells) <= 10752,
{
    lemma_score_bounds(bv, 42);
    match mover {
        Player::First => {
            assert(mover.sign() * heuristic(bv.cells) == heuristic(bv.cells));
        },
        Player::Second => {
            assert(mover.sign() * heuristic(bv.cells) == -heuristic(bv.cells));
        },
    }
}

/// A win is worth more than any position without a winner, and a loss
/// less, at whatever depths the three are found.
pub proof fn law_win_dominates_position(
    won: BoardView,
    undecided: BoardView,
    lost: BoardView,
    mover: Player,
    depth_won: int,
    depth_undecided: int,
    depth_lost: int,
)
    requires
        undecided.wf(),
        0 <= depth_won <= 255,
        winner(won) == Some(mover),
        winner(undecided) is None,
        winner(lost) == Some(mover.other()),
    ensures
        leaf_score(won, mover, depth_won) > leaf_score(undecided, mover, depth_undecided),
        leaf_score(undecided, mover, depth_undecided) > leaf_score(lost, mover, depth_lost),
{
    lemma_position_score_bounds(undecided, mover);
    assert(0 <= depth_won * depth_won <= 65025) by (nonlinear_arith)
        requires
            0 <= depth_won <= 255,
    ;
    assert(0 <= depth_lost * depth_lost) by (nonlinear_arith);
}

/// Of two won positions the one found at the lesser depth is worth more, and
/// so it is of two lost positions: an earlier win is better than a later
/// one, and an earlier loss better than a later one by the same measure.
pub proof fn law_earlier_scores_higher(
    early: BoardView,
    late: BoardView,
    mover: Player,
    depth_early: int,
    depth_late: int,
)
    requires
        0 <= depth_early < depth_late,
        winner(early) is Some,
        winner(early) == winner(late),
    ensures
        leaf_score(early, mover, depth_early) > leaf_score(late, mover, depth_late),
{
    assert(depth_early * depth_early < depth_late * depth_late) by (nonlinear_arith)
        requires
            0 <= depth_early < depth_late,
    ;
}

/// A window that the bounds of the search enclose.
pub open spec fn window_ok(alpha: int, beta: int) -> bool {
    NEG_INF <= alpha <= beta <= POS_INF
}

/// How a score `r` found inside the window from `alpha` to `beta` stands to
/// the minimax score `m`: inside the window it is the minimax score; below
/// the window the minimax score is no greater than it, and above the window
/// no less.
pub open spec fn within_window(r: int, m: int, alpha: int, beta: int) -> bool {
    &&& r < alpha ==> m <= r
    &&& alpha <= r <= beta ==> m == r
    &&& r > beta ==> m >= r
}

/// How a scan that began with the window from `alpha` to `beta` stands to
/// the best minimax score `m` of the moves it has seen.
pub open spec fn scan_agrees(s: Scan, m: int, alpha: int, beta: int, maxing: bool) -> bool {
    if maxing {
        if s.cut {
            s.best > beta && m >= s.best
        } else {
            &&& NEG_INF <= s.best <= beta
            &&& s.alpha == max_int(alpha, s.best)
            &&& s.beta == beta
            &&& s.best >= alpha ==> m == s.best
            &&& s.best < alpha ==> m <= s.best
        }
    } else {
        if s.cut {
            s.best < alpha && m <= s.best
        } else {
            &&& alpha <= s.best <= POS_INF
            &&& s.alpha == alpha
            &&& s.beta == min_int(beta, s.best)
            &&& s.best <= beta ==> m == s.best
            &&& s.best > beta ==> m >= s.best
        }
    }
}

/// After any number of moves the alpha-beta scan of a position agrees with
/// the best minimax score of the moves it has seen.
pub proof fn lemma_scan_agrees(
    bv: BoardView,
    mover: Player,
    depth: int,
    bound: int,
    alpha: int,
    beta: int,
    k: int,
)
    requires
        window_ok(alpha, beta),
        depth < bound,
        0 <= k,
    ensures
        scan_agrees(
            ab_scan(bv, mover, depth, bound, alpha, beta, k),
            mm_best(bv, mover, depth, bound, k),
            alpha,
            beta,
            maximizing(depth),
        ),
    decreases bound - depth, k,
{
    if k > 0 {
        lemma_scan_agrees(bv, mover, depth, bound, alpha, beta, k - 1);
        let prev = ab_scan(bv, mover, depth, bound, alpha, beta, k - 1);
        if !prev.cut && k <= legal_moves(bv).len() {
            lemma_within_window(
                child(bv, mover, depth, k - 1),
                mover,
                depth + 1,
                bound,
                prev.alpha,
                prev.beta,
            );
        }
    }
}

/// The score that the alpha-beta search finds inside a window stands to the
/// minimax score of the position as `within_window` says.
pub proof fn lemma_within_window(
    bv: BoardView,
    mover: Player,
    depth: int,
    bound: int,
    alpha: int,
    beta: int,
)
    requires
        window_ok(alpha, beta),
    ensures
        within_window(
            ab_search(bv, mover, depth, bound, alpha, beta).best,
            minimax(bv, mover, depth, bound),
            alpha,
            beta,
        ),
    decreases bound - depth, legal_moves(bv).len() + 1,
{
    if !is_leaf(bv, depth, bound) {
        lemma_scan_agrees(bv, mover, depth, bound, alpha, beta, legal_moves(bv).len() as int);
    }
}

/// The best score of a scan on a well-formed board lies between `NEG_INF`
/// and `POS_INF`.
pub proof fn lemma_scan_bounds(
    bv: BoardView,
    mover: Player,
    depth: int,
    bound: int,
    alpha: int,
    beta: int,
    k: int,
)
    requires
        bv.wf(),
        0 <= depth < bound <= 255,
        0 <= k,
    ensures
        NEG_INF <= ab_scan(bv, mover, depth, bound, alpha, beta, k).best <= POS_INF,
    decreases bound - depth, k,
{
    if k > 0 {
        lemma_scan_bounds(bv, mover, depth, bound, alpha, beta, k - 1);
        let prev = ab_scan(bv, mover, depth, bound, alpha, beta, k - 1);
        if !prev.cut && k <= legal_moves(bv).len() {
            lemma_child_wf(bv, mover, depth, k - 1);
            lemma_search_bounds(
                child(bv, mover, depth, k - 1),
                mover,
                depth + 1,
                bound,
                prev.alpha,
                prev.beta,
            );
        }
    }
}

/// The score that the alpha-beta search finds on a well-formed board lies
/// between `NEG_INF` and `POS_INF`, whatever the window.
pub proof fn lemma_search_bounds(
    bv: BoardView,
    mover: Player,
    depth: int,
    bound: int,
    alpha: int,
    beta: int,
)
    requires
        bv.wf(),
        0 <= depth <= 255,
        bound <= 255,
    ensures
        NEG_INF <= ab_search(bv, mover, depth, bound, alpha, beta).best <= POS_INF,
    decreases bound - depth, legal_moves(bv).len() + 1,
{
    if is_leaf(bv, depth, bound) {
        lemma_leaf_score_bounds(bv, mover, depth);
    } else {
        lemma_scan_bounds(bv, mover, depth, bound, alpha, beta, legal_moves(bv).len() as int);
    }
}

/// A legal move of a well-formed board leads to a well-formed board.
pub proof fn lemma_child_wf(bv: BoardView, mover: Player, depth: int, k: int)
    requires
        bv.wf(),
        0 <= k < legal_moves(bv).len(),
    ensures
        child(bv, mover, depth, k).wf(),
        bv.legal(legal_moves(bv)[k]),
{
    lemma_legal_moves(bv);
    assert(legal_moves(bv).contains(legal_moves(bv)[k]));
    lemma_apply_wf(bv, legal_moves(bv)[k], side_at(mover, depth));
}

/// Pruning does not change the score: searched with the widest window, a
/// position gets from the alpha-beta search the score that the full
/// minimax gives it at the same depth and bound.
pub proof fn law_pruning_keeps_the_score(bv: BoardView, mover: Player, depth: int, bound: int)
    requires
        bv.wf(),
        0 <= depth <= 255,
        bound <= 255,
    ensures
        ab_search(bv, mover, depth, bound, NEG_INF as int, POS_INF as int).best == minimax(
            bv,
            mover,
            depth,
            bound,
        ),
{
    lemma_search_bounds(bv, mover, depth, bound, NEG_INF as int, POS_INF as int);
    lemma_within_window(bv, mover, depth, bound, NEG_INF as int, POS_INF as int);
}

/// No move among the first `k` reaches a score above the best of them.
pub proof fn lemma_none_above_best(
    bv: BoardView,
    mover: Player,
    depth: int,
    bound: int,
    target: int,
    k: int,
)
    requires
        maximizing(depth),
        depth < bound,
        0 <= k,
        target > mm_best(bv, mover, depth, bound, k),
    ensures
        optimal_prefix(bv, mover, depth, bound, target, k) == Seq::<Move>::empty(),
    decreases k,
{
    if k > 0 {
        lemma_none_above_best(bv, mover, depth, bound, target, k - 1);
    }
}

/// Where the searching side is to move and the window is the widest, the
/// scan is never cut off; its best score is the best minimax score of the
/// moves it has seen, and its tied moves are exactly those that reach it.
pub proof fn lemma_scan_finds_optimal(bv: BoardView, mover: Player, depth: int, bound: int, k: int)
    requires
        bv.wf(),
        maximizing(depth),
        0 <= depth < bound <= 255,
        0 <= k,
    ensures
        ({
            let s = ab_scan(bv, mover, depth, bound, NEG_INF as int, POS_INF as int, k);
            &&& !s.cut
            &&& s.best == mm_best(bv, mover, depth, bound, k)
            &&& s.alpha == s.best
            &&& s.beta == POS_INF
            &&& NEG_INF <= s.best <= POS_INF
            &&& s.tied == optimal_prefix(bv, mover, depth, bound, s.best, k)
        }),
    decreases k,
{
    if k > 0 {
        lemma_scan_finds_optimal(bv, mover, depth, bound, k - 1);
        let prev = ab_scan(bv, mover, depth, bound, NEG_INF as int, POS_INF as int, k - 1);
        let now = ab_scan(bv, mover, depth, bound, NEG_INF as int, POS_INF as int, k);
        if k <= legal_moves(bv).len() {
            let next = child(bv, mover, depth, k - 1);
            let r = ab_search(next, mover, depth + 1, bound, prev.alpha, prev.beta).best;
            lemma_child_wf(bv, mover, depth, k - 1);
            lemma_search_bounds(next, mover, depth + 1, bound, prev.alpha, prev.beta);
            lemma_within_window(next, mover, depth + 1, bound, prev.alpha, prev.beta);
            assert(now == scan_step(prev, legal_moves(bv)[k - 1], r, true));
            if r > prev.best {
                lemma_none_above_best(bv, mover, depth, bound, r, k - 1);
                assert(now.tied =~= optimal_prefix(bv, mover, depth, bound, now.best, k));
            }
        }
    }
}

/// Searched from its root with the widest window, a position gets its
/// minimax score, and the tied moves that the search returns are exactly
/// the best moves of the searching side, in the order of the game's moves.
pub proof fn law_search_finds_optimal_moves(bv: BoardView, mover: Player, bound: int)
    requires
        bv.wf(),
        bound <= 255,
    ensures
        ab_search(bv, mover, 0, bound, NEG_INF as int, POS_INF as int).best == minimax(
            bv,
            mover,
            0,
            bound,
        ),
        ab_search(bv, mover, 0, bound, NEG_INF as int, POS_INF as int).tied == optimal_moves(
            bv,
            mover,
            bound,
        ),
{
    law_pruning_keeps_the_score(bv, mover, 0, bound);
    if !is_leaf(bv, 0, bound) {
        lemma_scan_finds_optimal(bv, mover, 0, bound, legal_moves(bv).len() as int);
    }
}

/// A move is among the first `k` that reach `target` exactly when it is one
/// of the first `k` legal moves and leads to a position with that minimax
/// score.
pub proof fn lemma_optimal_prefix_members(
    bv: BoardView,
    mover: Player,
    depth: int,
    bound: int,
    target: int,
    k: int,
)
    requires
        0 <= k,
    ensures
        forall|mv: Move| #[trigger]
            optimal_prefix(bv, mover, depth, bound, target, k).contains(mv) <==> exists|j: int|
                0 <= j < k && j < legal_moves(bv).len() && legal_moves(bv)[j] == mv && minimax(
                    #[trigger] child(bv, mover, depth, j),
                    mover,
                    depth + 1,
                    bound,
                ) == target,
    decreases k,
{
    if k > 0 {
        lemma_optimal_prefix_members(bv, mover, depth, bound, target, k - 1);
        let prev = optimal_prefix(bv, mover, depth, bound, target, k - 1);
        let cur = optimal_prefix(bv, mover, depth, bound, target, k);
        let moves = legal_moves(bv);
        let hit = k <= moves.len() && minimax(child(bv, mover, depth, k - 1), mover, depth + 1, bound)
            == target;
        assert forall|mv: Move| #[trigger] cur.contains(mv) implies exists|j: int|
            0 <= j < k && j < moves.len() && moves[j] == mv && minimax(
                #[trigger] child(bv, mover, depth, j),
                mover,
                depth + 1,
                bound,
            ) == target by {
            let i = choose|i: int| 0 <= i < cur.len() && cur[i] == mv;
            if hit && i == prev.len() {
                assert(moves[k - 1] == mv && minimax(
                    child(bv, mover, depth, k - 1),
                    mover,
                    depth + 1,
                    bound,
                ) == target);
            } else {
                assert(prev[i] == mv);
                assert(prev.contains(mv));
            }
        }
        assert forall|mv: Move|
            (exists|j: int|
                0 <= j < k && j < moves.len() && moves[j] == mv && minimax(
                    #[trigger] child(bv, mover, depth, j),
                    mover,
                    depth + 1,
                    bound,
                ) == target) implies #[trigger] cur.contains(mv) by {
            let j = choose|j: int|
                0 <= j < k && j < moves.len() && moves[j] == mv && minimax(
                    #[trigger] child(bv, mover, depth, j),
                    mover,
                    depth + 1,
                    bound,
                ) == target;
            if j == k - 1 {
                assert(cur == prev.push(mv));
                assert(cur[prev.len() as int] == mv);
            } else {
                assert(prev.contains(mv));
                let i = choose|i: int| 0 <= i < prev.len() && prev[i] == mv;
                assert(cur[i] == mv);
            }
        }
    }
}

/// A move is a best move of the searching side exactly when the search
/// does not stop at the board, the move is legal, and it leads to a
/// position whose minimax score is that of the board.
pub proof fn law_optimal_moves_are_the_best(bv: BoardView, mover: Player, bound: int, mv: Move)
    ensures
        optimal_moves(bv, mover, bound).contains(mv) <==> !is_leaf(bv, 0, bound) && bv.legal(mv)
            && minimax(bv.apply(mv, mover), mover, 1, bound) == minimax(bv, mover, 0, bound),
{
    let moves = legal_moves(bv);
    let target = minimax(bv, mover, 0, bound);
    lemma_legal_moves(bv);
    if !is_leaf(bv, 0, bound) {
        lemma_optimal_prefix_members(bv, mover, 0, bound, target, moves.len() as int);
        if bv.legal(mv) && minimax(bv.apply(mv, mover), mover, 1, bound) == target {
            assert(moves.contains(mv));
            let j = choose|j: int| 0 <= j < moves.len() && moves[j] == mv;
            assert(child(bv, mover, 0, j) == bv.apply(mv, mover));
        }
        if optimal_moves(bv, mover, bound).contains(mv) {
            let j = choose|j: int|
                0 <= j < moves.len() && j < moves.len() && moves[j] == mv && minimax(
                    #[trigger] child(bv, mover, 0, j),
                    mover,
                    1,
                    bound,
                ) == target;
            assert(moves.contains(mv));
        }
    } else {
        assert(!Seq::<Move>::empty().contains(mv));
    }
}

/// Among any first moves of a position on which the searching side is to
/// move, one reaches the best score of them.
pub proof fn lemma_best_is_reached(bv: BoardView, mover: Player, depth: int, bound: int, k: int)
    requires
        bv.wf(),
        maximizing(depth),
        0 <= depth < bound <= 255,
        1 <= k <= legal_moves(bv).len(),
    ensures
        optimal_prefix(
            bv,
            mover,
            depth,
            bound,
            mm_best(bv, mover, depth, bound, k),
            k,
        ).len() > 0,
    decreases k,
{
    let next = child(bv, mover, depth, k - 1);
    let m = minimax(next, mover, depth + 1, bound);
    lemma_child_wf(bv, mover, depth, k - 1);
    law_pruning_keeps_the_score(next, mover, depth + 1, bound);
    lemma_search_bounds(next, mover, depth + 1, bound, NEG_INF as int, POS_INF as int);
    let prev_best = mm_best(bv, mover, depth, bound, k - 1);
    if k > 1 && m < prev_best {
        lemma_best_is_reached(bv, mover, depth, bound, k - 1);
    }
}

/// While the game on a well-formed board goes on and the bound is not 0,
/// the searching side has a best move.
pub proof fn law_some_move_is_best(bv: BoardView, mover: Player, bound: int)
    requires
        bv.wf(),
        bound <= 255,
        !is_leaf(bv, 0, bound),
    ensures
        optimal_moves(bv, mover, bound).len() > 0,
{
    crate::moves::lemma_no_move_iff_full(bv);
    lemma_best_is_reached(bv, mover, 0, bound, legal_moves(bv).len() as int);
}

/// Where the searching side is to move, the best score of the first `k`
/// moves is no less than the minimax score that any of them leads to.
pub proof fn lemma_best_bounds_each(
    bv: BoardView,
    mover: Player,
    depth: int,
    bound: int,
    k: int,
    j: int,
)
    requires
        maximizing(depth),
        depth < bound,
        0 <= j < k <= legal_moves(bv).len(),
    ensures
        minimax(child(bv, mover, depth, j), mover, depth + 1, bound) <= mm_best(
            bv,
            mover,
            depth,
            bound,
            k,
        ),
    decreases k,
{
    if j < k - 1 {
        lemma_best_bounds_each(bv, mover, depth, bound, k - 1, j);
    }
}

/// No legal move of the searching side leads to a position with a greater
/// minimax score than the board has: a deeper search never settles for a
/// move that is worse, by its own scoring, than another move on offer.
pub proof fn law_no_move_beats_the_best(bv: BoardView, mover: Player, bound: int, mv: Move)
    requires
        !is_leaf(bv, 0, bound),
        bv.legal(mv),
    ensures
        minimax(bv.apply(mv, mover), mover, 1, bound) <= minimax(bv, mover, 0, bound),
{
    let moves = legal_moves(bv);
    lemma_legal_moves(bv);
    assert(moves.contains(mv));
    let j = choose|j: int| 0 <= j < moves.len() && moves[j] == mv;
    lemma_best_bounds_each(bv, mover, 0, bound, moves.len() as int, j);
    assert(child(bv, mover, 0, j) == bv.apply(mv, mover));
}

/// Searches the position on `board` for `mover`, who is the searching side,
/// with alpha-beta pruning inside the window from `alpha` to `beta`.
///
/// `depth` is the depth of the position in the search and `bound` the depth
/// at which the search stops. At an even depth `mover` is to move and the
/// greatest score is sought, at an odd depth the opponent is to move and the
/// least. The search stops where the game has ended or the depth has reached
/// the bound, and returns the leaf score there, with no move.
/// Elsewhere it tries the legal moves in order on copies of the board, one
/// ply deeper, and keeps the best score and the moves that reached it; it
/// returns at once when the best score is above `beta` (at an even depth) or
/// below `alpha` (at an odd depth). The board itself is not changed.
pub fn search(board: &Board, mover: Player, depth: u8, alpha: i64, beta: i64, bound: u8) -> (r:
    SearchResult)
    ensures
        r.score == ab_search(
            board@,
            mover,
            depth as int,
            bound as int,
            alpha as int,
            beta as int,
        ).best,
        r.tied@ == ab_search(
            board@,
            mover,
            depth as int,
            bound as int,
            alpha as int,
            beta as int,
        ).tied,
        NEG_INF <= r.score <= POS_INF,
    decreases bound - depth,
{
    proof {
        use_type_invariant(board);
        lemma_leaf_score_bounds(board@, mover, depth as int);
    }
    let (terminal, positional) = evaluate(board);
    if terminal.is_some() || depth >= bound {
        let d = depth as i64;
        assert(0 <= d * d <= 65025) by (nonlinear_arith)
            requires
                0 <= d <= 255,
        ;
        let score = match terminal {
            Some(Winner::Side(p)) => if p == mover {
                WIN_SCORE - d * d
            } else {
                -WIN_SCORE - d * d
            },
            _ => match mover {
                Player::First => positional,
                Player::Second => -positional,
            },
        };
        return SearchResult { score, tied: Vec::new() };
    }
    let moves = legal_moves_of(board);
    let maxing = depth % 2 == 0;
    let side = if maxing {
        mover
    } else {
        mover.opponent()
    };
    let mut best = if maxing {
        NEG_INF
    } else {
        POS_INF
    };
    let mut lo = alpha;
    let mut hi = beta;
    let mut tied: Vec<Move> = Vec::new();
    let mut k: usize = 0;
    while k < moves.len()
        invariant
            k <= moves.len(),
            depth < bound,
            board@.wf(),
            !is_leaf(board@, depth as int, bound as int),
            moves@ == legal_moves(board@),
            maxing == maximizing(depth as int),
            side == side_at(mover, depth as int),
            NEG_INF <= best <= POS_INF,
            ab_scan(
                board@,
                mover,
                depth as int,
                bound as int,
                alpha as int,
                beta as int,
                k as int,
            ) == (Scan { best: best as int, alpha: lo as int, beta: hi as int, tied: tied@, cut: false }),
        decreases moves.len() - k,
    {
        let mv = moves[k];
        proof {
            lemma_legal_moves(board@);
            assert(moves@.contains(mv));
            lemma_apply_wf(board@, mv, side);
        }
        let next = match board.apply(mv, side) {
            Ok(b) => b,
            // Never taken: a move from the list of legal moves applies.
            Err(_) => *board,
        };
        let r = search(&next, mover, depth + 1, lo, hi, bound).score;
        let better = if maxing {
            r > best
        } else {
            r < best
        };
        if better {
            best = r;
            tied = Vec::new();
            tied.push(mv);
        } else if r == best {
            tied.push(mv);
        }
        k = k + 1;
        proof {
            let prev = ab_scan(
                board@,
                mover,
                depth as int,
                bound as int,
                alpha as int,
                beta as int,
                k - 1,
            );
            let now = ab_scan(
                board@,
                mover,
                depth as int,
                bound as int,
                alpha as int,
                beta as int,
                k as int,
            );
            assert(now == scan_step(prev, mv, r as int, maxing));
            assert(now.tied =~= tied@);
        }
        if maxing {
            if best > hi {
                proof {
                    lemma_cut_stays(
                        board@,
                        mover,
                        depth as int,
                        bound as int,
                        alpha as int,
                        beta as int,
                        k as int,
                        moves.len() as int,
                    );
                }
                return SearchResult { score: best, tied };
            }
            if best > lo {
                lo = best;
            }
        } else {
            if best < lo {
                proof {
                    lemma_cut_stays(
                        board@,
                        mover,
                        depth as int,
                        bound as int,
                        alpha as int,
                        beta as int,
                        k as int,
                        moves.len() as int,
                    );
                }
                return SearchResult { score: best, tied };
            }
            if best < hi {
                hi = best;
            }
        }
    }
    SearchResult { score: best, tied }
}

} // verus!
