//! The move generator: the moves of a game in a fixed order, and those among
//! them that are legal on a board.

use crate::board::{at, is_empty, lemma_full_board, Board, BoardView, Move, Symbol, Variant};
use vstd::prelude::*;

verus! {

/// How many moves a game has before legality is looked at: one for each
/// column in the numeric game, and one for each column and letter in the
/// letter game.
pub open spec fn candidate_count(variant: Variant) -> int {
    match variant {
        Variant::Numeric => 7,
        Variant::Letter => 14,
    }
}

/// The `k`-th move of a game. The columns run from left to right; the letter
/// game has all its `T` moves before its `O` moves.
pub open spec fn candidate(variant: Variant, k: int) -> Move {
    match variant {
        Variant::Numeric => Move { column: k as usize, symbol: Symbol::Blank },
        Variant::Letter => if k < 7 {
            Move { column: k as usize, symbol: Symbol::T }
        } else {
            Move { column: (k - 7) as usize, symbol: Symbol::O }
        },
    }
}

/// The legal ones among the first `k` moves of the game, in their order.
pub open spec fn legal_prefix(bv: BoardView, k: int) -> Seq<Move>
    decreases k,
{
    if k <= 0 {
        Seq::empty()
    } else if bv.legal(candidate(bv.variant, k - 1)) {
        legal_prefix(bv, k - 1).push(candidate(bv.variant, k - 1))
    } else {
        legal_prefix(bv, k - 1)
    }
}

/// The legal moves on a board, in the order of the game's moves.
pub open spec fn legal_moves(bv: BoardView) -> Seq<Move> {
    legal_prefix(bv, candidate_count(bv.variant))
}

/// The place of a move in the order of its game's moves.
pub open spec fn candidate_index(mv: Move) -> int {
    match mv.symbol {
        Symbol::O => mv.column + 7,
        _ => mv.column as int,
    }
}

/// The legal moves among the first `k` are legal, are at most `k`, and
/// every legal move that stands before `k` is among them.
pub proof fn lemma_legal_prefix(bv: BoardView, k: int)
    requires
        0 <= k <= candidate_count(bv.variant),
    ensures
        legal_prefix(bv, k).len() <= k,
        forall|i: int|
            0 <= i < legal_prefix(bv, k).len() ==> bv.legal(#[trigger] legal_prefix(bv, k)[i]),
        forall|mv: Move|
            bv.legal(mv) && candidate_index(mv) < k ==> #[trigger] legal_prefix(bv, k).contains(
                mv,
            ),
    decreases k,
{
    if k > 0 {
        lemma_legal_prefix(bv, k - 1);
        let prev = legal_prefix(bv, k - 1);
        let cur = legal_prefix(bv, k);
        let c = candidate(bv.variant, k - 1);
        assert forall|mv: Move| bv.legal(mv) && candidate_index(mv) < k implies #[trigger] cur.contains(
            mv,
        ) by {
            if candidate_index(mv) < k - 1 {
                assert(prev.contains(mv));
                let j = choose|j: int| 0 <= j < prev.len() && prev[j] == mv;
                assert(cur[j] == mv);
            } else {
                assert(mv == c);
                assert(cur == prev.push(c));
                assert(cur[prev.len() as int] == mv);
            }
        }
    }
}

/// A move is among the legal moves of a board exactly when it is legal.
pub proof fn lemma_legal_moves(bv: BoardView)
    ensures
        legal_moves(bv).len() <= 14,
        forall|mv: Move| #[trigger] legal_moves(bv).contains(mv) <==> bv.legal(mv),
{
    lemma_legal_prefix(bv, candidate_count(bv.variant));
    assert forall|mv: Move| bv.legal(mv) implies candidate_index(mv) < candidate_count(
        bv.variant,
    ) by {}
}

/// A well-formed board has no legal move exactly when it is full.
pub proof fn lemma_no_move_iff_full(bv: BoardView)
    requires
        bv.wf(),
    ensures
        legal_moves(bv).len() == 0 <==> bv.full(),
{
    lemma_full_board(bv);
    lemma_legal_moves(bv);
    let moves = legal_moves(bv);
    if bv.full() {
        if moves.len() > 0 {
            assert(moves.contains(moves[0]));
            assert(bv.legal(moves[0]));
        }
    } else {
        let col = choose|col: int| 0 <= col < 7 && is_empty(#[trigger] at(bv.cells, 0, col));
        let symbol = match bv.variant {
            Variant::Numeric => Symbol::Blank,
            Variant::Letter => Symbol::T,
        };
        let mv = Move { column: col as usize, symbol };
        assert(bv.legal(mv));
        assert(moves.contains(mv));
    }
}

/// The `k`-th move of a game.
fn nth_candidate(variant: Variant, k: usize) -> (mv: Move)
    requires
        k < candidate_count(variant),
    ensures
        mv == candidate(variant, k as int),
{
    match variant {
        Variant::Numeric => Move { column: k, symbol: Symbol::Blank },
        Variant::Letter => if k < 7 {
            Move { column: k, symbol: Symbol::T }
        } else {
            Move { column: k - 7, symbol: Symbol::O }
        },
    }
}

/// The legal moves on the board: every column whose top cell is empty, from
/// left to right, and in the letter game each of them first with `T`, then
/// all of them again with `O`.
pub fn legal_moves_of(board: &Board) -> (moves: Vec<Move>)
    ensures
        moves@ == legal_moves(board@),
{
    let variant = board.variant();
    let count: usize = match variant {
        Variant::Numeric => 7,
        Variant::Letter => 14,
    };
    let mut moves: Vec<Move> = Vec::new();
    let mut k: usize = 0;
    while k < count
        invariant
            k <= count,
            count == candidate_count(variant),
            variant == board@.variant,
            moves@ == legal_prefix(board@, k as int),
        decreases count - k,
    {
        let mv = nth_candidate(variant, k);
        if board.is_legal(mv) {
            moves.push(mv);
        }
        k = k + 1;
    }
    moves
}

} // verus!
