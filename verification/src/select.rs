//! The move selector: it settles which of the equally good moves is played,
//! and what is played when the search found none.
//!
//! The engine has no random source of its own. Every choice takes a draw
//! that the caller made, so that a turn is a function of the board and of
//! the draws, and can be played again from the same draws.

use crate::board::{Board, BoardView, Move, Player, Symbol, Variant};
use crate::difficulty::{depth_bound, depth_bound_of, Difficulty};
use crate::eval::outcome;
use crate::moves::{candidate, candidate_count};
use crate::search::{
    is_leaf, law_search_finds_optimal_moves, law_some_move_is_best, optimal_moves, search,
    NEG_INF, POS_INF,
};
use vstd::prelude::*;

verus! {

/// The sampled move cannot be made on the board: another one must be sampled.
#[derive(Clone, Copy, PartialEq, Eq, Debug, Structural)]
pub struct NoLegalMove;

/// Where the turn of the computer stands.
#[derive(Debug)]
pub enum AiTurn {
    /// The search found these equally good moves. A draw below their number
    /// picks the one to play.
    TieBreak(Vec<Move>),
    /// The search found no move. A draw below the number of the game's
    /// moves samples one, which is played if it is legal.
    Resample,
    /// The move to play.
    Play(Move),
}

/// The mathematical stand of a turn.
pub enum AiTurnView {
    TieBreak(Seq<Move>),
    Resample,
    Play(Move),
}

impl View for AiTurn {
    type V = AiTurnView;

    open spec fn view(&self) -> AiTurnView {
        match self {
            AiTurn::TieBreak(tied) => AiTurnView::TieBreak(tied@),
            AiTurn::Resample => AiTurnView::Resample,
            AiTurn::Play(mv) => AiTurnView::Play(*mv),
        }
    }
}

/// The turn before any draw: the best moves of the searching side wait for
/// a tie-break; where there is none, a move has to be sampled.
pub open spec fn ai_begin(bv: BoardView, mover: Player, bound: int) -> AiTurnView {
    if optimal_moves(bv, mover, bound).len() > 0 {
        AiTurnView::TieBreak(optimal_moves(bv, mover, bound))
    } else {
        AiTurnView::Resample
    }
}

/// The number below which the next draw of a turn has to lie: the number
/// of tied moves, or of the game's moves when one is sampled; 0 when the
/// turn needs no draw.
pub open spec fn ai_draw_bound(bv: BoardView, turn: AiTurnView) -> int {
    match turn {
        AiTurnView::TieBreak(tied) => tied.len() as int,
        AiTurnView::Resample => candidate_count(bv.variant),
        AiTurnView::Play(_) => 0,
    }
}

/// The turn after one more draw. A draw below the number of tied moves
/// picks the tied move at its place. A sampled move is played if it is
/// legal. A draw that is too large, or samples a move that is not legal,
/// leaves the turn as it is, and a decided turn stays decided.
pub open spec fn ai_resume(bv: BoardView, turn: AiTurnView, draw: int) -> AiTurnView {
    match turn {
        AiTurnView::TieBreak(tied) => if 0 <= draw < tied.len() {
            AiTurnView::Play(tied[draw])
        } else {
            turn
        },
        AiTurnView::Resample => if 0 <= draw < candidate_count(bv.variant) && bv.legal(
            candidate(bv.variant, draw),
        ) {
            AiTurnView::Play(candidate(bv.variant, draw))
        } else {
            turn
        },
        AiTurnView::Play(_) => turn,
    }
}

/// The turn after the first `n` of the draws.
pub open spec fn ai_replay(bv: BoardView, start: AiTurnView, draws: Seq<usize>, n: int) -> AiTurnView
    decreases n,
{
    if n <= 0 {
        start
    } else {
        ai_resume(bv, ai_replay(bv, start, draws, n - 1), draws[n - 1] as int)
    }
}

/// Picks among the tied moves the one at the place of the draw. A draw that
/// is uniform below the number of tied moves makes every one of them
/// equally likely. `None` if there is no move at that place.
pub fn choose_move(tied_moves: &Vec<Move>, draw: usize) -> (mv: Option<Move>)
    ensures
        mv == (if draw < tied_moves@.len() {
            Some(tied_moves@[draw as int])
        } else {
            None
        }),
{
    if draw < tied_moves.len() {
        Some(tied_moves[draw])
    } else {
        None
    }
}

/// One try of the fallback: the move of the game at the place of the draw,
/// if it is legal on the board. In the numeric game a draw below 7 is a
/// column; in the letter game a draw below 14 is a column with `T` (below 7)
/// or with `O`. On `NoLegalMove` the caller draws again.
pub fn fallback_move(board: &Board, draw: usize) -> (r: Result<Move, NoLegalMove>)
    ensures
        match r {
            Ok(mv) => draw < candidate_count(board@.variant) && mv == candidate(
                board@.variant,
                draw as int,
            ) && board@.legal(mv),
            Err(_) => !(draw < candidate_count(board@.variant) && board@.legal(
                candidate(board@.variant, draw as int),
            )),
        },
{
    let mv = match board.variant() {
        Variant::Numeric => {
            if draw >= 7 {
                return Err(NoLegalMove);
            }
            Move { column: draw, symbol: Symbol::Blank }
        },
        Variant::Letter => {
            if draw >= 14 {
                return Err(NoLegalMove);
            }
            if draw < 7 {
                Move { column: draw, symbol: Symbol::T }
            } else {
                Move { column: draw - 7, symbol: Symbol::O }
            }
        },
    };
    if board.is_legal(mv) {
        Ok(mv)
    } else {
        Err(NoLegalMove)
    }
}

/// Begins the turn of the computer, which plays `mover_sign`, on the board.
///
/// The board is searched from its root, to the depth that the difficulty
/// stands for, with the widest window. The turn then waits for a tie-break
/// among the best moves of `mover_sign`, in the order of the game's moves.
/// Where the game on the board has ended there is no such move, and the turn
/// waits for a sampled move. The board is not changed.
pub fn choose_ai_move(board: &Board, mover_sign: Player, difficulty: Difficulty) -> (turn: AiTurn)
    ensures
        turn@ == ai_begin(board@, mover_sign, depth_bound_of(board@.variant, difficulty)),
        turn@ is Resample <==> outcome(board@) is Some,
        !(turn@ is Play),
{
    let bound = depth_bound(board.variant(), difficulty);
    let found = search(board, mover_sign, 0, NEG_INF, POS_INF, bound);
    proof {
        use_type_invariant(board);
        law_search_finds_optimal_moves(board@, mover_sign, bound as int);
        if !is_leaf(board@, 0, bound as int) {
            law_some_move_is_best(board@, mover_sign, bound as int);
        }
    }
    if found.tied.len() > 0 {
        AiTurn::TieBreak(found.tied)
    } else {
        AiTurn::Resample
    }
}

impl AiTurn {
    /// The number below which the next draw has to lie, uniformly; 0 when
    /// the move is chosen and no draw is needed.
    pub fn draw_bound(&self, board: &Board) -> (n: usize)
        ensures
            n == ai_draw_bound(board@, self@),
    {
        match self {
            AiTurn::TieBreak(tied) => tied.len(),
            AiTurn::Resample => match board.variant() {
                Variant::Numeric => 7,
                Variant::Letter => 14,
            },
            AiTurn::Play(_) => 0,
        }
    }

    /// The move to play, once the turn is decided.
    pub fn chosen(&self) -> (mv: Option<Move>)
        ensures
            mv == (match self@ {
                AiTurnView::Play(m) => Some(m),
                _ => None,
            }),
    {
        match self {
            AiTurn::Play(mv) => Some(*mv),
            _ => None,
        }
    }

    /// Goes on with the turn after a draw: see `ai_resume`.
    pub fn resume(self, board: &Board, draw: usize) -> (turn: AiTurn)
        ensures
            turn@ == ai_resume(board@, self@, draw as int),
    {
        match self {
            AiTurn::TieBreak(tied) => match choose_move(&tied, draw) {
                Some(mv) => AiTurn::Play(mv),
                None => AiTurn::TieBreak(tied),
            },
            AiTurn::Resample => match fallback_move(board, draw) {
                Ok(mv) => AiTurn::Play(mv),
                Err(_) => AiTurn::Resample,
            },
            AiTurn::Play(mv) => AiTurn::Play(mv),
        }
    }
}

/// Plays the turn of the computer from draws made beforehand: begins the
/// turn as `choose_ai_move` does and goes on with each draw in its order.
///
/// The result depends on nothing but the board, the side, the difficulty
/// and the draws: played again from the same draws, the turn ends alike.
pub fn replay_ai_move(
    board: &Board,
    mover_sign: Player,
    difficulty: Difficulty,
    draws: &Vec<usize>,
) -> (turn: AiTurn)
    ensures
        turn@ == ai_replay(
            board@,
            ai_begin(board@, mover_sign, depth_bound_of(board@.variant, difficulty)),
            draws@,
            draws@.len() as int,
        ),
{
    let mut turn = choose_ai_move(board, mover_sign, difficulty);
    let mut n: usize = 0;
    while n < draws.len()
        invariant
            n <= draws.len(),
            turn@ == ai_replay(
                board@,
                ai_begin(board@, mover_sign, depth_bound_of(board@.variant, difficulty)),
                draws@,
                n as int,
            ),
        decreases draws.len() - n,
    {
        turn = turn.resume(board, draws[n]);
        n = n + 1;
    }
    turn
}

/// A tie-break with a draw below the number of tied moves decides the turn
/// for one of the best moves; a sampled move that is played is legal.
pub proof fn law_chosen_move_is_legal(bv: BoardView, mover: Player, bound: int, draw: int)
    requires
        bv.wf(),
    ensures
        ai_resume(bv, ai_begin(bv, mover, bound), draw) matches AiTurnView::Play(mv) ==> bv.legal(
            mv,
        ),
        0 <= draw < ai_draw_bound(bv, ai_begin(bv, mover, bound)) && optimal_moves(
            bv,
            mover,
            bound,
        ).len() > 0 ==> ai_resume(bv, ai_begin(bv, mover, bound), draw) == AiTurnView::Play(
            optimal_moves(bv, mover, bound)[draw],
        ),
{
    let best = optimal_moves(bv, mover, bound);
    if best.len() > 0 && 0 <= draw < best.len() {
        assert(best.contains(best[draw]));
        crate::search::law_optimal_moves_are_the_best(bv, mover, bound, best[draw]);
    }
}

/// The turn of the computer is a function of the board, the side, the
/// bound and the draws: two boards that look alike get the same turn from
/// the same draws.
pub proof fn law_turn_depends_on_draws_only(
    a: Board,
    b: Board,
    mover: Player,
    bound: int,
    draws: Seq<usize>,
)
    requires
        a@ == b@,
    ensures
        ai_replay(a@, ai_begin(a@, mover, bound), draws, draws.len() as int) == ai_replay(
            b@,
            ai_begin(b@, mover, bound),
            draws,
            draws.len() as int,
        ),
{
}

} // verus!
