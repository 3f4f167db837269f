//! The evaluator: it finds a completed window of four on a board, tells a
//! draw, and scores a position by the cubes of its window sums.

use crate::board::{at, Board, BoardView, Cell, Player, Symbol, Variant};
use vstd::prelude::*;

verus! {

/// The four directions in which a window of four cells runs from its first
/// cell: along the row, down the column, and along the two diagonals.
#[derive(Clone, Copy, PartialEq, Eq, Debug, Structural)]
pub enum Direction {
    Right,
    Down,
    DownRight,
    UpRight,
}

/// How a game ended.
#[derive(Clone, Copy, PartialEq, Eq, Debug, Structural)]
pub enum Winner {
    /// This side completed a window.
    Side(Player),
    /// The board is full and nobody completed a window.
    Draw,
}

/// Row of the `k`-th cell of a window.
pub open spec fn window_row(d: Direction, row: int, k: int) -> int {
    match d {
        Direction::Right => row,
        Direction::Down => row + k,
        Direction::DownRight => row + k,
        Direction::UpRight => row - k,
    }
}

/// Column of the `k`-th cell of a window.
pub open spec fn window_col(d: Direction, col: int, k: int) -> int {
    match d {
        Direction::Down => col,
        _ => col + k,
    }
}

/// The window of four cells that starts here and runs this way lies on the grid.
pub open spec fn in_bounds(row: int, col: int, d: Direction) -> bool {
    &&& 0 <= row < 6
    &&& 0 <= col < 7
    &&& 0 <= window_row(d, row, 3) < 6
    &&& 0 <= window_col(d, col, 3) < 7
}

/// The `k`-th cell of a window.
pub open spec fn window_cell(cells: Seq<Cell>, row: int, col: int, d: Direction, k: int) -> Cell {
    at(cells, window_row(d, row, k), window_col(d, col, k))
}

/// Sum of the four values of a window.
pub open spec fn window_sum(cells: Seq<Cell>, row: int, col: int, d: Direction) -> int {
    window_cell(cells, row, col, d, 0).value + window_cell(cells, row, col, d, 1).value
        + window_cell(cells, row, col, d, 2).value + window_cell(cells, row, col, d, 3).value
}

pub open spec fn cube(x: int) -> int {
    x * x * x
}

/// What a start cell and a direction add to the score: the cube of the
/// window's sum, and nothing where the window leaves the grid.
pub open spec fn window_score(cells: Seq<Cell>, row: int, col: int, d: Direction) -> int {
    if in_bounds(row, col, d) {
        cube(window_sum(cells, row, col, d))
    } else {
        0
    }
}

/// What the windows that start at a cell add to the score.
pub open spec fn cell_score(cells: Seq<Cell>, row: int, col: int) -> int {
    window_score(cells, row, col, Direction::Right) + window_score(
        cells,
        row,
        col,
        Direction::Down,
    ) + window_score(cells, row, col, Direction::DownRight) + window_score(
        cells,
        row,
        col,
        Direction::UpRight,
    )
}

/// What the windows that start at one of the first `n` cells add to the score.
pub open spec fn score_upto(cells: Seq<Cell>, n: int) -> int
    decreases n,
{
    if n <= 0 {
        0
    } else {
        score_upto(cells, n - 1) + cell_score(cells, (n - 1) / 7, (n - 1) % 7)
    }
}

/// The positional score of a grid: the sum, over every window of four cells
/// on the grid, of the cube of the window's sum. A positive score favours
/// the first player.
pub open spec fn heuristic(cells: Seq<Cell>) -> int {
    score_upto(cells, 42)
}

/// The four cells of the window are discs of `p`.
pub open spec fn four_in_a_row(cells: Seq<Cell>, row: int, col: int, d: Direction, p: Player) -> bool {
    forall|k: int| 0 <= k < 4 ==> (#[trigger] window_cell(cells, row, col, d, k)).value == p.sign()
}

/// The letter that the word of `p` has at place `k`: TOOT for the first
/// player, OTTO for the second.
pub open spec fn word_letter(p: Player, k: int) -> Symbol {
    if (k == 0 || k == 3) == (p == Player::First) {
        Symbol::T
    } else {
        Symbol::O
    }
}

/// The four symbols of the window spell the word of `p`.
pub open spec fn spells_word(cells: Seq<Cell>, row: int, col: int, d: Direction, p: Player) -> bool {
    forall|k: int|
        0 <= k < 4 ==> (#[trigger] window_cell(cells, row, col, d, k)).symbol == word_letter(p, k)
}

/// The window lies on the grid and is won by `p`: in the numeric game by
/// four discs of `p`, in the letter game by the word of `p`, whoever
/// dropped the discs.
pub open spec fn completes(bv: BoardView, row: int, col: int, d: Direction, p: Player) -> bool {
    &&& in_bounds(row, col, d)
    &&& match bv.variant {
        Variant::Numeric => four_in_a_row(bv.cells, row, col, d, p),
        Variant::Letter => spells_word(bv.cells, row, col, d, p),
    }
}

/// The side that has completed this window, if any.
pub open spec fn window_winner(bv: BoardView, row: int, col: int, d: Direction) -> Option<Player> {
    if completes(bv, row, col, d, Player::First) {
        Some(Player::First)
    } else if completes(bv, row, col, d, Player::Second) {
        Some(Player::Second)
    } else {
        None
    }
}

/// The side that has completed a window starting at this cell. Where
/// several are completed, the first of right, down, down-right and up-right
/// counts.
pub open spec fn cell_winner(bv: BoardView, row: int, col: int) -> Option<Player> {
    if window_winner(bv, row, col, Direction::Right) is Some {
        window_winner(bv, row, col, Direction::Right)
    } else if window_winner(bv, row, col, Direction::Down) is Some {
        window_winner(bv, row, col, Direction::Down)
    } else if window_winner(bv, row, col, Direction::DownRight) is Some {
        window_winner(bv, row, col, Direction::DownRight)
    } else {
        window_winner(bv, row, col, Direction::UpRight)
    }
}

/// The side that has completed a window starting at one of the first `n`
/// cells. Where several cells start a completed window, the last one counts.
pub open spec fn winner_upto(bv: BoardView, n: int) -> Option<Player>
    decreases n,
{
    if n <= 0 {
        None
    } else if cell_winner(bv, (n - 1) / 7, (n - 1) % 7) is Some {
        cell_winner(bv, (n - 1) / 7, (n - 1) % 7)
    } else {
        winner_upto(bv, n - 1)
    }
}

/// The side that has completed a window on the board, if any.
pub open spec fn winner(bv: BoardView) -> Option<Player> {
    winner_upto(bv, 42)
}

/// `p` has completed some window on the board.
pub open spec fn has_window(bv: BoardView, p: Player) -> bool {
    exists|row: int, col: int, d: Direction| #[trigger] completes(bv, row, col, d, p)
}

/// How the game on the board has ended, or `None` while it goes on: a side
/// with a completed window has won; without one, a full board is a draw.
pub open spec fn outcome(bv: BoardView) -> Option<Winner> {
    match winner(bv) {
        Some(p) => Some(Winner::Side(p)),
        None => if bv.full() {
            Some(Winner::Draw)
        } else {
            None
        },
    }
}

/// The cube of a window sum lies between -64 and 64.
pub proof fn lemma_cube_bounds(x: int)
    requires
        -4 <= x <= 4,
    ensures
        -64 <= cube(x) <= 64,
{
    assert(-64 <= x * x * x <= 64) by (nonlinear_arith)
        requires
            -4 <= x <= 4,
    ;
}

/// A window on the grid holds four cells of the grid.
pub proof fn lemma_window_on_grid(row: int, col: int, d: Direction, k: int)
    requires
        in_bounds(row, col, d),
        0 <= k < 4,
    ensures
        0 <= window_row(d, row, k) < 6,
        0 <= window_col(d, col, k) < 7,
        0 <= window_row(d, row, k) * 7 + window_col(d, col, k) < 42,
{
}

/// On a well-formed board the score of one start cell lies between -256 and 256.
pub proof fn lemma_cell_score_bounds(bv: BoardView, row: int, col: int)
    requires
        bv.wf(),
    ensures
        -256 <= cell_score(bv.cells, row, col) <= 256,
{
    lemma_window_score_bounds(bv, row, col, Direction::Right);
    lemma_window_score_bounds(bv, row, col, Direction::Down);
    lemma_window_score_bounds(bv, row, col, Direction::DownRight);
    lemma_window_score_bounds(bv, row, col, Direction::UpRight);
}

/// On a well-formed board a window sums to between -4 and 4, and its score
/// lies between -64 and 64.
pub proof fn lemma_window_score_bounds(bv: BoardView, row: int, col: int, d: Direction)
    requires
        bv.wf(),
    ensures
        in_bounds(row, col, d) ==> -4 <= window_sum(bv.cells, row, col, d) <= 4,
        -64 <= window_score(bv.cells, row, col, d) <= 64,
{
    if in_bounds(row, col, d) {
        lemma_window_on_grid(row, col, d, 0);
        lemma_window_on_grid(row, col, d, 1);
        lemma_window_on_grid(row, col, d, 2);
        lemma_window_on_grid(row, col, d, 3);
        lemma_cube_bounds(window_sum(bv.cells, row, col, d));
    }
}

/// On a well-formed board the score of the first `n` start cells lies
/// between `-256 * n` and `256 * n`.
pub proof fn lemma_score_bounds(bv: BoardView, n: int)
    requires
        bv.wf(),
        0 <= n,
    ensures
        -256 * n <= score_upto(bv.cells, n) <= 256 * n,
    decreases n,
{
    if n > 0 {
        lemma_score_bounds(bv, n - 1);
        lemma_cell_score_bounds(bv, (n - 1) / 7, (n - 1) % 7);
    }
}

/// On a well-formed board of the numeric game a window on the grid is four
/// discs of a side exactly when it sums to four times the side's sign.
pub proof fn lemma_four_iff_sum(bv: BoardView, row: int, col: int, d: Direction, p: Player)
    requires
        bv.wf(),
        in_bounds(row, col, d),
    ensures
        four_in_a_row(bv.cells, row, col, d, p) <==> window_sum(bv.cells, row, col, d) == 4
            * p.sign(),
{
    lemma_window_on_grid(row, col, d, 0);
    lemma_window_on_grid(row, col, d, 1);
    lemma_window_on_grid(row, col, d, 2);
    lemma_window_on_grid(row, col, d, 3);
    let c0 = window_cell(bv.cells, row, col, d, 0);
    let c1 = window_cell(bv.cells, row, col, d, 1);
    let c2 = window_cell(bv.cells, row, col, d, 2);
    let c3 = window_cell(bv.cells, row, col, d, 3);
    if window_sum(bv.cells, row, col, d) == 4 * p.sign() {
        assert forall|k: int| 0 <= k < 4 implies (#[trigger] window_cell(
            bv.cells,
            row,
            col,
            d,
            k,
        )).value == p.sign() by {
            assert(k == 0 || k == 1 || k == 2 || k == 3);
        }
    }
    if four_in_a_row(bv.cells, row, col, d, p) {
        assert(c0.value == p.sign() && c1.value == p.sign() && c2.value == p.sign() && c3.value
            == p.sign());
    }
}


/// The side found in the first `n` cells has completed a window that starts
/// at one of them, and a side is found as soon as one of them starts a
/// completed window.
pub proof fn lemma_winner_upto(bv: BoardView, n: int)
    requires
        0 <= n <= 42,
    ensures
        winner_upto(bv, n) is Some ==> exists|row: int, col: int|
            0 <= row * 7 + col < n && 0 <= col < 7 && #[trigger] cell_winner(bv, row, col)
                == winner_upto(bv, n),
        forall|row: int, col: int|
            0 <= row * 7 + col < n && 0 <= col < 7 && #[trigger] cell_winner(bv, row, col) is Some
                ==> winner_upto(bv, n) is Some,
    decreases n,
{
    if n > 0 {
        lemma_winner_upto(bv, n - 1);
        let row = (n - 1) / 7;
        let col = (n - 1) % 7;
        if cell_winner(bv, row, col) is Some {
            assert(0 <= row * 7 + col < n && cell_winner(bv, row, col) == winner_upto(bv, n));
        } else if winner_upto(bv, n - 1) is Some {
            let (r, c) = choose|r: int, c: int|
                0 <= r * 7 + c < n - 1 && 0 <= c < 7 && #[trigger] cell_winner(bv, r, c)
                    == winner_upto(bv, n - 1);
            assert(0 <= r * 7 + c < n && cell_winner(bv, r, c) == winner_upto(bv, n));
        }
        assert forall|r: int, c: int|
            0 <= r * 7 + c < n && 0 <= c < 7 && #[trigger] cell_winner(bv, r, c) is Some implies winner_upto(
            bv,
            n,
        ) is Some by {
            if r * 7 + c == n - 1 {
                assert(r == row && c == col);
            }
        }
    }
}

/// A side is reported as the winner only if it has completed a window.
pub proof fn law_winner_has_window(bv: BoardView, p: Player)
    requires
        winner(bv) == Some(p),
    ensures
        has_window(bv, p),
        outcome(bv) == Some(Winner::Side(p)),
{
    lemma_winner_upto(bv, 42);
    let (row, col) = choose|row: int, col: int|
        0 <= row * 7 + col < 42 && 0 <= col < 7 && #[trigger] cell_winner(bv, row, col)
            == winner_upto(bv, 42);
    let d = if window_winner(bv, row, col, Direction::Right) is Some {
        Direction::Right
    } else if window_winner(bv, row, col, Direction::Down) is Some {
        Direction::Down
    } else if window_winner(bv, row, col, Direction::DownRight) is Some {
        Direction::DownRight
    } else {
        Direction::UpRight
    };
    assert(completes(bv, row, col, d, p));
}

/// Where a side has completed a window in any of the four directions and
/// the other side has completed none, the board is reported as won by that
/// side.
pub proof fn law_completed_window_wins(bv: BoardView, row: int, col: int, d: Direction, p: Player)
    requires
        completes(bv, row, col, d, p),
        !has_window(bv, p.other()),
    ensures
        outcome(bv) == Some(Winner::Side(p)),
{
    assert(window_winner(bv, row, col, d) is Some);
    assert(cell_winner(bv, row, col) is Some);
    lemma_winner_upto(bv, 42);
    assert(0 <= row * 7 + col < 42 && 0 <= col < 7);
    let q = winner(bv)->0;
    law_winner_has_window(bv, q);
}

/// Some side is reported as the winner exactly when some window on the
/// board is completed.
pub proof fn law_winner_iff_window(bv: BoardView)
    ensures
        winner(bv) is Some <==> has_window(bv, Player::First) || has_window(bv, Player::Second),
{
    if winner(bv) is Some {
        law_winner_has_window(bv, winner(bv)->0);
    }
    if has_window(bv, Player::First) || has_window(bv, Player::Second) {
        let p = if has_window(bv, Player::First) {
            Player::First
        } else {
            Player::Second
        };
        let (row, col, d) = choose|row: int, col: int, d: Direction| #[trigger]
            completes(bv, row, col, d, p);
        assert(window_winner(bv, row, col, d) is Some);
        assert(cell_winner(bv, row, col) is Some);
        lemma_winner_upto(bv, 42);
        assert(0 <= row * 7 + col < 42 && 0 <= col < 7);
    }
}

/// A full board on which no window is completed is a draw, and a board
/// without a completed window is never reported as won.
pub proof fn law_full_board_without_window_is_draw(bv: BoardView)
    requires
        !has_window(bv, Player::First),
        !has_window(bv, Player::Second),
    ensures
        bv.full() ==> outcome(bv) == Some(Winner::Draw),
        !bv.full() ==> outcome(bv) is None,
{
    law_winner_iff_window(bv);
}

/// Two boards with the same cells, game and ply count are evaluated alike:
/// the result of an evaluation depends on nothing else.
pub proof fn law_evaluation_depends_on_board_only(a: Board, b: Board)
    requires
        a@ == b@,
    ensures
        outcome(a@) == outcome(b@),
        heuristic(a@.cells) == heuristic(b@.cells),
{
}

/// Whether the window that starts here and runs this way lies on the grid.
fn window_on_grid(row: usize, col: usize, d: Direction) -> (b: bool)
    ensures
        b == in_bounds(row as int, col as int, d),
{
    if row >= 6 || col >= 7 {
        return false;
    }
    match d {
        Direction::Right => col <= 3,
        Direction::Down => row <= 2,
        Direction::DownRight => row <= 2 && col <= 3,
        Direction::UpRight => row >= 3 && col <= 3,
    }
}

/// The `k`-th cell of a window on the grid.
fn window_cell_of(board: &Board, row: usize, col: usize, d: Direction, k: usize) -> (c: Cell)
    requires
        in_bounds(row as int, col as int, d),
        k < 4,
    ensures
        c == window_cell(board@.cells, row as int, col as int, d, k as int),
{
    let idx = match d {
        Direction::Right => row * 7 + col + k,
        Direction::Down => (row + k) * 7 + col,
        Direction::DownRight => (row + k) * 7 + col + k,
        Direction::UpRight => (row - k) * 7 + col + k,
    };
    board.cell_at(idx)
}

/// What one start cell and direction add to the score, and the side that
/// has completed that window.
fn scan_window(board: &Board, row: usize, col: usize, d: Direction) -> (r: (i64, Option<Player>))
    ensures
        r.0 == window_score(board@.cells, row as int, col as int, d),
        r.1 == window_winner(board@, row as int, col as int, d),
        -64 <= r.0 <= 64,
{
    if !window_on_grid(row, col, d) {
        return (0, None);
    }
    let c0 = window_cell_of(board, row, col, d, 0);
    let c1 = window_cell_of(board, row, col, d, 1);
    let c2 = window_cell_of(board, row, col, d, 2);
    let c3 = window_cell_of(board, row, col, d, 3);
    proof {
        use_type_invariant(board);
        lemma_window_score_bounds(board@, row as int, col as int, d);
        lemma_four_iff_sum(board@, row as int, col as int, d, Player::First);
        lemma_four_iff_sum(board@, row as int, col as int, d, Player::Second);
    }
    let sum: i64 = c0.value as i64 + c1.value as i64 + c2.value as i64 + c3.value as i64;
    assert(-16 <= sum * sum <= 16 && -64 <= sum * sum * sum <= 64) by (nonlinear_arith)
        requires
            -4 <= sum <= 4,
    ;
    let score: i64 = sum * sum * sum;
    let won = match board.variant() {
        Variant::Numeric => if sum == 4 {
            Some(Player::First)
        } else if sum == -4 {
            Some(Player::Second)
        } else {
            None
        },
        Variant::Letter => if c0.symbol == Symbol::T && c1.symbol == Symbol::O && c2.symbol
            == Symbol::O && c3.symbol == Symbol::T {
            Some(Player::First)
        } else if c0.symbol == Symbol::O && c1.symbol == Symbol::T && c2.symbol == Symbol::T
            && c3.symbol == Symbol::O {
            Some(Player::Second)
        } else {
            None
        },
    };
    proof {
        let cells = board@.cells;
        let (r, c) = (row as int, col as int);
        assert(won == Some(Player::First) ==> spells_word(cells, r, c, d, Player::First)
            || board@.variant == Variant::Numeric) by {
            if won == Some(Player::First) && board@.variant == Variant::Letter {
                assert forall|k: int| 0 <= k < 4 implies (#[trigger] window_cell(
                    cells,
                    r,
                    c,
                    d,
                    k,
                )).symbol == word_letter(Player::First, k) by {
                    assert(k == 0 || k == 1 || k == 2 || k == 3);
                }
            }
        }
        assert(won == Some(Player::Second) ==> spells_word(cells, r, c, d, Player::Second)
            || board@.variant == Variant::Numeric) by {
            if won == Some(Player::Second) && board@.variant == Variant::Letter {
                assert forall|k: int| 0 <= k < 4 implies (#[trigger] window_cell(
                    cells,
                    r,
                    c,
                    d,
                    k,
                )).symbol == word_letter(Player::Second, k) by {
                    assert(k == 0 || k == 1 || k == 2 || k == 3);
                }
            }
        }
        if spells_word(cells, r, c, d, Player::First) {
            assert(window_cell(cells, r, c, d, 0).symbol == Symbol::T);
            assert(window_cell(cells, r, c, d, 1).symbol == Symbol::O);
            assert(window_cell(cells, r, c, d, 2).symbol == Symbol::O);
            assert(window_cell(cells, r, c, d, 3).symbol == Symbol::T);
        }
        if spells_word(cells, r, c, d, Player::Second) {
            assert(window_cell(cells, r, c, d, 0).symbol == Symbol::O);
            assert(window_cell(cells, r, c, d, 1).symbol == Symbol::T);
            assert(window_cell(cells, r, c, d, 2).symbol == Symbol::T);
            assert(window_cell(cells, r, c, d, 3).symbol == Symbol::O);
        }
    }
    (score, won)
}

/// Evaluates a board: how the game has ended, if it has, and the positional
/// score of the grid.
///
/// The first part is `Some(Winner::Side(p))` where `p` has completed a
/// window, `Some(Winner::Draw)` where nobody has and the board is full, and
/// `None` while the game goes on. The second part is the sum of the cubed
/// window sums over all windows of four on the grid; it counts the values of
/// the discs only, never their symbols. The board is not changed.
pub fn evaluate(board: &Board) -> (r: (Option<Winner>, i64))
    ensures
        r.0 == outcome(board@),
        r.1 == heuristic(board@.cells),
        -10752 <= r.1 <= 10752,
{
    let mut score: i64 = 0;
    let mut won: Option<Player> = None;
    let mut n: usize = 0;
    while n < 42
        invariant
            n <= 42,
            score == score_upto(board@.cells, n as int),
            won == winner_upto(board@, n as int),
            -256 * n <= score <= 256 * n,
        decreases 42 - n,
    {
        let row = n / 7;
        let col = n % 7;
        let (s0, w0) = scan_window(board, row, col, Direction::Right);
        let (s1, w1) = scan_window(board, row, col, Direction::Down);
        let (s2, w2) = scan_window(board, row, col, Direction::DownRight);
        let (s3, w3) = scan_window(board, row, col, Direction::UpRight);
        score = score + (s0 + s1 + s2 + s3);
        let here = if w0.is_some() {
            w0
        } else if w1.is_some() {
            w1
        } else if w2.is_some() {
            w2
        } else {
            w3
        };
        if here.is_some() {
            won = here;
        }
        n = n + 1;
    }
    let terminal = match won {
        Some(p) => Some(Winner::Side(p)),
        None => if board.is_full() {
            Some(Winner::Draw)
        } else {
            None
        },
    };
    (terminal, score)
}

} // verus!
