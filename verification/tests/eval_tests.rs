use connect_engine::board::{Board, Move, Player, Symbol, Variant};
use connect_engine::eval::{evaluate, Winner};

fn drop_at(column: usize) -> Move {
    Move { column, symbol: Symbol::Blank }
}

fn numeric(moves: &[(usize, Player)]) -> Board {
    let mut board = Board::new(Variant::Numeric);
    for (column, mover) in moves {
        board.apply_move(drop_at(*column), *mover).unwrap();
    }
    board
}

fn letters(moves: &[(usize, Symbol, Player)]) -> Board {
    let mut board = Board::new(Variant::Letter);
    for (column, symbol, mover) in moves {
        board.apply_move(Move { column: *column, symbol: *symbol }, *mover).unwrap();
    }
    board
}

const A: Player = Player::First;
const B: Player = Player::Second;

#[test]
fn empty_board_goes_on_with_score_zero() {
    assert_eq!(evaluate(&Board::new(Variant::Numeric)), (None, 0));
    assert_eq!(evaluate(&Board::new(Variant::Letter)), (None, 0));
}

#[test]
fn single_disc_in_the_corner_scores_three() {
    // The bottom left cell lies in one window along the row, one up the
    // column and one along a diagonal.
    let board = numeric(&[(0, A)]);
    assert_eq!(evaluate(&board), (None, 3));
    let board = numeric(&[(0, B)]);
    assert_eq!(evaluate(&board), (None, -3));
}

#[test]
fn single_disc_in_the_middle_of_the_bottom_row_scores_seven() {
    // Four windows along the row, one up the column, two diagonals.
    let board = numeric(&[(3, A)]);
    assert_eq!(evaluate(&board), (None, 7));
}

#[test]
fn two_discs_side_by_side() {
    // Columns 0 and 1 of the bottom row: the window over columns 0 to 3
    // sums to 2 and adds 8; columns 1 to 4 adds 1; two columns add 1 each;
    // the diagonals from (5,0) and (5,1) add 1 each.
    let board = numeric(&[(0, A), (1, A)]);
    assert_eq!(evaluate(&board), (None, 13));
}

#[test]
fn horizontal_four_wins_for_first() {
    let mut board = numeric(&[(0, A), (1, A), (2, A)]);
    assert_eq!(evaluate(&board).0, None);
    let placed = board.apply_move(drop_at(3), A).unwrap();
    assert_eq!(placed.row, 5);
    assert_eq!(evaluate(&board).0, Some(Winner::Side(A)));
}

#[test]
fn horizontal_four_scores_by_cubes() {
    // Row windows: 64 + 27 + 8 + 1; four columns 1 each; diagonals
    // up-right from (5,0)..(5,3) and up-left ending at (5,3): 5 in all.
    let board = numeric(&[(0, A), (1, A), (2, A), (3, A)]);
    assert_eq!(evaluate(&board), (Some(Winner::Side(A)), 109));
}

#[test]
fn vertical_four_wins_for_second() {
    let board = numeric(&[(6, B), (6, B), (6, B), (6, B)]);
    assert_eq!(evaluate(&board).0, Some(Winner::Side(B)));
}

#[test]
fn rising_diagonal_wins() {
    let board = numeric(&[
        (0, A),
        (1, B),
        (1, A),
        (2, B),
        (2, B),
        (2, A),
        (3, B),
        (3, B),
        (3, B),
        (3, A),
    ]);
    assert_eq!(evaluate(&board).0, Some(Winner::Side(A)));
}

#[test]
fn falling_diagonal_wins() {
    let board = numeric(&[
        (6, B),
        (5, A),
        (5, B),
        (4, A),
        (4, A),
        (4, B),
        (3, A),
        (3, A),
        (3, A),
        (3, B),
    ]);
    assert_eq!(evaluate(&board).0, Some(Winner::Side(B)));
}

#[test]
fn three_in_a_row_is_no_win() {
    let board = numeric(&[(0, A), (1, A), (2, A), (3, B)]);
    assert_eq!(evaluate(&board).0, None);
}

#[test]
fn toot_wins_for_first_whoever_dropped_the_discs() {
    let board = letters(&[
        (0, Symbol::T, B),
        (1, Symbol::O, B),
        (2, Symbol::O, B),
        (3, Symbol::T, B),
    ]);
    assert_eq!(evaluate(&board).0, Some(Winner::Side(A)));
    let board = letters(&[
        (0, Symbol::T, A),
        (1, Symbol::O, B),
        (2, Symbol::O, A),
        (3, Symbol::T, B),
    ]);
    assert_eq!(evaluate(&board).0, Some(Winner::Side(A)));
}

#[test]
fn otto_wins_for_second() {
    let board = letters(&[
        (3, Symbol::O, A),
        (4, Symbol::T, A),
        (5, Symbol::T, A),
        (6, Symbol::O, A),
    ]);
    assert_eq!(evaluate(&board).0, Some(Winner::Side(B)));
}

#[test]
fn otto_wins_down_a_column() {
    let board = letters(&[
        (2, Symbol::O, A),
        (2, Symbol::T, B),
        (2, Symbol::T, A),
        (2, Symbol::O, B),
    ]);
    assert_eq!(evaluate(&board).0, Some(Winner::Side(B)));
}

#[test]
fn four_discs_of_one_side_do_not_win_the_letter_game() {
    let board = letters(&[
        (0, Symbol::T, A),
        (1, Symbol::T, A),
        (2, Symbol::T, A),
        (3, Symbol::T, A),
    ]);
    assert_eq!(evaluate(&board), (None, 109));
}

#[test]
fn letter_score_counts_values_not_symbols() {
    let with_t = letters(&[(3, Symbol::T, A)]);
    let with_o = letters(&[(3, Symbol::O, A)]);
    assert_eq!(evaluate(&with_t).1, 7);
    assert_eq!(evaluate(&with_o).1, 7);
}

/// A full board without four in a row: the columns hold, from the bottom,
/// pairs of discs of alternating sides, and the middle column begins with
/// the other side.
fn drawn_board() -> Board {
    let mut board = Board::new(Variant::Numeric);
    for col in 0..7 {
        let flipped = col == 3;
        for height in 0..6 {
            let first = (height / 2) % 2 == 0;
            let mover = if first != flipped { A } else { B };
            board.apply_move(drop_at(col), mover).unwrap();
        }
    }
    board
}

#[test]
fn full_board_without_a_window_is_a_draw() {
    let board = drawn_board();
    assert_eq!(board.ply_count(), 42);
    assert_eq!(evaluate(&board).0, Some(Winner::Draw));
}

#[test]
fn full_board_with_a_window_is_a_win() {
    let mut board = Board::new(Variant::Numeric);
    for col in 0..7 {
        for _ in 0..6 {
            board.apply_move(drop_at(col), B).unwrap();
        }
    }
    assert_eq!(board.ply_count(), 42);
    assert_eq!(evaluate(&board).0, Some(Winner::Side(B)));
}

#[test]
fn evaluating_twice_gives_the_same() {
    let board = numeric(&[(3, A), (3, B), (4, A), (2, B), (5, A)]);
    let before = board;
    let first = evaluate(&board);
    let second = evaluate(&board);
    assert_eq!(first, second);
    for row in 0..6 {
        for col in 0..7 {
            assert_eq!(board.cell(row, col), before.cell(row, col));
        }
    }
}
