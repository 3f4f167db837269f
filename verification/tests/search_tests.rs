use connect_engine::board::{Board, Move, Player, Symbol, Variant};
use connect_engine::difficulty::{depth_bound, Difficulty};
use connect_engine::eval::evaluate;
use connect_engine::moves::legal_moves_of;
use connect_engine::search::{search, NEG_INF, POS_INF, WIN_SCORE};

const A: Player = Player::First;
const B: Player = Player::Second;

fn drop_at(column: usize) -> Move {
    Move { column, symbol: Symbol::Blank }
}

fn numeric(moves: &[(usize, Player)]) -> Board {
    let mut board = Board::new(Variant::Numeric);
    for (column, mover) in moves {
        board.apply_move(drop_at(*column), *mover).unwrap();
    }
    board
}

fn letters(moves: &[(usize, Symbol, Player)]) -> Board {
    let mut board = Board::new(Variant::Letter);
    for (column, symbol, mover) in moves {
        board.apply_move(Move { column: *column, symbol: *symbol }, *mover).unwrap();
    }
    board
}

/// The minimax score without any pruning, written out in the plain way.
fn plain_minimax(board: &Board, mover: Player, depth: u8, bound: u8) -> i64 {
    let (terminal, positional) = evaluate(board);
    if terminal.is_some() || depth >= bound {
        let d = depth as i64;
        return match terminal {
            Some(connect_engine::eval::Winner::Side(p)) => {
                if p == mover {
                    WIN_SCORE - d * d
                } else {
                    -WIN_SCORE - d * d
                }
            }
            _ => positional * mover.as_sign() as i64,
        };
    }
    let maxing = depth % 2 == 0;
    let side = if maxing { mover } else { mover.opponent() };
    let mut best = if maxing { NEG_INF } else { POS_INF };
    for mv in legal_moves_of(board) {
        let next = board.apply(mv, side).unwrap();
        let r = plain_minimax(&next, mover, depth + 1, bound);
        if maxing {
            best = best.max(r);
        } else {
            best = best.min(r);
        }
    }
    best
}

fn best_moves_by_plain_minimax(board: &Board, mover: Player, bound: u8) -> Vec<Move> {
    let target = plain_minimax(board, mover, 0, bound);
    legal_moves_of(board)
        .into_iter()
        .filter(|mv| plain_minimax(&board.apply(*mv, mover).unwrap(), mover, 1, bound) == target)
        .collect()
}

#[test]
fn leaf_at_the_bound_scores_the_position() {
    let board = numeric(&[(3, A)]);
    let found = search(&board, A, 0, NEG_INF, POS_INF, 0);
    assert_eq!(found.score, 7);
    assert!(found.tied.is_empty());
    let found = search(&board, B, 0, NEG_INF, POS_INF, 0);
    assert_eq!(found.score, -7);
}

#[test]
fn won_position_scores_by_depth() {
    let board = numeric(&[(0, A), (1, A), (2, A), (3, A)]);
    assert_eq!(search(&board, A, 0, NEG_INF, POS_INF, 4).score, 999999);
    assert_eq!(search(&board, A, 2, NEG_INF, POS_INF, 4).score, 999995);
    assert_eq!(search(&board, A, 3, NEG_INF, POS_INF, 4).score, 999990);
    assert_eq!(search(&board, B, 0, NEG_INF, POS_INF, 4).score, -999999);
    assert_eq!(search(&board, B, 3, NEG_INF, POS_INF, 4).score, -1000008);
    assert!(search(&board, A, 0, NEG_INF, POS_INF, 4).tied.is_empty());
}

#[test]
fn one_ply_on_the_empty_board_prefers_the_middle() {
    let board = Board::new(Variant::Numeric);
    let found = search(&board, A, 0, NEG_INF, POS_INF, 1);
    assert_eq!(found.score, 7);
    assert_eq!(found.tied, vec![drop_at(3)]);
}

#[test]
fn one_ply_for_the_second_player_prefers_the_middle_too() {
    let board = Board::new(Variant::Numeric);
    let found = search(&board, B, 0, NEG_INF, POS_INF, 1);
    assert_eq!(found.score, 7);
    assert_eq!(found.tied, vec![drop_at(3)]);
}

#[test]
fn winning_move_is_found_at_depth_one() {
    let board = numeric(&[(0, A), (0, B), (1, A), (1, B), (2, A), (2, B)]);
    let found = search(&board, A, 0, NEG_INF, POS_INF, 1);
    assert_eq!(found.score, WIN_SCORE - 1);
    assert_eq!(found.tied, vec![drop_at(3)]);
}

#[test]
fn threat_is_blocked_at_depth_two() {
    // The first player threatens column 3; the second must take it.
    let board = numeric(&[(0, A), (6, B), (1, A), (6, B), (2, A)]);
    let found = search(&board, B, 0, NEG_INF, POS_INF, 2);
    assert_eq!(found.tied, vec![drop_at(3)]);
    assert!(found.score > -WIN_SCORE / 2);
}

#[test]
fn tied_moves_come_in_the_order_of_the_columns() {
    // At depth 1 in the letter game on an empty board a T and an O in the
    // same column score alike.
    let board = Board::new(Variant::Letter);
    let found = search(&board, A, 0, NEG_INF, POS_INF, 1);
    assert_eq!(
        found.tied,
        vec![Move { column: 3, symbol: Symbol::T }, Move { column: 3, symbol: Symbol::O }]
    );
}

#[test]
fn pruning_keeps_the_score_numeric() {
    let boards = vec![
        Board::new(Variant::Numeric),
        numeric(&[(3, A), (3, B), (4, A)]),
        numeric(&[(0, A), (6, B), (1, A), (6, B), (2, A)]),
        numeric(&[(3, A), (2, B), (3, A), (2, B), (3, A), (4, B), (5, A), (2, B)]),
    ];
    for board in &boards {
        for bound in 0..=4u8 {
            for mover in [A, B] {
                let found = search(board, mover, 0, NEG_INF, POS_INF, bound);
                assert_eq!(found.score, plain_minimax(board, mover, 0, bound));
            }
        }
    }
}

#[test]
fn pruning_keeps_the_score_letter() {
    let boards = vec![
        Board::new(Variant::Letter),
        letters(&[(0, Symbol::T, A), (1, Symbol::O, B), (2, Symbol::O, A)]),
        letters(&[(3, Symbol::O, A), (3, Symbol::T, B), (4, Symbol::T, A), (2, Symbol::O, B)]),
    ];
    for board in &boards {
        for bound in 0..=3u8 {
            for mover in [A, B] {
                let found = search(board, mover, 0, NEG_INF, POS_INF, bound);
                assert_eq!(found.score, plain_minimax(board, mover, 0, bound));
            }
        }
    }
}

#[test]
fn tied_moves_are_the_best_moves() {
    let boards = vec![
        Board::new(Variant::Numeric),
        numeric(&[(3, A), (3, B), (4, A)]),
        numeric(&[(0, A), (6, B), (1, A), (6, B), (2, A)]),
        letters(&[(0, Symbol::T, A), (1, Symbol::O, B), (2, Symbol::O, A)]),
        Board::new(Variant::Letter),
    ];
    for board in &boards {
        for bound in 1..=3u8 {
            for mover in [A, B] {
                let found = search(board, mover, 0, NEG_INF, POS_INF, bound);
                assert_eq!(found.tied, best_moves_by_plain_minimax(board, mover, bound));
                assert!(!found.tied.is_empty());
            }
        }
    }
}

#[test]
fn narrow_window_cuts_the_scan_off() {
    // With beta below every score the first move already leaves the window.
    let board = Board::new(Variant::Numeric);
    let found = search(&board, A, 0, NEG_INF, -100, 1);
    assert_eq!(found.score, 3);
    assert_eq!(found.tied, vec![drop_at(0)]);
}

#[test]
fn narrow_window_at_an_odd_depth() {
    // At depth 1 the opponent moves and the least score is sought; with
    // alpha above every score the first move ends the scan.
    let board = Board::new(Variant::Numeric);
    let found = search(&board, A, 1, 100, POS_INF, 2);
    assert_eq!(found.score, -3);
    assert_eq!(found.tied, vec![drop_at(0)]);
}

#[test]
fn search_leaves_the_board_as_it_is() {
    let board = numeric(&[(3, A), (3, B), (4, A)]);
    let before = board;
    let _ = search(&board, B, 0, NEG_INF, POS_INF, 4);
    assert_eq!(board.ply_count(), 3);
    for row in 0..6 {
        for col in 0..7 {
            assert_eq!(board.cell(row, col), before.cell(row, col));
        }
    }
}

#[test]
fn depth_bounds_of_the_levels() {
    assert_eq!(depth_bound(Variant::Letter, Difficulty::Easy), 1);
    assert_eq!(depth_bound(Variant::Letter, Difficulty::Medium), 2);
    assert_eq!(depth_bound(Variant::Letter, Difficulty::Hard), 3);
    assert_eq!(depth_bound(Variant::Numeric, Difficulty::Easy), 4);
    assert_eq!(depth_bound(Variant::Numeric, Difficulty::Medium), 4);
    assert_eq!(depth_bound(Variant::Numeric, Difficulty::Hard), 4);
}

#[test]
fn names_of_the_levels() {
    assert_eq!(Difficulty::Easy.name(), "Easy");
    assert_eq!(Difficulty::Medium.name(), "Medium");
    assert_eq!(Difficulty::Hard.name(), "Hard");
}

#[test]
fn hard_is_no_worse_than_easy_where_a_win_is_forced() {
    // Letter game, first player (TOOT) to move. Row 5 holds T O O in
    // columns 1 to 3: a T in column 4 wins at once.
    let board = letters(&[(1, Symbol::T, A), (2, Symbol::O, B), (3, Symbol::O, A)]);
    let easy = search(&board, A, 0, NEG_INF, POS_INF, depth_bound(Variant::Letter, Difficulty::Easy));
    let hard = search(&board, A, 0, NEG_INF, POS_INF, depth_bound(Variant::Letter, Difficulty::Hard));
    assert_eq!(hard.score, WIN_SCORE - 1);
    assert_eq!(easy.score, WIN_SCORE - 1);
    let winning = vec![Move { column: 4, symbol: Symbol::T }];
    assert_eq!(hard.tied, winning);
    assert_eq!(easy.tied, winning);
    // By the scoring of the deeper search no move of the easy level is
    // better than a move of the hard level.
    let hard_bound = depth_bound(Variant::Letter, Difficulty::Hard);
    for mv in &easy.tied {
        let after = board.apply(*mv, A).unwrap();
        assert!(plain_minimax(&after, A, 1, hard_bound) <= hard.score);
    }
}

#[test]
fn hard_sees_a_win_in_three_plies_that_easy_cannot() {
    // Numeric rules do not depend on the level, so the depths are given
    // directly: two discs of the first player in columns 2 and 3 of the
    // bottom row, with both neighbours free, win in three plies.
    let board = numeric(&[(2, A), (2, B), (3, A), (3, B)]);
    let shallow = search(&board, A, 0, NEG_INF, POS_INF, 1);
    let deep = search(&board, A, 0, NEG_INF, POS_INF, 3);
    assert!(shallow.score < WIN_SCORE / 2);
    assert_eq!(deep.score, WIN_SCORE - 9);
    for mv in &shallow.tied {
        let after = board.apply(*mv, A).unwrap();
        assert!(plain_minimax(&after, A, 1, 3) <= deep.score);
    }
}
