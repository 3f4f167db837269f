use connect_engine::board::{Board, Cell, InvalidMove, Move, Player, Symbol, Variant};
use connect_engine::moves::legal_moves_of;

fn drop_at(column: usize) -> Move {
    Move { column, symbol: Symbol::Blank }
}

#[test]
fn empty_board_has_no_discs() {
    let board = Board::new(Variant::Numeric);
    assert_eq!(board.ply_count(), 0);
    assert!(!board.is_full());
    for row in 0..6 {
        for col in 0..7 {
            assert_eq!(board.cell(row, col), Some(Cell { value: 0, symbol: Symbol::Blank }));
        }
    }
    assert_eq!(board.cell(6, 0), None);
    assert_eq!(board.cell(0, 7), None);
}

#[test]
fn first_disc_lands_on_the_bottom_row() {
    let mut board = Board::new(Variant::Numeric);
    let placed = board.apply_move(drop_at(3), Player::First).unwrap();
    assert_eq!(placed.row, 5);
    assert_eq!(placed.column, 3);
    assert_eq!(board.ply_count(), 1);
    assert_eq!(board.cell(5, 3), Some(Cell { value: 1, symbol: Symbol::Blank }));
    assert_eq!(board.cell(4, 3), Some(Cell { value: 0, symbol: Symbol::Blank }));
}

#[test]
fn discs_stack_from_the_bottom() {
    let mut board = Board::new(Variant::Numeric);
    let mut expected_row = 5;
    for ply in 0..6 {
        let mover = if ply % 2 == 0 { Player::First } else { Player::Second };
        assert_eq!(board.landing_row(2), Some(expected_row));
        let placed = board.apply_move(drop_at(2), mover).unwrap();
        assert_eq!(placed.row, expected_row);
        if expected_row > 0 {
            expected_row -= 1;
        }
    }
    assert_eq!(board.ply_count(), 6);
    assert_eq!(board.landing_row(2), None);
    assert_eq!(board.cell(0, 2), Some(Cell { value: -1, symbol: Symbol::Blank }));
    assert_eq!(board.cell(5, 2), Some(Cell { value: 1, symbol: Symbol::Blank }));
}

#[test]
fn full_column_rejects_a_move() {
    let mut board = Board::new(Variant::Numeric);
    for _ in 0..6 {
        board.apply_move(drop_at(4), Player::First).unwrap();
    }
    let before = board;
    assert_eq!(board.apply_move(drop_at(4), Player::Second), Err(InvalidMove));
    assert_eq!(board.ply_count(), 6);
    assert_eq!(board.cell(0, 4), before.cell(0, 4));
    assert!(before.apply(drop_at(4), Player::Second).is_err());
    assert!(!board.is_legal(drop_at(4)));
}

#[test]
fn column_outside_the_grid_is_rejected() {
    let mut board = Board::new(Variant::Numeric);
    assert_eq!(board.apply_move(drop_at(7), Player::First), Err(InvalidMove));
    assert_eq!(board.apply_move(drop_at(usize::MAX), Player::First), Err(InvalidMove));
    assert_eq!(board.landing_row(7), None);
    assert_eq!(board.ply_count(), 0);
}

#[test]
fn symbol_must_belong_to_the_game() {
    let mut numeric = Board::new(Variant::Numeric);
    let lettered = Move { column: 0, symbol: Symbol::T };
    assert_eq!(numeric.apply_move(lettered, Player::First), Err(InvalidMove));
    let mut letter = Board::new(Variant::Letter);
    assert_eq!(letter.apply_move(drop_at(0), Player::First), Err(InvalidMove));
    let placed = letter.apply_move(Move { column: 0, symbol: Symbol::O }, Player::First).unwrap();
    assert_eq!(placed.row, 5);
    assert_eq!(letter.cell(5, 0), Some(Cell { value: 1, symbol: Symbol::O }));
}

#[test]
fn apply_leaves_the_board_as_it_is() {
    let board = Board::new(Variant::Numeric);
    let next = board.apply(drop_at(6), Player::Second).unwrap();
    assert_eq!(board.ply_count(), 0);
    assert_eq!(board.cell(5, 6), Some(Cell { value: 0, symbol: Symbol::Blank }));
    assert_eq!(next.ply_count(), 1);
    assert_eq!(next.cell(5, 6), Some(Cell { value: -1, symbol: Symbol::Blank }));
    assert_eq!(next.variant(), Variant::Numeric);
}

#[test]
fn players_alternate_by_ply_count() {
    let mut board = Board::new(Variant::Numeric);
    assert_eq!(board.player_move(), Player::First);
    board.apply_move(drop_at(0), Player::First).unwrap();
    assert_eq!(board.player_move(), Player::Second);
    board.apply_move(drop_at(0), Player::Second).unwrap();
    assert_eq!(board.player_move(), Player::First);
}

#[test]
fn signs_of_the_sides() {
    assert_eq!(Player::First.as_sign(), 1);
    assert_eq!(Player::Second.as_sign(), -1);
    assert_eq!(Player::from_sign(1), Some(Player::First));
    assert_eq!(Player::from_sign(-1), Some(Player::Second));
    assert_eq!(Player::from_sign(0), None);
    assert_eq!(Player::from_sign(2), None);
    assert_eq!(Player::First.opponent(), Player::Second);
    assert_eq!(Player::Second.opponent(), Player::First);
}

#[test]
fn legal_moves_of_the_numeric_game() {
    let mut board = Board::new(Variant::Numeric);
    let all: Vec<Move> = (0..7).map(drop_at).collect();
    assert_eq!(legal_moves_of(&board), all);
    for _ in 0..6 {
        board.apply_move(drop_at(3), Player::First).unwrap();
    }
    let left: Vec<Move> = vec![0, 1, 2, 4, 5, 6].into_iter().map(drop_at).collect();
    assert_eq!(legal_moves_of(&board), left);
}

#[test]
fn legal_moves_of_the_letter_game() {
    let mut board = Board::new(Variant::Letter);
    for _ in 0..6 {
        board.apply_move(Move { column: 0, symbol: Symbol::T }, Player::First).unwrap();
    }
    let moves = legal_moves_of(&board);
    assert_eq!(moves.len(), 12);
    assert_eq!(moves[0], Move { column: 1, symbol: Symbol::T });
    assert_eq!(moves[5], Move { column: 6, symbol: Symbol::T });
    assert_eq!(moves[6], Move { column: 1, symbol: Symbol::O });
    assert_eq!(moves[11], Move { column: 6, symbol: Symbol::O });
}

#[test]
fn full_board_has_no_legal_move() {
    let mut board = Board::new(Variant::Numeric);
    for col in 0..7 {
        for _ in 0..6 {
            board.apply_move(drop_at(col), Player::First).unwrap();
        }
    }
    assert_eq!(board.ply_count(), 42);
    assert!(board.is_full());
    assert!(legal_moves_of(&board).is_empty());
}
