//! The board: a grid of cells that fills from the bottom, with the count of
//! discs placed so far, and the rule by which a move is applied to it.

use vstd::prelude::*;

verus! {

/// Number of rows. Row 0 is the top, row 5 the bottom.
pub const ROWS: usize = 6;

/// Number of columns.
pub const COLS: usize = 7;

/// Number of cells, and so the greatest possible ply count.
pub const CELLS: usize = 42;

/// Which of the two games a board belongs to.
#[derive(Clone, Copy, PartialEq, Eq, Debug, Structural)]
pub enum Variant {
    /// Four in a row: a disc only says who dropped it.
    Numeric,
    /// The letter game: a disc also carries a `T` or an `O`.
    Letter,
}

/// One of the two sides. As a number, `First` is +1 and `Second` is -1.
/// In the letter game `First` wins with TOOT and `Second` with OTTO.
#[derive(Clone, Copy, PartialEq, Eq, Debug, Structural)]
pub enum Player {
    First,
    Second,
}

/// What is written on a disc.
#[derive(Clone, Copy, PartialEq, Eq, Debug, Structural)]
pub enum Symbol {
    /// Nothing: an empty cell, or any disc of the numeric game.
    Blank,
    T,
    O,
}

/// One cell of the grid: `value` is 0 for an empty cell, +1 for a disc of the
/// first player and -1 for a disc of the second.
#[derive(Clone, Copy, PartialEq, Eq, Debug, Structural)]
pub struct Cell {
    pub value: i8,
    pub symbol: Symbol,
}

/// A move: the column to drop into and, in the letter game, the symbol of
/// the disc. A move of the numeric game carries `Symbol::Blank`.
#[derive(Clone, Copy, PartialEq, Eq, Debug, Structural)]
pub struct Move {
    pub column: usize,
    pub symbol: Symbol,
}

/// Where a disc came to rest.
#[derive(Clone, Copy, PartialEq, Eq, Debug, Structural)]
pub struct PlacementOutcome {
    pub row: usize,
    pub column: usize,
}

/// The move cannot be made: its column is outside the grid or already full,
/// or its symbol does not belong to the game played on the board.
#[derive(Clone, Copy, PartialEq, Eq, Debug, Structural)]
pub struct InvalidMove;

impl Player {
    /// +1 for the first player, -1 for the second.
    pub open spec fn sign(self) -> int {
        match self {
            Player::First => 1,
            Player::Second => -1,
        }
    }

    pub open spec fn other(self) -> Player {
        match self {
            Player::First => Player::Second,
            Player::Second => Player::First,
        }
    }

    /// The side as a number.
    pub fn as_sign(self) -> (s: i8)
        ensures
            s == self.sign(),
    {
        match self {
            Player::First => 1,
            Player::Second => -1,
        }
    }

    /// The side that a sign stands for; `None` for anything but +1 and -1.
    pub fn from_sign(sign: i64) -> (p: Option<Player>)
        ensures
            p == (if sign == 1 {
                Some(Player::First)
            } else if sign == -1 {
                Some(Player::Second)
            } else {
                None
            }),
    {
        if sign == 1 {
            Some(Player::First)
        } else if sign == -1 {
            Some(Player::Second)
        } else {
            None
        }
    }

    /// The other side.
    pub fn opponent(self) -> (p: Player)
        ensures
            p == self.other(),
    {
        match self {
            Player::First => Player::Second,
            Player::Second => Player::First,
        }
    }
}

/// The cell at a row and a column of a grid stored row by row.
pub open spec fn at(cells: Seq<Cell>, row: int, col: int) -> Cell {
    cells[row * 7 + col]
}

pub open spec fn is_empty(c: Cell) -> bool {
    c.value == 0
}

/// A cell holds what its game allows: a value of -1, 0 or +1, no symbol in
/// the numeric game, and in the letter game a symbol exactly on the discs.
pub open spec fn cell_ok(variant: Variant, c: Cell) -> bool {
    &&& -1 <= c.value <= 1
    &&& match variant {
        Variant::Numeric => c.symbol == Symbol::Blank,
        Variant::Letter => (c.symbol == Symbol::Blank <==> c.value == 0),
    }
}

/// A disc at this place rests on another disc: the cell below is not empty.
pub open spec fn stacked(cells: Seq<Cell>, row: int, col: int) -> bool {
    !is_empty(at(cells, row, col)) ==> !is_empty(at(cells, row + 1, col))
}

/// Number of discs among the first `n` cells.
pub open spec fn discs_upto(cells: Seq<Cell>, n: int) -> nat
    decreases n,
{
    if n <= 0 {
        0
    } else {
        discs_upto(cells, n - 1) + (if is_empty(cells[n - 1]) {
            0nat
        } else {
            1nat
        })
    }
}

/// The symbol of a move belongs to the game.
pub open spec fn symbol_fits(variant: Variant, symbol: Symbol) -> bool {
    match variant {
        Variant::Numeric => symbol == Symbol::Blank,
        Variant::Letter => symbol != Symbol::Blank,
    }
}

/// `row` is the lowest empty row of the column.
pub open spec fn is_landing_row(cells: Seq<Cell>, col: int, row: int) -> bool {
    &&& 0 <= row < 6
    &&& is_empty(at(cells, row, col))
    &&& forall|below: int| row < below < 6 ==> !is_empty(#[trigger] at(cells, below, col))
}

/// The lowest empty row of the column at or above `row`, or -1 if there is none.
pub open spec fn lowest_empty(cells: Seq<Cell>, col: int, row: int) -> int
    decreases row + 1,
{
    if row < 0 {
        -1
    } else if is_empty(at(cells, row, col)) {
        row
    } else {
        lowest_empty(cells, col, row - 1)
    }
}

/// The mathematical board: the game, the 42 cells row by row from the top
/// left, and the number of discs placed.
pub struct BoardView {
    pub variant: Variant,
    pub cells: Seq<Cell>,
    pub plies: nat,
}

impl BoardView {
    /// The board before the first move.
    pub open spec fn empty(variant: Variant) -> BoardView {
        BoardView {
            variant,
            cells: Seq::new(42, |i: int| Cell { value: 0, symbol: Symbol::Blank }),
            plies: 0,
        }
    }

    /// Every cell is allowed by the game, the discs of a column lie on one
    /// another from the bottom row up, and the ply count is the number of discs.
    pub open spec fn wf(self) -> bool {
        &&& self.cells.len() == 42
        &&& forall|i: int| 0 <= i < 42 ==> cell_ok(self.variant, #[trigger] self.cells[i])
        &&& forall|row: int, col: int|
            0 <= row < 5 && 0 <= col < 7 ==> #[trigger] stacked(self.cells, row, col)
        &&& self.plies == discs_upto(self.cells, 42)
    }

    /// No disc can be added.
    pub open spec fn full(self) -> bool {
        self.plies as usize >= CELLS
    }

    /// A move is legal if its column is on the grid with its top cell empty
    /// and its symbol belongs to the game.
    pub open spec fn legal(self, mv: Move) -> bool {
        &&& mv.column < 7
        &&& symbol_fits(self.variant, mv.symbol)
        &&& is_empty(at(self.cells, 0, mv.column as int))
    }

    /// The row in which a disc dropped into the column comes to rest.
    pub open spec fn landing_row(self, col: int) -> int {
        lowest_empty(self.cells, col, 5)
    }

    /// The board after `mover` has made the move.
    pub open spec fn apply(self, mv: Move, mover: Player) -> BoardView {
        BoardView {
            variant: self.variant,
            cells: self.cells.update(
                self.landing_row(mv.column as int) * 7 + mv.column,
                Cell { value: mover.sign() as i8, symbol: mv.symbol },
            ),
            plies: self.plies + 1,
        }
    }

    /// The side to move when the players alternate and the first player begins.
    pub open spec fn to_move(self) -> Player {
        if self.plies % 2 == 0 {
            Player::First
        } else {
            Player::Second
        }
    }
}

/// The lowest empty row found from `row` upwards is a row at or above `row`
/// with an empty cell and none empty between the two, or -1 when every cell
/// from the top down to `row` holds a disc.
pub proof fn lemma_lowest_empty(cells: Seq<Cell>, col: int, row: int)
    requires
        -1 <= row < 6,
    ensures
        -1 <= lowest_empty(cells, col, row) <= row,
        lowest_empty(cells, col, row) >= 0 ==> is_empty(
            at(cells, lowest_empty(cells, col, row), col),
        ),
        forall|r: int|
            lowest_empty(cells, col, row) < r <= row ==> !is_empty(#[trigger] at(cells, r, col)),
    decreases row + 1,
{
    if row >= 0 && !is_empty(at(cells, row, col)) {
        lemma_lowest_empty(cells, col, row - 1);
    }
}

/// In a well-formed board an empty cell has only empty cells above it.
pub proof fn lemma_empty_above(bv: BoardView, row: int, col: int, above: int)
    requires
        bv.wf(),
        0 <= above <= row < 6,
        0 <= col < 7,
        is_empty(at(bv.cells, row, col)),
    ensures
        is_empty(at(bv.cells, above, col)),
    decreases row - above,
{
    if above < row {
        assert(stacked(bv.cells, row - 1, col));
        lemma_empty_above(bv, row - 1, col, above);
    }
}

/// On a legal move the disc lands in the lowest empty row of its column.
pub proof fn lemma_landing_row(bv: BoardView, col: int)
    requires
        0 <= col < 7,
        is_empty(at(bv.cells, 0, col)),
    ensures
        is_landing_row(bv.cells, col, bv.landing_row(col)),
{
    lemma_lowest_empty(bv.cells, col, 5);
    let r = lowest_empty(bv.cells, col, 5);
    if r < 0 {
        assert(!is_empty(at(bv.cells, 0, col)));
    }
}

/// The first `n` cells hold at most `n` discs, and hold `n` exactly when
/// none of them is empty.
pub proof fn lemma_discs_upto_bounds(cells: Seq<Cell>, n: int)
    requires
        0 <= n,
    ensures
        discs_upto(cells, n) <= n,
        discs_upto(cells, n) == n ==> forall|i: int| 0 <= i < n ==> !is_empty(#[trigger] cells[i]),
        (forall|i: int| 0 <= i < n ==> !is_empty(#[trigger] cells[i])) ==> discs_upto(cells, n)
            == n,
    decreases n,
{
    if n > 0 {
        lemma_discs_upto_bounds(cells, n - 1);
    }
}

/// Putting a disc into an empty cell adds one to the count; the cells before
/// it count as they did.
pub proof fn lemma_discs_upto_update(cells: Seq<Cell>, idx: int, c: Cell, n: int)
    requires
        0 <= idx < cells.len(),
        0 <= n <= cells.len(),
        is_empty(cells[idx]),
        !is_empty(c),
    ensures
        discs_upto(cells.update(idx, c), n) == discs_upto(cells, n) + (if idx < n {
            1nat
        } else {
            0nat
        }),
    decreases n,
{
    if n > 0 {
        lemma_discs_upto_update(cells, idx, c, n - 1);
    }
}

/// A well-formed board has at most 42 discs, and has 42 exactly when no cell
/// of its top row is empty.
pub proof fn lemma_full_board(bv: BoardView)
    requires
        bv.wf(),
    ensures
        bv.plies <= 42,
        bv.full() <==> forall|col: int| 0 <= col < 7 ==> !is_empty(#[trigger] at(bv.cells, 0, col)),
{
    lemma_discs_upto_bounds(bv.cells, 42);
    if bv.full() {
        assert forall|col: int| 0 <= col < 7 implies !is_empty(#[trigger] at(bv.cells, 0, col)) by {
            assert(!is_empty(bv.cells[0 * 7 + col]));
        }
    }
    if forall|col: int| 0 <= col < 7 ==> !is_empty(#[trigger] at(bv.cells, 0, col)) {
        assert forall|i: int| 0 <= i < 42 implies !is_empty(#[trigger] bv.cells[i]) by {
            let row = i / 7;
            let col = i % 7;
            assert(i == row * 7 + col);
            if is_empty(at(bv.cells, row, col)) {
                lemma_empty_above(bv, row, col, 0);
                assert(!is_empty(at(bv.cells, 0, col)));
            }
        }
    }
}

/// A legal move leads from a well-formed board to a well-formed board.
pub proof fn lemma_apply_wf(bv: BoardView, mv: Move, mover: Player)
    requires
        bv.wf(),
        bv.legal(mv),
    ensures
        bv.apply(mv, mover).wf(),
        bv.plies < 42,
{
    let col = mv.column as int;
    let row = bv.landing_row(col);
    lemma_landing_row(bv, col);
    let idx = row * 7 + col;
    let c = Cell { value: mover.sign() as i8, symbol: mv.symbol };
    let after = bv.apply(mv, mover);
    assert(after.cells == bv.cells.update(idx, c));
    assert(is_empty(bv.cells[idx]));
    lemma_discs_upto_update(bv.cells, idx, c, 42);
    lemma_discs_upto_bounds(after.cells, 42);
    assert forall|i: int| 0 <= i < 42 implies cell_ok(after.variant, #[trigger] after.cells[i]) by {
        if i != idx {
            assert(after.cells[i] == bv.cells[i]);
        }
    }
    assert forall|r: int, k: int| 0 <= r < 5 && 0 <= k < 7 implies #[trigger] stacked(
        after.cells,
        r,
        k,
    ) by {
        assert(stacked(bv.cells, r, k));
        if r * 7 + k == idx {
            assert(r == row && k == col);
            assert(!is_empty(at(bv.cells, r + 1, k)));
            assert((r + 1) * 7 + k != idx);
        } else {
            assert(at(after.cells, r, k) == at(bv.cells, r, k));
            if (r + 1) * 7 + k != idx {
                assert(at(after.cells, r + 1, k) == at(bv.cells, r + 1, k));
            }
        }
    }
}

/// A board of one of the two games. Its cells and its ply count can only be
/// changed by applying moves, so every board is well formed.
#[derive(Clone, Copy, Debug)]
pub struct Board {
    variant: Variant,
    cells: [Cell; CELLS],
    plies: u8,
}

impl View for Board {
    type V = BoardView;

    closed spec fn view(&self) -> BoardView {
        BoardView { variant: self.variant, cells: self.cells@, plies: self.plies as nat }
    }
}

impl Board {
    #[verifier::type_invariant]
    pub open spec fn well_formed(self) -> bool {
        self@.wf()
    }

    /// The empty board of a game.
    pub fn new(variant: Variant) -> (b: Board)
        ensures
            b@ == BoardView::empty(variant),
    {
        let cells = [Cell { value: 0, symbol: Symbol::Blank };CELLS];
        proof {
            assert(cells@ =~= BoardView::empty(variant).cells);
            lemma_empty_wf(variant);
        }
        Board { variant, cells, plies: 0 }
    }

    /// The game played on this board.
    pub fn variant(&self) -> (v: Variant)
        ensures
            v == self@.variant,
    {
        self.variant
    }

    /// Number of discs placed so far.
    pub fn ply_count(&self) -> (n: u8)
        ensures
            n == self@.plies,
            n <= 42,
    {
        proof {
            use_type_invariant(self);
            lemma_full_board(self@);
        }
        self.plies
    }

    /// Whether all 42 cells hold a disc.
    pub fn is_full(&self) -> (full: bool)
        ensures
            full == self@.full(),
    {
        self.plies as usize >= CELLS
    }

    /// The cell at a row and a column, `None` outside the grid.
    pub fn cell(&self, row: usize, col: usize) -> (c: Option<Cell>)
        ensures
            c == (if row < 6 && col < 7 {
                Some(at(self@.cells, row as int, col as int))
            } else {
                None
            }),
    {
        if row < ROWS && col < COLS {
            Some(self.cells[row * COLS + col])
        } else {
            None
        }
    }

    /// The cell with this index in the row-by-row order of the grid.
    pub(crate) fn cell_at(&self, idx: usize) -> (c: Cell)
        requires
            idx < 42,
        ensures
            c == self@.cells[idx as int],
    {
        self.cells[idx]
    }

    /// The side to move when the players alternate and the first player begins.
    pub fn player_move(&self) -> (p: Player)
        ensures
            p == self@.to_move(),
    {
        if self.plies % 2 == 0 {
            Player::First
        } else {
            Player::Second
        }
    }

    /// Whether the move can be made on this board.
    pub fn is_legal(&self, mv: Move) -> (ok: bool)
        ensures
            ok == self@.legal(mv),
    {
        let fits = match self.variant {
            Variant::Numeric => mv.symbol == Symbol::Blank,
            Variant::Letter => mv.symbol != Symbol::Blank,
        };
        mv.column < COLS && fits && self.cells[mv.column].value == 0
    }

    /// The row in which a disc dropped into `column` comes to rest: the lowest
    /// empty row. `None` if the column is outside the grid or full.
    pub fn landing_row(&self, column: usize) -> (row: Option<usize>)
        ensures
            match row {
                Some(r) => column < 7 && is_landing_row(self@.cells, column as int, r as int) && r
                    == self@.landing_row(column as int),
                None => column >= 7 || !is_empty(at(self@.cells, 0, column as int)),
            },
    {
        if column >= COLS || self.cells[column].value != 0 {
            return None;
        }
        let mut row: usize = ROWS - 1;
        while row > 0 && self.cells[row * COLS + column].value != 0
            invariant
                row <= 5,
                column < 7,
                lowest_empty(self@.cells, column as int, 5) == lowest_empty(
                    self@.cells,
                    column as int,
                    row as int,
                ),
            decreases row,
        {
            row = row - 1;
        }
        proof {
            lemma_landing_row(self@, column as int);
        }
        Some(row)
    }

    /// The board that results when `mover` makes the move; this board is
    /// left as it is. Fails exactly when the move is not legal.
    pub fn apply(&self, mv: Move, mover: Player) -> (r: Result<Board, InvalidMove>)
        ensures
            match r {
                Ok(b) => self@.legal(mv) && b@ == self@.apply(mv, mover),
                Err(_) => !self@.legal(mv),
            },
    {
        let mut next = *self;
        match next.apply_move(mv, mover) {
            Ok(_) => Ok(next),
            Err(e) => Err(e),
        }
    }

    /// Makes the move on this board for `mover` and says where the disc
    /// landed. Fails exactly when the move is not legal, and then leaves the
    /// board unchanged.
    pub fn apply_move(&mut self, mv: Move, mover: Player) -> (r: Result<
        PlacementOutcome,
        InvalidMove,
    >)
        ensures
            match r {
                Ok(placed) => {
                    &&& old(self)@.legal(mv)
                    &&& final(self)@ == old(self)@.apply(mv, mover)
                    &&& placed.column == mv.column
                    &&& placed.row == old(self)@.landing_row(mv.column as int)
                    &&& is_landing_row(old(self)@.cells, mv.column as int, placed.row as int)
                },
                Err(_) => !old(self)@.legal(mv) && *final(self) == *old(self),
            },
    {
        if !self.is_legal(mv) {
            return Err(InvalidMove);
        }
        let row = match self.landing_row(mv.column) {
            Some(r) => r,
            None => { return Err(InvalidMove); },
        };
        proof {
            use_type_invariant(&*self);
            lemma_apply_wf(self@, mv, mover);
        }
        let mut cells = self.cells;
        cells[row * COLS + mv.column] = Cell { value: mover.as_sign(), symbol: mv.symbol };
        let next = Board { variant: self.variant, cells, plies: self.plies + 1 };
        assert(next@ == old(self)@.apply(mv, mover));
        *self = next;
        Ok(PlacementOutcome { row, column: mv.column })
    }
}

/// The empty board is well formed.
pub proof fn lemma_empty_wf(variant: Variant)
    ensures
        BoardView::empty(variant).wf(),
{
    let e = BoardView::empty(variant);
    lemma_discs_upto_zero(e.cells, 42);
    assert forall|row: int, col: int| 0 <= row < 5 && 0 <= col < 7 implies #[trigger] stacked(
        e.cells,
        row,
        col,
    ) by {
        assert(is_empty(e.cells[row * 7 + col]));
    }
}

/// Where the first `n` cells are all empty, they hold no disc.
pub proof fn lemma_discs_upto_zero(cells: Seq<Cell>, n: int)
    requires
        0 <= n <= cells.len(),
        forall|i: int| 0 <= i < n ==> is_empty(#[trigger] cells[i]),
    ensures
        discs_upto(cells, n) == 0,
    decreases n,
{
    if n > 0 {
        lemma_discs_upto_zero(cells, n - 1);
    }
}

} // verus!
