//! Board state and move application: the grid of slots, the alternating
//! current player, and the gravity-respecting `add` move.

use vstd::prelude::*;

verus! {

/// Number of columns of the grid.
pub const COLS: u8 = 7;

/// Number of rows of the grid. Row 0 is the top; gravity fills a column
/// from row `ROWS - 1` upward.
pub const ROWS: u8 = 6;

/// Slot value of an unoccupied cell.
pub const EMPTY: u8 = 0;

/// Slot value of a cell holding a red token.
pub const RED: u8 = 1;

/// Slot value of a cell holding a yellow token.
pub const YELLOW: u8 = 2;

/// The two token colours; exactly one of them is "current" at any time.
#[derive(Copy, Clone, PartialEq, Eq, Structural, Hash, Debug)]
pub enum Player {
    RED,
    YELLOW,
}

/// Why a call of `add` failed.
#[derive(Copy, Clone, PartialEq, Eq, Structural, Hash, Debug)]
pub enum DropError {
    /// The column index was not in `[0, COLS)`.
    OutOfRange,
    /// The chosen column has no empty cell left; the state is unchanged.
    ColumnFull,
}

/// True of the three values a grid cell may hold.
pub open spec fn is_slot(s: u8) -> bool {
    s == EMPTY || s == RED || s == YELLOW
}

/// The slot value a player's tokens occupy cells with.
pub open spec fn slot_of(p: Player) -> u8 {
    match p {
        Player::RED => RED,
        Player::YELLOW => YELLOW,
    }
}

/// The other player.
pub open spec fn opposite(p: Player) -> Player {
    match p {
        Player::RED => Player::YELLOW,
        Player::YELLOW => Player::RED,
    }
}

impl Player {
    /// The slot value this player's tokens occupy cells with.
    pub fn token(self) -> (s: u8)
        ensures
            s == slot_of(self),
    {
        match self {
            Player::RED => RED,
            Player::YELLOW => YELLOW,
        }
    }

    /// The other player.
    pub fn other(self) -> (q: Player)
        ensures
            q == opposite(self),
    {
        match self {
            Player::RED => Player::YELLOW,
            Player::YELLOW => Player::RED,
        }
    }
}

/// The 7x6 grid of slots, stored flat in column-major order:
/// cell `(c, r)` lives at index `c * 6 + r`.
#[derive(Clone, Debug)]
pub struct Connect4Board {
    slots: Vec<u8>,
}

impl View for Connect4Board {
    type V = Seq<u8>;

    closed spec fn view(&self) -> Seq<u8> {
        self.slots@
    }
}

/// Index of cell `(c, r)` in the flat storage.
pub open spec fn cell_index(c: int, r: int) -> int {
    c * 6 + r
}

/// The slot value of cell `(c, r)`.
pub open spec fn slot_at(b: Connect4Board, c: int, r: int) -> u8 {
    b@[cell_index(c, r)]
}

/// Well-formed board: 42 cells, each holding a slot value, and within
/// every column the occupied cells are contiguous from the bottom row
/// upward (an occupied cell never floats above an empty one).
pub open spec fn wf_board(b: Connect4Board) -> bool {
    &&& b@.len() == 42
    &&& (forall|k: int| 0 <= k < 42 ==> is_slot(#[trigger] b@[k]))
    &&& (forall|c: int, r: int|
        0 <= c < 7 && 0 <= r < 5 && #[trigger] slot_at(b, c, r) != EMPTY ==> slot_at(
            b,
            c,
            r + 1,
        ) != EMPTY)
}

/// True when every cell of the board is empty.
pub open spec fn all_empty(b: Connect4Board) -> bool {
    forall|k: int| 0 <= k < 42 ==> #[trigger] b@[k] == EMPTY
}

/// Row of the first empty cell of column `c` at or above row `r`,
/// scanning from `r` toward the top of the stack order used by `add`
/// (from the bottom row upward); `-1` when no empty cell remains.
pub open spec fn first_empty_from(b: Connect4Board, c: int, r: int) -> int
    decreases r + 1,
{
    if r < 0 {
        -1
    } else if slot_at(b, c, r) == EMPTY {
        r
    } else {
        first_empty_from(b, c, r - 1)
    }
}

/// Row where the next token dropped into column `c` lands
/// (the first empty cell found scanning from the bottom row upward),
/// or `-1` when the column is full.
pub open spec fn drop_row(b: Connect4Board, c: int) -> int {
    first_empty_from(b, c, 5)
}

/// True when column `c` has no empty cell left.
pub open spec fn full_col(b: Connect4Board, c: int) -> bool {
    drop_row(b, c) == -1
}

/// Number of occupied cells of column `c` in rows `[r, 6)`.
pub open spec fn col_count_from(b: Connect4Board, c: int, r: int) -> int
    decreases 6 - r,
{
    if r < 0 || r >= 6 {
        0
    } else {
        (if slot_at(b, c, r) != EMPTY {
            1int
        } else {
            0int
        }) + col_count_from(b, c, r + 1)
    }
}

/// Number of tokens held by column `c`.
pub open spec fn col_height(b: Connect4Board, c: int) -> int {
    col_count_from(b, c, 0)
}

/// Number of tokens held by columns `[c, 7)`.
pub open spec fn count_from_col(b: Connect4Board, c: int) -> int
    decreases 7 - c,
{
    if c < 0 || c >= 7 {
        0
    } else {
        col_height(b, c) + count_from_col(b, c + 1)
    }
}

/// Number of occupied cells of the whole board.
pub open spec fn count_tokens(b: Connect4Board) -> int {
    count_from_col(b, 0)
}

impl Connect4Board {
    /// Reads the slot value of cell `(c, r)`.
    pub fn get(&self, c: u8, r: u8) -> (s: u8)
        requires
            wf_board(*self),
            c < 7,
            r < 6,
        ensures
            s == slot_at(*self, c as int, r as int),
            is_slot(s),
    {
        self.slots[(c as usize) * 6 + (r as usize)]
    }
}

impl Default for Connect4Board {
    /// An all-empty board.
    fn default() -> (b: Connect4Board)
        ensures
            wf_board(b),
            all_empty(b),
            count_tokens(b) == 0,
            forall|c: int| 0 <= c < 7 ==> #[trigger] col_height(b, c) == 0,
    {
        let mut slots: Vec<u8> = Vec::new();
        let mut k: u8 = 0;
        while k < 42
            invariant
                k <= 42,
                slots@.len() == k as int,
                forall|i: int| 0 <= i < k as int ==> #[trigger] slots@[i] == EMPTY,
            decreases 42 - k,
        {
            slots.push(EMPTY);
            k = k + 1;
        }
        let b = Connect4Board { slots };
        proof {
            lemma_empty_board_counts(b);
        }
        b
    }
}

/// An all-empty board holds no tokens in any column.
proof fn lemma_empty_board_counts(b: Connect4Board)
    requires
        b@.len() == 42,
        all_empty(b),
    ensures
        count_tokens(b) == 0,
        forall|c: int| 0 <= c < 7 ==> #[trigger] col_height(b, c) == 0,
{
    assert forall|c: int| 0 <= c < 7 implies #[trigger] col_height(b, c) == 0 by {
        lemma_empty_col_count(b, c, 0);
    }
    reveal_with_fuel(count_from_col, 9);
}

/// In an all-empty board every column count from any row is zero.
proof fn lemma_empty_col_count(b: Connect4Board, c: int, r: int)
    requires
        b@.len() == 42,
        all_empty(b),
        0 <= c < 7,
        0 <= r,
    ensures
        col_count_from(b, c, r) == 0,
    decreases 6 - r,
{
    if r < 6 {
        assert(slot_at(b, c, r) == EMPTY);
        lemma_empty_col_count(b, c, r + 1);
    }
}

/// Current state of a Connect-4 game: the grid plus whose turn it is.
#[derive(Clone, Debug)]
pub struct Connect4 {
    pub board: Connect4Board,
    pub current_player: Player,
}

impl Connect4 {
    /// Well-formed game state.
    pub open spec fn wf(self) -> bool {
        wf_board(self.board)
    }

    /// Drops the current player's token into column `col`: the token lands
    /// in the lowest empty cell of the column, and the turn passes to the
    /// other player. Fails without changing anything when `col` is out of
    /// range or the column is full.
    pub fn add(&mut self, col: u8) -> (result: Result<(), DropError>)
        requires
            old(self).wf(),
        ensures
            final(self).wf(),
            result is Err ==> *final(self) == *old(self),
            col >= 7 <==> result == Err::<(), DropError>(DropError::OutOfRange),
            col < 7 ==> (full_col(old(self).board, col as int) <==> result == Err::<
                (),
                DropError,
            >(DropError::ColumnFull)),
            col < 7 && !full_col(old(self).board, col as int) ==> ({
                let row = drop_row(old(self).board, col as int);
                &&& result == Ok::<(), DropError>(())
                &&& 0 <= row < 6
                &&& slot_at(old(self).board, col as int, row) == EMPTY
                &&& final(self).board@ == old(self).board@.update(
                    cell_index(col as int, row),
                    slot_of(old(self).current_player),
                )
                &&& final(self).current_player == opposite(old(self).current_player)
                &&& count_tokens(final(self).board) == count_tokens(old(self).board) + 1
                &&& col_height(final(self).board, col as int) == col_height(
                    old(self).board,
                    col as int,
                ) + 1
                &&& (forall|c2: int|
                    0 <= c2 < 7 && c2 != col as int ==> #[trigger] col_height(
                        final(self).board,
                        c2,
                    ) == col_height(old(self).board, c2))
            }),
    {
        if col >= COLS {
            return Err(DropError::OutOfRange);
        }
        let mut r: i8 = 5;
        while r >= 0
            invariant
                old(self).wf(),
                *self == *old(self),
                col < 7,
                -1 <= r <= 5,
                drop_row(self.board, col as int) == first_empty_from(
                    self.board,
                    col as int,
                    r as int,
                ),
                forall|r2: int|
                    (r as int) < r2 < 6 ==> #[trigger] slot_at(self.board, col as int, r2)
                        != EMPTY,
            decreases r + 1,
        {
            if self.board.get(col, r as u8) == EMPTY {
                proof {
                    assert(drop_row(self.board, col as int) == r as int);
                }
                let ghost b0 = self.board;
                let ghost me = self.current_player;
                let token = self.current_player.token();
                self.board.slots[(col as usize) * 6 + (r as usize)] = token;
                self.current_player = self.current_player.other();
                proof {
                    assert(self.board@ == b0@.update(
                        cell_index(col as int, r as int),
                        slot_of(me),
                    ));
                    lemma_add_token(b0, self.board, col as int, r as int, slot_of(me));
                }
                return Ok(());
            }
            r = r - 1;
        }
        Err(DropError::ColumnFull)
    }
}

/// Placing one token on an empty cell, whose supporting cell (when there is
/// one) is occupied, keeps the board well formed, raises that column's
/// height by one and the total count by one, and leaves the other columns'
/// heights unchanged.
proof fn lemma_add_token(b: Connect4Board, b2: Connect4Board, col: int, row: int, v: u8)
    requires
        wf_board(b),
        0 <= col < 7,
        0 <= row < 6,
        slot_at(b, col, row) == EMPTY,
        row < 5 ==> slot_at(b, col, row + 1) != EMPTY,
        v == RED || v == YELLOW,
        b2@ == b@.update(cell_index(col, row), v),
    ensures
        wf_board(b2),
        col_height(b2, col) == col_height(b, col) + 1,
        forall|c2: int|
            0 <= c2 < 7 && c2 != col ==> #[trigger] col_height(b2, c2) == col_height(b, c2),
        count_tokens(b2) == count_tokens(b) + 1,
{
    assert forall|c: int, r: int| 0 <= c < 7 && 0 <= r < 6 implies #[trigger] slot_at(b2, c, r)
        == (if c == col && r == row {
        v
    } else {
        slot_at(b, c, r)
    }) by {
        lemma_cell_index_injective(c, r, col, row);
    }
    assert(wf_board(b2)) by {
        assert forall|k: int| 0 <= k < 42 implies is_slot(#[trigger] b2@[k]) by {
            if k != cell_index(col, row) {
                assert(b2@[k] == b@[k]);
            }
        }
        assert forall|c: int, r: int|
            0 <= c < 7 && 0 <= r < 5 && #[trigger] slot_at(b2, c, r) != EMPTY implies slot_at(
            b2,
            c,
            r + 1,
        ) != EMPTY by {
            if !(c == col && r == row) {
                assert(slot_at(b, c, r) != EMPTY);
            }
        }
    }
    assert forall|c2: int, r2: int| 0 <= c2 < 7 && c2 != col && 0 <= r2 <= 6 implies col_count_from(
        b2,
        c2,
        r2,
    ) == col_count_from(b, c2, r2) by {
        lemma_col_count_same(b, b2, c2, r2);
    }
    lemma_col_count_bump(b, b2, col, row, 0);
    lemma_total_bump(b, b2, col, 0);
}

/// Distinct cells have distinct flat indices.
proof fn lemma_cell_index_injective(c1: int, r1: int, c2: int, r2: int)
    requires
        0 <= r1 < 6,
        0 <= r2 < 6,
    ensures
        cell_index(c1, r1) == cell_index(c2, r2) <==> (c1 == c2 && r1 == r2),
{
}

/// A column whose cells are untouched keeps its count.
proof fn lemma_col_count_same(b: Connect4Board, b2: Connect4Board, c: int, r: int)
    requires
        forall|r2: int| 0 <= r2 < 6 ==> slot_at(b2, c, r2) == #[trigger] slot_at(b, c, r2),
        0 <= r,
    ensures
        col_count_from(b2, c, r) == col_count_from(b, c, r),
    decreases 6 - r,
{
    if r < 6 {
        lemma_col_count_same(b, b2, c, r + 1);
    }
}

/// Filling one empty cell of a column raises the counts that include it
/// by one.
proof fn lemma_col_count_bump(b: Connect4Board, b2: Connect4Board, col: int, row: int, r: int)
    requires
        0 <= col < 7,
        0 <= row < 6,
        0 <= r <= row,
        slot_at(b, col, row) == EMPTY,
        slot_at(b2, col, row) != EMPTY,
        forall|r2: int|
            0 <= r2 < 6 && r2 != row ==> slot_at(b2, col, r2) == #[trigger] slot_at(b, col, r2),
    ensures
        col_count_from(b2, col, r) == col_count_from(b, col, r) + 1,
    decreases 6 - r,
{
    if r == row {
        lemma_col_count_same_above(b, b2, col, row, r + 1);
    } else {
        lemma_col_count_bump(b, b2, col, row, r + 1);
    }
}

/// Counts over rows past the changed one agree.
proof fn lemma_col_count_same_above(b: Connect4Board, b2: Connect4Board, col: int, row: int, r: int)
    requires
        row < r,
        forall|r2: int|
            0 <= r2 < 6 && r2 != row ==> slot_at(b2, col, r2) == #[trigger] slot_at(b, col, r2),
    ensures
        col_count_from(b2, col, r) == col_count_from(b, col, r),
    decreases 6 - r,
{
    if 0 <= r < 6 {
        lemma_col_count_same_above(b, b2, col, row, r + 1);
    }
}

/// Raising one column's height by one while the others keep theirs raises
/// the total by one.
proof fn lemma_total_bump(b: Connect4Board, b2: Connect4Board, col: int, c: int)
    requires
        0 <= col < 7,
        0 <= c <= col,
        col_height(b2, col) == col_height(b, col) + 1,
        forall|c2: int|
            0 <= c2 < 7 && c2 != col ==> #[trigger] col_height(b2, c2) == col_height(b, c2),
    ensures
        count_from_col(b2, c) == count_from_col(b, c) + 1,
    decreases 7 - c,
{
    if c == col {
        lemma_total_same(b, b2, col, c + 1);
    } else {
        lemma_total_bump(b, b2, col, c + 1);
    }
}

/// Totals over columns past the changed one agree.
proof fn lemma_total_same(b: Connect4Board, b2: Connect4Board, col: int, c: int)
    requires
        col < c,
        forall|c2: int|
            0 <= c2 < 7 && c2 != col ==> #[trigger] col_height(b2, c2) == col_height(b, c2),
    ensures
        count_from_col(b2, c) == count_from_col(b, c),
    decreases 7 - c,
{
    if 0 <= c < 7 {
        lemma_total_same(b, b2, col, c + 1);
    }
}

impl Default for Connect4 {
    /// A fresh game: all-empty board, red to move.
    fn default() -> (g: Connect4)
        ensures
            g.wf(),
            all_empty(g.board),
            count_tokens(g.board) == 0,
            g.current_player == Player::RED,
    {
        Connect4 { board: Connect4Board::default(), current_player: Player::RED }
    }
}

/// Gravity: in a well-formed board the next token dropped into column `c`
/// lands in row `ROWS - 1 - h`, where `h` is the number of tokens the
/// column already holds; in particular a column is full exactly when it
/// holds `ROWS` tokens, since the landing row is then `-1`.
pub proof fn lemma_gravity(b: Connect4Board, c: int)
    requires
        wf_board(b),
        0 <= c < 7,
    ensures
        drop_row(b, c) == 5 - col_height(b, c),
        full_col(b, c) <==> col_height(b, c) == 6,
{
    lemma_gravity_from(b, c, 5);
}

/// Scanning upward from row `r` of a gravity-respecting column whose rows
/// below `r` are all occupied: the first empty row found is the landing
/// row `5 - h` given by the column's height `h`.
proof fn lemma_gravity_from(b: Connect4Board, c: int, r: int)
    requires
        wf_board(b),
        0 <= c < 7,
        -1 <= r <= 5,
        forall|r2: int| r < r2 < 6 ==> #[trigger] slot_at(b, c, r2) != EMPTY,
    ensures
        first_empty_from(b, c, r) == 5 - col_count_from(b, c, 0),
    decreases r + 1,
{
    if r < 0 {
        lemma_col_count_all_full(b, c, 0);
    } else if slot_at(b, c, r) == EMPTY {
        lemma_empty_below(b, c, r);
        lemma_col_count_split(b, c, r);
    } else {
        lemma_gravity_from(b, c, r - 1);
    }
}

/// A column whose rows from `r` on are all occupied counts one token per
/// such row.
proof fn lemma_col_count_all_full(b: Connect4Board, c: int, r: int)
    requires
        0 <= r <= 6,
        forall|r2: int| r <= r2 < 6 ==> #[trigger] slot_at(b, c, r2) != EMPTY,
    ensures
        col_count_from(b, c, r) == 6 - r,
    decreases 6 - r,
{
    if r < 6 {
        lemma_col_count_all_full(b, c, r + 1);
    }
}

/// In a gravity-respecting column an empty cell has only empty cells
/// above it (at smaller row indices).
proof fn lemma_empty_below(b: Connect4Board, c: int, r: int)
    requires
        wf_board(b),
        0 <= c < 7,
        0 <= r < 6,
        slot_at(b, c, r) == EMPTY,
    ensures
        forall|r2: int| 0 <= r2 <= r ==> #[trigger] slot_at(b, c, r2) == EMPTY,
    decreases r,
{
    if r > 0 {
        assert(slot_at(b, c, r - 1) == EMPTY) by {
            if slot_at(b, c, r - 1) != EMPTY {
                assert(slot_at(b, c, r) != EMPTY);
            }
        }
        lemma_empty_below(b, c, r - 1);
    }
}

/// Splits a column count at an empty row `r` whose rows above are all
/// empty and whose rows below are all occupied.
proof fn lemma_col_count_split(b: Connect4Board, c: int, r: int)
    requires
        0 <= r < 6,
        forall|r2: int| 0 <= r2 <= r ==> #[trigger] slot_at(b, c, r2) == EMPTY,
        forall|r2: int| r < r2 < 6 ==> #[trigger] slot_at(b, c, r2) != EMPTY,
    ensures
        col_count_from(b, c, 0) == 5 - r,
    decreases r,
{
    lemma_col_count_all_full(b, c, r + 1);
    lemma_col_count_prefix_empty(b, c, 0, r);
}

/// A count started among empty rows equals the count started just past
/// them.
proof fn lemma_col_count_prefix_empty(b: Connect4Board, c: int, lo: int, r: int)
    requires
        0 <= lo <= r < 6,
        forall|r2: int| lo <= r2 <= r ==> #[trigger] slot_at(b, c, r2) == EMPTY,
    ensures
        col_count_from(b, c, lo) == col_count_from(b, c, r + 1),
    decreases r - lo,
{
    if lo < r {
        lemma_col_count_prefix_empty(b, c, lo + 1, r);
    }
}

} // verus!
