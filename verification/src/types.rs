//! The marks, the board, and the rules that classify a position.

use vstd::prelude::*;

verus! {

/// One of the two marks. `X` always moves first.
#[derive(Debug, Clone, Copy, PartialEq, Eq, Structural)]
pub enum Player {
    X,
    O,
}

impl Player {
    /// The other mark.
    pub open spec fn other(self) -> Player {
        match self {
            Player::X => Player::O,
            Player::O => Player::X,
        }
    }

    /// The letter that stands for this mark.
    pub fn to_char(self) -> (c: char)
        ensures
            c == (if self == Player::X { 'X' } else { 'O' }),
    {
        match self {
            Player::X => 'X',
            Player::O => 'O',
        }
    }

    /// The player who moves after this one.
    pub fn next_player(self) -> (p: Player)
        ensures
            p == self.other(),
    {
        self.opposite()
    }

    /// The opposing mark.
    pub fn opposite(self) -> (p: Player)
        ensures
            p == self.other(),
    {
        match self {
            Player::X => Player::O,
            Player::O => Player::X,
        }
    }
}

/// The board as the caller holds it: three rows of three cells.
pub type Board = [[Option<Player>; 3]; 3];

/// The nine cells of a board in row-major order: cell `(r, c)` is entry `3 * r + c`.
pub open spec fn board_cells(board: Board) -> Seq<Option<Player>> {
    Seq::new(9, |i: int| board[i / 3][i % 3])
}

/// Whether `cell` holds `player`'s mark.
pub fn holds(cell: Option<Player>, player: Player) -> (b: bool)
    ensures
        b == (cell == Some(player)),
{
    match cell {
        Some(p) => p == player,
        None => false,
    }
}

/// A copy of `board` with `player`'s mark written at `(row, col)`.
pub fn with_mark(board: &Board, row: usize, col: usize, player: Player) -> (next: Board)
    requires
        row < 3,
        col < 3,
    ensures
        board_cells(next) == board_cells(*board).update(3 * row + col, Some(player)),
{
    let mut next = *board;
    next[row][col] = Some(player);
    next
}

/// The mark that fills all three cells `a`, `b`, `c`, if one does.
pub open spec fn line_owner(g: Seq<Option<Player>>, a: int, b: int, c: int) -> Option<Player> {
    if g[a] is Some && g[b] == g[a] && g[c] == g[a] {
        g[a]
    } else {
        None
    }
}

/// `first` if it names a mark, else `second`.
pub open spec fn or_else(first: Option<Player>, second: Option<Player>) -> Option<Player> {
    if first is Some {
        first
    } else {
        second
    }
}

/// The mark that fills row `r`, if one does.
pub open spec fn row_owner(g: Seq<Option<Player>>, r: int) -> Option<Player> {
    line_owner(g, 3 * r, 3 * r + 1, 3 * r + 2)
}

/// The mark that fills column `c`, if one does.
pub open spec fn column_owner(g: Seq<Option<Player>>, c: int) -> Option<Player> {
    line_owner(g, c, c + 3, c + 6)
}

/// The owner of the first fully owned row, top to bottom.
pub open spec fn row_winner(g: Seq<Option<Player>>) -> Option<Player> {
    or_else(row_owner(g, 0), or_else(row_owner(g, 1), row_owner(g, 2)))
}

/// The owner of the first fully owned column, left to right.
pub open spec fn column_winner(g: Seq<Option<Player>>) -> Option<Player> {
    or_else(column_owner(g, 0), or_else(column_owner(g, 1), column_owner(g, 2)))
}

/// The owner of a fully owned diagonal. Both diagonals pass through the
/// centre, so they cannot have different owners.
pub open spec fn diagonal_winner(g: Seq<Option<Player>>) -> Option<Player> {
    or_else(line_owner(g, 0, 4, 8), line_owner(g, 2, 4, 6))
}

/// The winner of a position: the owner of the first fully owned line, taking
/// rows first, then columns, then diagonals.
pub open spec fn winner(g: Seq<Option<Player>>) -> Option<Player> {
    or_else(row_winner(g), or_else(column_winner(g), diagonal_winner(g)))
}

/// Whether `p` fills at least one of the eight lines.
pub open spec fn owns_line(g: Seq<Option<Player>>, p: Player) -> bool {
    ||| row_owner(g, 0) == Some(p)
    ||| row_owner(g, 1) == Some(p)
    ||| row_owner(g, 2) == Some(p)
    ||| column_owner(g, 0) == Some(p)
    ||| column_owner(g, 1) == Some(p)
    ||| column_owner(g, 2) == Some(p)
    ||| line_owner(g, 0, 4, 8) == Some(p)
    ||| line_owner(g, 2, 4, 6) == Some(p)
}

/// Whether no cell is empty.
pub open spec fn is_full(g: Seq<Option<Player>>) -> bool {
    forall|i: int| 0 <= i < 9 ==> (#[trigger] g[i]) is Some
}

/// The outcome of a game, read off the board alone.
#[derive(Debug, Clone, Copy, PartialEq, Eq, Structural)]
pub enum GameResult {
    Win(Player),
    Draw,
    InProgress,
}

/// The outcome of a position: a win for the winner if there is one, else a
/// draw if the board is full, else still in progress.
pub open spec fn classify(g: Seq<Option<Player>>) -> GameResult {
    match winner(g) {
        Some(p) => GameResult::Win(p),
        None => if is_full(g) {
            GameResult::Draw
        } else {
            GameResult::InProgress
        },
    }
}

/// The mark that fully occupies a row, a column or a diagonal of `board`.
pub fn check_winner(board: &Board) -> (w: Option<Player>)
    ensures
        w == winner(board_cells(*board)),
{
    let ghost g = board_cells(*board);
    let mut row: usize = 0;
    while row < 3
        invariant
            row <= 3,
            g == board_cells(*board),
            forall|r: int| 0 <= r < row ==> (#[trigger] row_owner(g, r)) is None,
        decreases 3 - row,
    {
        if let Some(player) = board[row][0] {
            if holds(board[row][1], player) && holds(board[row][2], player) {
                assert(row_owner(g, row as int) == Some(player));
                return Some(player);
            }
        }
        row += 1;
    }
    assert(row_winner(g) is None);
    let mut col: usize = 0;
    while col < 3
        invariant
            col <= 3,
            g == board_cells(*board),
            row_winner(g) is None,
            forall|c: int| 0 <= c < col ==> (#[trigger] column_owner(g, c)) is None,
        decreases 3 - col,
    {
        if let Some(player) = board[0][col] {
            if holds(board[1][col], player) && holds(board[2][col], player) {
                assert(column_owner(g, col as int) == Some(player));
                return Some(player);
            }
        }
        col += 1;
    }
    assert(column_winner(g) is None);
    if let Some(player) = board[1][1] {
        if (holds(board[0][0], player) && holds(board[2][2], player)) || (holds(
            board[0][2],
            player,
        ) && holds(board[2][0], player)) {
            return Some(player);
        }
    }
    None
}

/// Whether every cell of `board` holds a mark.
pub fn is_board_full(board: &Board) -> (full: bool)
    ensures
        full == is_full(board_cells(*board)),
{
    let ghost g = board_cells(*board);
    let mut idx: usize = 0;
    while idx < 9
        invariant
            idx <= 9,
            g == board_cells(*board),
            forall|i: int| 0 <= i < idx ==> (#[trigger] g[i]) is Some,
        decreases 9 - idx,
    {
        if board[idx / 3][idx % 3].is_none() {
            assert(g[idx as int] is None);
            return false;
        }
        idx += 1;
    }
    true
}

/// The outcome of the game on `board`.
pub fn get_game_result(board: &Board) -> (result: GameResult)
    ensures
        result == classify(board_cells(*board)),
{
    if let Some(winner) = check_winner(board) {
        GameResult::Win(winner)
    } else if is_board_full(board) {
        GameResult::Draw
    } else {
        GameResult::InProgress
    }
}

impl Default for Player {
    /// `X`, who moves first.
    fn default() -> (p: Player)
        ensures
            p == Player::X,
    {
        Player::X
    }
}

/// What one cell of the board holds.
#[derive(Debug, Clone, Copy, PartialEq, Eq, Structural)]
pub enum CellState {
    Empty,
    Occupied(Player),
}

impl CellState {
    /// The same cell as the board stores it.
    pub open spec fn as_option(self) -> Option<Player> {
        match self {
            CellState::Empty => None,
            CellState::Occupied(p) => Some(p),
        }
    }

    /// The state of a cell that the board stores as `cell`.
    pub fn from_option(cell: Option<Player>) -> (state: CellState)
        ensures
            state.as_option() == cell,
    {
        match cell {
            None => CellState::Empty,
            Some(p) => CellState::Occupied(p),
        }
    }

    /// The cell as the board stores it.
    pub fn to_option(self) -> (cell: Option<Player>)
        ensures
            cell == self.as_option(),
    {
        match self {
            CellState::Empty => None,
            CellState::Occupied(p) => Some(p),
        }
    }
}

/// How strongly the automated opponent plays.
#[derive(Debug, Clone, Copy, PartialEq, Eq, Structural)]
pub enum Difficulty {
    Easy,
    Medium,
    Hard,
}

impl Default for Difficulty {
    fn default() -> (d: Difficulty)
        ensures
            d == Difficulty::Medium,
    {
        Difficulty::Medium
    }
}

/// Who sits on each side of the board.
#[derive(Debug, Clone, Copy, PartialEq, Eq, Structural)]
pub enum GameMode {
    HumanVsHuman,
    HumanVsAI,
    AIVsAI,
}

impl Default for GameMode {
    fn default() -> (m: GameMode)
        ensures
            m == GameMode::HumanVsAI,
    {
        GameMode::HumanVsAI
    }
}

/// When both players cannot own a line at once, the order in which the
/// lines are examined does not matter: the board is won by `p` exactly when
/// `p` owns a line, drawn exactly when it is full and nobody owns a line,
/// and in progress otherwise. In particular no board is both won and drawn.
pub proof fn lemma_classify_consistent(g: Seq<Option<Player>>)
    requires
        !(owns_line(g, Player::X) && owns_line(g, Player::O)),
    ensures
        forall|p: Player| #[trigger] owns_line(g, p) <==> classify(g) == GameResult::Win(p),
        classify(g) == GameResult::Draw <==> is_full(g) && !owns_line(g, Player::X) && !owns_line(
            g,
            Player::O,
        ),
        classify(g) == GameResult::InProgress <==> !is_full(g) && !owns_line(g, Player::X)
            && !owns_line(g, Player::O),
{
    assert forall|p: Player| #[trigger] owns_line(g, p) <==> classify(g) == GameResult::Win(p) by {
        assert(p == Player::X || p == Player::O);
    }
}

/// A board has a winner exactly when some player owns a line, and the
/// winner owns one.
pub proof fn lemma_winner_owns_line(g: Seq<Option<Player>>)
    ensures
        winner(g) is Some <==> owns_line(g, Player::X) || owns_line(g, Player::O),
        forall|p: Player| winner(g) == Some(p) ==> #[trigger] owns_line(g, p),
{
    match winner(g) {
        Some(p) => {
            assert(p == Player::X || p == Player::O);
            assert(owns_line(g, p));
        },
        None => {},
    }
}

} // verus!
