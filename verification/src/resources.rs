//! The state of a game in play and the tallies kept across games.

use vstd::prelude::*;
use crate::ai_logic::BoardMove;
use crate::game_tree::place;
use crate::policy::{choose_move, follows_policy};
use crate::random::SeededRng;
use crate::types::{
    board_cells, classify, get_game_result, is_full, lemma_classify_consistent,
    lemma_winner_owns_line, owns_line, winner,
    with_mark, Board, CellState, Difficulty, GameMode, GameResult, Player,
};

verus! {

/// Why a move was turned down.
#[derive(Debug, Clone, Copy, PartialEq, Eq, Structural)]
pub enum MoveError {
    /// The row or the column is not on the board.
    OutOfBounds,
    /// The game has ended.
    GameOver,
    /// It is the other player's turn.
    WrongTurn,
    /// The cell already holds a mark.
    CellOccupied,
}

/// How many of the first `n` cells hold `p`'s mark.
pub open spec fn marks_below(g: Seq<Option<Player>>, p: Player, n: nat) -> nat
    decreases n,
{
    if n == 0 {
        0
    } else {
        marks_below(g, p, (n - 1) as nat) + if g[n - 1] == Some(p) {
            1nat
        } else {
            0nat
        }
    }
}

/// The board on which nobody has moved.
pub open spec fn empty_cells() -> Seq<Option<Player>> {
    Seq::new(9, |i: int| None)
}

/// What holds of every position that play can reach, with `turn` to move
/// next: the players have alternated, `X` first, and at most one of them
/// owns a line.
pub open spec fn legal_position(g: Seq<Option<Player>>, turn: Player) -> bool {
    &&& g.len() == 9
    &&& marks_below(g, Player::X, 9) == marks_below(g, Player::O, 9) + (if turn == Player::O {
        1nat
    } else {
        0nat
    })
    &&& !(owns_line(g, Player::X) && owns_line(g, Player::O))
}

/// Why the move of `mark` to `(row, col)` is turned down on `g` with `turn`
/// to move, or `None` if it is accepted. The first reason that applies is
/// given: off the board, game over, wrong turn, cell occupied.
pub open spec fn rejection(
    g: Seq<Option<Player>>,
    turn: Player,
    row: usize,
    col: usize,
    mark: Player,
) -> Option<MoveError> {
    if row >= 3 || col >= 3 {
        Some(MoveError::OutOfBounds)
    } else if classify(g) != GameResult::InProgress {
        Some(MoveError::GameOver)
    } else if mark != turn {
        Some(MoveError::WrongTurn)
    } else if g[3 * row + col] is Some {
        Some(MoveError::CellOccupied)
    } else {
        None
    }
}

/// Marking an empty cell adds one to the count of the marking player in
/// every prefix that holds the cell, and changes no other count.
pub proof fn lemma_place_counts(g: Seq<Option<Player>>, i: int, p: Player, q: Player, n: nat)
    requires
        g.len() == 9,
        0 <= i < 9,
        g[i] is None,
        n <= 9,
    ensures
        marks_below(place(g, i, p), q, n) == marks_below(g, q, n) + (if q == p && i < n {
            1nat
        } else {
            0nat
        }),
    decreases n,
{
    if n > 0 {
        lemma_place_counts(g, i, p, q, (n - 1) as nat);
    }
}

/// The empty board holds no mark.
pub proof fn lemma_empty_board_counts(p: Player, n: nat)
    requires
        n <= 9,
    ensures
        marks_below(empty_cells(), p, n) == 0,
    decreases n,
{
    if n > 0 {
        lemma_empty_board_counts(p, (n - 1) as nat);
    }
}

/// The empty board has nine empty cells and is in progress.
pub proof fn lemma_empty_board_is_open()
    ensures
        empty_cells().len() == 9,
        forall|i: int| 0 <= i < 9 ==> (#[trigger] empty_cells()[i]) is None,
        classify(empty_cells()) == GameResult::InProgress,
        legal_position(empty_cells(), Player::X),
{
    assert(empty_cells()[0] is None);
    lemma_empty_board_counts(Player::X, 9);
    lemma_empty_board_counts(Player::O, 9);
}

/// A game in play: the board, whose turn it is, and the outcome so far.
/// Moves go through [`BoardState::submit_move`], which keeps the three in
/// step.
pub struct BoardState {
    board: Board,
    current_player: Player,
    outcome: GameResult,
}

impl BoardState {
    /// The nine cells of the board in row-major order.
    pub closed spec fn cells(&self) -> Seq<Option<Player>> {
        board_cells(self.board)
    }

    /// The player to move next.
    pub closed spec fn turn(&self) -> Player {
        self.current_player
    }

    /// The stored outcome is that of the board, and the position is one
    /// that play can reach.
    pub closed spec fn wf(&self) -> bool {
        &&& self.outcome == classify(board_cells(self.board))
        &&& legal_position(board_cells(self.board), self.current_player)
    }

    /// The outcome of the game so far.
    pub open spec fn outcome_spec(&self) -> GameResult {
        classify(self.cells())
    }

    /// Whether the game has ended.
    pub open spec fn is_over(&self) -> bool {
        classify(self.cells()) != GameResult::InProgress
    }

    /// A well-formed game is in a legal position.
    pub proof fn lemma_wf_is_legal(&self)
        requires
            self.wf(),
        ensures
            legal_position(self.cells(), self.turn()),
    {
    }

    /// The outcome of a game in play is never in doubt: the game is won by
    /// `p` exactly when `p` owns a line, and drawn exactly when the board
    /// is full and nobody owns one. It is never both.
    pub proof fn lemma_outcome_is_consistent(&self)
        requires
            self.wf(),
        ensures
            forall|p: Player|
                self.outcome_spec() == GameResult::Win(p) <==> #[trigger] owns_line(self.cells(), p),
            self.outcome_spec() == GameResult::Draw <==> is_full(self.cells()) && !owns_line(
                self.cells(),
                Player::X,
            ) && !owns_line(self.cells(), Player::O),
            !(owns_line(self.cells(), Player::X) && owns_line(self.cells(), Player::O)),
    {
        lemma_classify_consistent(self.cells());
    }

    /// A new game: an empty board, with `X` to move.
    pub fn new() -> (state: BoardState)
        ensures
            state.wf(),
            state.cells() == empty_cells(),
            state.turn() == Player::X,
            state.outcome_spec() == GameResult::InProgress,
    {
        let board: Board = [[None, None, None], [None, None, None], [None, None, None]];
        proof {
            assert(board_cells(board) =~= empty_cells());
            lemma_empty_board_is_open();
        }
        BoardState { board, current_player: Player::X, outcome: GameResult::InProgress }
    }

    /// Places `mark` at `(row, col)` if the move is legal, and returns the
    /// outcome of the game after it.
    ///
    /// A move is turned down, and the game left exactly as it was, if the
    /// cell is off the board, the game is over, it is not `mark`'s turn, or
    /// the cell is taken; the first of these that applies is the error.
    /// An accepted move marks the cell and passes the turn to the other
    /// player.
    pub fn submit_move(&mut self, row: usize, col: usize, mark: Player) -> (result: Result<
        GameResult,
        MoveError,
    >)
        requires
            old(self).wf(),
        ensures
            final(self).wf(),
            match rejection(old(self).cells(), old(self).turn(), row, col, mark) {
                Some(e) => result == Err::<GameResult, MoveError>(e) && *final(self) == *old(self),
                None => {
                    &&& final(self).cells() == place(old(self).cells(), 3 * row + col, mark)
                    &&& final(self).turn() == mark.other()
                    &&& result == Ok::<GameResult, MoveError>(final(self).outcome_spec())
                },
            },
    {
        if row >= 3 || col >= 3 {
            return Err(MoveError::OutOfBounds);
        }
        if self.outcome != GameResult::InProgress {
            return Err(MoveError::GameOver);
        }
        if mark != self.current_player {
            return Err(MoveError::WrongTurn);
        }
        if self.board[row][col].is_some() {
            return Err(MoveError::CellOccupied);
        }
        let ghost g = board_cells(self.board);
        let board = with_mark(&self.board, row, col, mark);
        let outcome = get_game_result(&board);
        proof {
            let i = 3 * row + col;
            assert(g[i] is None);
            lemma_place_counts(g, i, mark, Player::X, 9);
            lemma_place_counts(g, i, mark, Player::O, 9);
            lemma_winner_owns_line(g);
            assert(!owns_line(place(g, i, mark), mark.other()));
        }
        self.board = board;
        self.current_player = mark.opposite();
        self.outcome = outcome;
        Ok(outcome)
    }

    /// The move that the automated player of strength `difficulty` makes
    /// for the player whose turn it is. The game itself is not changed: the
    /// move takes effect when it is handed to [`BoardState::submit_move`],
    /// which accepts it.
    ///
    /// Once the game is over there is no move, and `rng` is left alone.
    pub fn request_automated_move(&self, difficulty: Difficulty, rng: &mut SeededRng) -> (choice:
        Option<BoardMove>)
        requires
            self.wf(),
        ensures
            choice is None <==> self.is_over(),
            self.is_over() ==> final(rng).state == old(rng).state,
            !self.is_over() ==> follows_policy(
                self.cells(),
                self.turn(),
                difficulty,
                old(rng).state,
                final(rng).state,
                choice,
            ),
            choice matches Some(m) ==> rejection(self.cells(), self.turn(), m.row, m.col, self.turn())
                is None,
    {
        if self.outcome != GameResult::InProgress {
            return None;
        }
        choose_move(&self.board, self.current_player, difficulty, rng)
    }

    /// Starts a new game: clears the board and gives the turn to `X`.
    pub fn reset(&mut self)
        ensures
            final(self).wf(),
            final(self).cells() == empty_cells(),
            final(self).turn() == Player::X,
            final(self).outcome_spec() == GameResult::InProgress,
    {
        *self = BoardState::new();
    }

    /// A copy of the board.
    pub fn get_board_snapshot(&self) -> (board: Board)
        ensures
            board_cells(board) == self.cells(),
    {
        self.board
    }

    /// The outcome of the game so far.
    pub fn get_outcome(&self) -> (outcome: GameResult)
        requires
            self.wf(),
        ensures
            outcome == self.outcome_spec(),
    {
        self.outcome
    }

    /// The player to move next.
    pub fn current_player(&self) -> (player: Player)
        ensures
            player == self.turn(),
    {
        self.current_player
    }

    /// Whether the game has ended.
    pub fn game_over(&self) -> (over: bool)
        requires
            self.wf(),
        ensures
            over == self.is_over(),
    {
        self.outcome != GameResult::InProgress
    }

    /// The winner, if the game has one.
    pub fn winner(&self) -> (w: Option<Player>)
        requires
            self.wf(),
        ensures
            w == winner(self.cells()),
    {
        match self.outcome {
            GameResult::Win(p) => Some(p),
            GameResult::Draw => None,
            GameResult::InProgress => None,
        }
    }

    /// What the cell at `(row, col)` holds, or `None` if it is off the board.
    pub fn cell(&self, row: usize, col: usize) -> (state: Option<CellState>)
        ensures
            match state {
                None => row >= 3 || col >= 3,
                Some(s) => row < 3 && col < 3 && s.as_option() == self.cells()[3 * row + col],
            },
    {
        if row < 3 && col < 3 {
            Some(CellState::from_option(self.board[row][col]))
        } else {
            None
        }
    }

    /// Whether the game is waiting for `player` to move.
    pub fn awaits_move_from(&self, player: Player) -> (waiting: bool)
        requires
            self.wf(),
        ensures
            waiting == (!self.is_over() && self.turn() == player),
    {
        self.outcome == GameResult::InProgress && self.current_player == player
    }
}

impl Default for BoardState {
    fn default() -> (state: BoardState)
        ensures
            state.wf(),
            state.cells() == empty_cells(),
            state.turn() == Player::X,
    {
        BoardState::new()
    }
}

/// The mode that the running game is played in.
pub struct CurrentGameMode(pub GameMode);

/// The strength of the automated player in the running game.
pub struct CurrentAIDifficulty(pub Difficulty);

/// Tallies of finished games.
#[derive(Debug, Clone, Copy, PartialEq, Eq, Structural)]
pub struct GameStats {
    pub x_wins: u32,
    pub o_wins: u32,
    pub draws: u32,
    pub total_games: u32,
}

impl GameStats {
    /// Every game counted was won by `X`, won by `O`, or drawn.
    pub open spec fn wf(&self) -> bool {
        self.total_games == self.x_wins + self.o_wins + self.draws
    }

    /// The tallies after one more game that `winner` won, or that was drawn
    /// if there is no winner.
    pub open spec fn with_game(self, winner: Option<Player>) -> GameStats {
        GameStats {
            x_wins: if winner == Some(Player::X) {
                (self.x_wins + 1) as u32
            } else {
                self.x_wins
            },
            o_wins: if winner == Some(Player::O) {
                (self.o_wins + 1) as u32
            } else {
                self.o_wins
            },
            draws: if winner is None {
                (self.draws + 1) as u32
            } else {
                self.draws
            },
            total_games: (self.total_games + 1) as u32,
        }
    }

    /// Counts one more finished game.
    pub fn record(&mut self, winner: Option<Player>)
        requires
            old(self).wf(),
            old(self).total_games < u32::MAX,
        ensures
            final(self).wf(),
            *final(self) == old(self).with_game(winner),
    {
        match winner {
            Some(Player::X) => {
                self.x_wins += 1;
            },
            Some(Player::O) => {
                self.o_wins += 1;
            },
            None => {
                self.draws += 1;
            },
        }
        self.total_games += 1;
    }
}

impl Default for GameStats {
    fn default() -> (stats: GameStats)
        ensures
            stats.wf(),
            stats == (GameStats { x_wins: 0, o_wins: 0, draws: 0, total_games: 0 }),
    {
        GameStats { x_wins: 0, o_wins: 0, draws: 0, total_games: 0 }
    }
}

} // verus!
