//! Move search: depth-limited minimax with alpha-beta pruning.

use vstd::prelude::*;
use crate::config::HARD_AI_DEPTH;
use crate::game_tree::{
    agrees_within, empty_count, empty_indices, is_best_move, lemma_empties_bounded,
    lemma_place_fills, lemma_pruning_is_sound, lemma_value_bounds, move_value, place,
    pruned_scan, pruned_value, value,
};
use crate::types::{
    board_cells, check_winner, is_board_full, is_full, winner, with_mark, Board, Player,
};

verus! {

/// A move: the row and the column of the cell to mark.
#[derive(Debug, Clone, Copy, PartialEq, Eq, Structural)]
pub struct BoardMove {
    pub row: usize,
    pub col: usize,
}

impl BoardMove {
    /// Whether the move names a cell of the board.
    pub open spec fn on_board(self) -> bool {
        self.row < 3 && self.col < 3
    }

    /// The row-major index of the cell.
    pub open spec fn index(self) -> int {
        3 * self.row + self.col
    }

    /// The move to `(row, col)`, if that is a cell of the board.
    pub fn new(row: usize, col: usize) -> (m: Option<Self>)
        ensures
            m == (if row < 3 && col < 3 {
                Some(BoardMove { row, col })
            } else {
                None
            }),
    {
        if row < 3 && col < 3 {
            Some(BoardMove { row, col })
        } else {
            None
        }
    }
}

/// The minimax score of `board` for `agent`, with `to_move` to play, `depth`
/// plies below the root of a search that stops `max_depth` plies below it.
/// A win for `agent` scores `10 - depth`, a win for the opponent
/// `depth - 10`, a draw and a position at the horizon 0.
///
/// The search prunes: it stops looking at a position's moves once `beta <=
/// alpha`. What it returns is the position's value when that lies strictly
/// between `alpha` and `beta`, and otherwise a bound on the value on the
/// value's side of the window.
///
/// `depth` counts plies already played, so the board must hold at least
/// as many marks, and the window must be open on entry.
pub fn minimax(
    board: &Board,
    agent: Player,
    to_move: Player,
    depth: u32,
    max_depth: u32,
    alpha: i32,
    beta: i32,
) -> (score: i32)
    requires
        alpha < beta,
        depth + empty_count(board_cells(*board)) <= 9,
    ensures
        score == pruned_value(
            board_cells(*board),
            agent,
            to_move,
            depth as nat,
            max_depth as nat,
            alpha as int,
            beta as int,
        ),
        agrees_within(
            value(board_cells(*board), agent, to_move, depth as nat, max_depth as nat),
            score as int,
            alpha as int,
            beta as int,
        ),
    decreases max_depth - depth,
{
    let ghost g = board_cells(*board);
    proof {
        lemma_pruning_is_sound(
            g,
            agent,
            to_move,
            depth as nat,
            max_depth as nat,
            alpha as int,
            beta as int,
        );
    }
    if let Some(w) = check_winner(board) {
        return if w == agent {
            10 - depth as i32
        } else {
            depth as i32 - 10
        };
    }
    if is_board_full(board) {
        return 0;
    }
    if depth >= max_depth {
        return 0;
    }
    let next = to_move.opposite();
    if to_move == agent {
        let mut best: i32 = i32::MIN;
        let mut low: i32 = alpha;
        let mut idx: usize = 0;
        while idx < 9 && low < beta
            invariant
                idx <= 9,
                g == board_cells(*board),
                g.len() == 9,
                depth < max_depth,
                depth + empty_count(g) <= 9,
                to_move == agent,
                next == to_move.other(),
                pruned_scan(
                    g,
                    agent,
                    to_move,
                    depth as nat,
                    max_depth as nat,
                    low as int,
                    beta as int,
                    idx as nat,
                    best as int,
                ) == pruned_value(
                    g,
                    agent,
                    to_move,
                    depth as nat,
                    max_depth as nat,
                    alpha as int,
                    beta as int,
                ),
            decreases 9 - idx,
        {
            let row = idx / 3;
            let col = idx % 3;
            if board[row][col].is_none() {
                let child = with_mark(board, row, col, to_move);
                proof {
                    assert(g[idx as int] is None);
                    lemma_place_fills(g, idx as int, to_move, 9);
                }
                let eval = minimax(&child, agent, next, depth + 1, max_depth, low, beta);
                if eval > best {
                    best = eval;
                }
                if eval > low {
                    low = eval;
                }
            } else {
                assert(g[idx as int] is Some);
            }
            idx += 1;
        }
        best
    } else {
        let mut best: i32 = i32::MAX;
        let mut high: i32 = beta;
        let mut idx: usize = 0;
        while idx < 9 && alpha < high
            invariant
                idx <= 9,
                g == board_cells(*board),
                g.len() == 9,
                depth < max_depth,
                depth + empty_count(g) <= 9,
                to_move != agent,
                next == to_move.other(),
                pruned_scan(
                    g,
                    agent,
                    to_move,
                    depth as nat,
                    max_depth as nat,
                    alpha as int,
                    high as int,
                    idx as nat,
                    best as int,
                ) == pruned_value(
                    g,
                    agent,
                    to_move,
                    depth as nat,
                    max_depth as nat,
                    alpha as int,
                    beta as int,
                ),
            decreases 9 - idx,
        {
            let row = idx / 3;
            let col = idx % 3;
            if board[row][col].is_none() {
                let child = with_mark(board, row, col, to_move);
                proof {
                    assert(g[idx as int] is None);
                    lemma_place_fills(g, idx as int, to_move, 9);
                }
                let eval = minimax(&child, agent, next, depth + 1, max_depth, alpha, high);
                if eval < best {
                    best = eval;
                }
                if eval < high {
                    high = eval;
                }
            } else {
                assert(g[idx as int] is Some);
            }
            idx += 1;
        }
        best
    }
}

/// The move that a search to `max_depth` plies picks for `player` on
/// `board`: the first move, in row-major order, whose minimax value no other
/// move exceeds. `None` if the board has no empty cell.
///
/// The values compared are those of the full game tree down to `max_depth`:
/// pruning inside the search does not change which move comes out.
pub fn best_move(board: &Board, player: Player, max_depth: u32) -> (best: Option<BoardMove>)
    ensures
        match best {
            None => is_full(board_cells(*board)),
            Some(m) => m.on_board() && is_best_move(
                board_cells(*board),
                player,
                max_depth as nat,
                m.index(),
            ),
        },
{
    let ghost g = board_cells(*board);
    let opponent = player.opposite();
    let mut best_score: i32 = i32::MIN;
    let mut best: Option<BoardMove> = None;
    let mut idx: usize = 0;
    while idx < 9
        invariant
            idx <= 9,
            g == board_cells(*board),
            g.len() == 9,
            opponent == player.other(),
            match best {
                None => best_score == i32::MIN && forall|j: int|
                    0 <= j < idx ==> (#[trigger] g[j]) is Some,
                Some(m) => {
                    &&& m.on_board()
                    &&& m.index() < idx
                    &&& g[m.index()] is None
                    &&& best_score == move_value(g, player, m.index(), max_depth as nat)
                    &&& forall|j: int|
                        0 <= j < idx && (#[trigger] g[j]) is None ==> move_value(
                            g,
                            player,
                            j,
                            max_depth as nat,
                        ) <= best_score
                    &&& forall|j: int|
                        0 <= j < m.index() && (#[trigger] g[j]) is None ==> move_value(
                            g,
                            player,
                            j,
                            max_depth as nat,
                        ) < best_score
                },
            },
        decreases 9 - idx,
    {
        let row = idx / 3;
        let col = idx % 3;
        if board[row][col].is_none() {
            let child = with_mark(board, row, col, player);
            proof {
                assert(g[idx as int] is None);
                lemma_empties_bounded(g, 9);
                lemma_place_fills(g, idx as int, player, 9);
                lemma_value_bounds(place(g, idx as int, player), player, opponent, 1, max_depth as nat);
            }
            let score = minimax(&child, player, opponent, 1, max_depth, i32::MIN, i32::MAX);
            assert(score == move_value(g, player, idx as int, max_depth as nat));
            if score > best_score {
                best_score = score;
                best = Some(BoardMove { row, col });
            }
        } else {
            assert(g[idx as int] is Some);
        }
        idx += 1;
    }
    best
}

/// The move that an exhaustive search picks for `player` on `board`, as
/// `(row, col)`: the first move, in row-major order, with the highest
/// minimax value. `None` if the board has no empty cell.
pub fn get_best_move(board: &Board, player: Player) -> (best: Option<(usize, usize)>)
    ensures
        match best {
            None => is_full(board_cells(*board)),
            Some((row, col)) => row < 3 && col < 3 && is_best_move(
                board_cells(*board),
                player,
                HARD_AI_DEPTH as nat,
                3 * row + col,
            ),
        },
{
    match best_move(board, player, HARD_AI_DEPTH) {
        Some(m) => Some((m.row, m.col)),
        None => None,
    }
}

/// The empty cells of `board`, in row-major order.
pub fn find_empty_cells(board: &Board) -> (cells: Vec<BoardMove>)
    ensures
        cells@.len() == empty_indices(board_cells(*board), 9).len(),
        forall|k: int|
            0 <= k < cells@.len() ==> (#[trigger] cells@[k]).on_board() && cells@[k].index()
                == empty_indices(board_cells(*board), 9)[k],
{
    let ghost g = board_cells(*board);
    let mut cells: Vec<BoardMove> = Vec::new();
    let mut idx: usize = 0;
    while idx < 9
        invariant
            idx <= 9,
            g == board_cells(*board),
            cells@.len() == empty_indices(g, idx as nat).len(),
            forall|k: int|
                0 <= k < cells@.len() ==> (#[trigger] cells@[k]).on_board() && cells@[k].index()
                    == empty_indices(g, idx as nat)[k],
        decreases 9 - idx,
    {
        let row = idx / 3;
        let col = idx % 3;
        if board[row][col].is_none() {
            assert(g[idx as int] is None);
            cells.push(BoardMove { row, col });
        }
        idx += 1;
    }
    cells
}

/// The winner on `board`, if the game has one.
pub fn get_game_result(board: &Board) -> (w: Option<Player>)
    ensures
        w == winner(board_cells(*board)),
{
    check_winner(board)
}

} // verus!
