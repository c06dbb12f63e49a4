//! How each difficulty tier turns a position into a move.

use vstd::prelude::*;
use crate::ai_logic::{best_move, find_empty_cells, BoardMove};
use crate::config::{EASY_AI_DEPTH, EASY_AI_RANDOM_PERCENT, HARD_AI_DEPTH, MEDIUM_AI_DEPTH};
use crate::game_tree::{
    empty_indices, is_best_move, lemma_empties_bounded, lemma_empties_positive,
    lemma_empty_indices_listed, lemma_full_prefix_counts_zero,
};
use crate::random::{draw, step, SeededRng};
use crate::types::{board_cells, is_full, Board, Difficulty, Player};

verus! {

/// How many plies each tier searches.
pub open spec fn depth_for(difficulty: Difficulty) -> u32 {
    match difficulty {
        Difficulty::Easy => EASY_AI_DEPTH,
        Difficulty::Medium => MEDIUM_AI_DEPTH,
        Difficulty::Hard => HARD_AI_DEPTH,
    }
}

/// How many moves out of a hundred each tier picks at random.
pub open spec fn random_percent_for(difficulty: Difficulty) -> u32 {
    match difficulty {
        Difficulty::Easy => EASY_AI_RANDOM_PERCENT,
        Difficulty::Medium => 0,
        Difficulty::Hard => 0,
    }
}

/// How many plies `difficulty` searches.
pub fn search_depth(difficulty: Difficulty) -> (depth: u32)
    ensures
        depth == depth_for(difficulty),
{
    match difficulty {
        Difficulty::Easy => EASY_AI_DEPTH,
        Difficulty::Medium => MEDIUM_AI_DEPTH,
        Difficulty::Hard => HARD_AI_DEPTH,
    }
}

/// How many moves out of a hundred `difficulty` picks at random.
pub fn random_percent(difficulty: Difficulty) -> (percent: u32)
    ensures
        percent == random_percent_for(difficulty),
{
    match difficulty {
        Difficulty::Easy => EASY_AI_RANDOM_PERCENT,
        Difficulty::Medium => 0,
        Difficulty::Hard => 0,
    }
}

/// The move into the cell with row-major index `i`.
pub open spec fn move_at(i: int) -> BoardMove {
    BoardMove { row: (i / 3) as usize, col: (i % 3) as usize }
}

/// Whether `result` is what a search to `depth` plies returns for `player`
/// on `g`: nothing on a full board, else the best move.
pub open spec fn searched_move(
    g: Seq<Option<Player>>,
    player: Player,
    depth: nat,
    result: Option<BoardMove>,
) -> bool {
    match result {
        None => is_full(g),
        Some(m) => m.on_board() && is_best_move(g, player, depth, m.index()),
    }
}

/// The empty cell that a generator in `state` picks on `g`: the one whose
/// rank among the empty cells, in row-major order, is the number drawn.
/// Nothing on a full board.
pub open spec fn random_pick(g: Seq<Option<Player>>, state: u64) -> Option<BoardMove> {
    let empty = empty_indices(g, 9);
    if empty.len() == 0 {
        None
    } else {
        Some(move_at(empty[draw(state, empty.len() as u32) as int]))
    }
}

/// The state in which picking a random cell on `g` leaves a generator that
/// was in `state`: it draws once, unless the board is full.
pub open spec fn state_after_pick(g: Seq<Option<Player>>, state: u64) -> u64 {
    if empty_indices(g, 9).len() == 0 {
        state
    } else {
        step(state)
    }
}

/// Whether `result` and the generator state `after` are what the policy of
/// `difficulty` yields for `player` on `g` with a generator in state
/// `before`.
///
/// The easy tier draws a number below 100. If it is below the tier's random
/// percentage, the move is a random empty cell; otherwise it is the result
/// of a search of the tier's depth. The other tiers search to their depth
/// and leave the generator alone.
pub open spec fn follows_policy(
    g: Seq<Option<Player>>,
    player: Player,
    difficulty: Difficulty,
    before: u64,
    after: u64,
    result: Option<BoardMove>,
) -> bool {
    if random_percent_for(difficulty) == 0 {
        after == before && searched_move(g, player, depth_for(difficulty) as nat, result)
    } else if draw(before, 100) < random_percent_for(difficulty) {
        result == random_pick(g, step(before)) && after == state_after_pick(g, step(before))
    } else {
        after == step(before) && searched_move(g, player, depth_for(difficulty) as nat, result)
    }
}

/// The first empty cell of `board` in row-major order, if there is one.
pub fn first_empty_cell(board: &Board) -> (cell: Option<BoardMove>)
    ensures
        match cell {
            None => is_full(board_cells(*board)),
            Some(m) => {
                &&& m.on_board()
                &&& board_cells(*board)[m.index()] is None
                &&& forall|j: int| 0 <= j < m.index() ==> (#[trigger] board_cells(*board)[j]) is Some
            },
        },
{
    let ghost g = board_cells(*board);
    let mut idx: usize = 0;
    while idx < 9
        invariant
            idx <= 9,
            g == board_cells(*board),
            forall|j: int| 0 <= j < idx ==> (#[trigger] g[j]) is Some,
        decreases 9 - idx,
    {
        let row = idx / 3;
        let col = idx % 3;
        if board[row][col].is_none() {
            assert(g[idx as int] is None);
            return Some(BoardMove { row, col });
        }
        assert(g[idx as int] is Some);
        idx += 1;
    }
    None
}

/// An empty cell of `board` picked by `rng`, if the board has one. The
/// generator is advanced once, or not at all when the board is full.
pub fn random_empty_cell(board: &Board, rng: &mut SeededRng) -> (cell: Option<BoardMove>)
    ensures
        cell == random_pick(board_cells(*board), old(rng).state),
        final(rng).state == state_after_pick(board_cells(*board), old(rng).state),
{
    let ghost g = board_cells(*board);
    let cells = find_empty_cells(board);
    proof {
        lemma_empty_indices_listed(g, 9);
        lemma_empties_bounded(g, 9);
    }
    if cells.len() == 0 {
        return None;
    }
    let pick = rng.next_below(cells.len() as u32) as usize;
    let chosen = cells[pick];
    assert(chosen == move_at(empty_indices(g, 9)[pick as int]));
    Some(chosen)
}

/// The move that the policy of `difficulty` makes for `player` on `board`.
/// `None` exactly when the board is full.
pub fn choose_move(
    board: &Board,
    player: Player,
    difficulty: Difficulty,
    rng: &mut SeededRng,
) -> (choice: Option<BoardMove>)
    ensures
        follows_policy(
            board_cells(*board),
            player,
            difficulty,
            old(rng).state,
            final(rng).state,
            choice,
        ),
        choice is None <==> is_full(board_cells(*board)),
        choice matches Some(m) ==> m.on_board() && board_cells(*board)[m.index()] is None,
{
    let ghost g = board_cells(*board);
    proof {
        lemma_empty_indices_listed(g, 9);
        if is_full(g) {
            lemma_full_prefix_counts_zero(g, 9);
        } else {
            let e = choose|i: int| 0 <= i < 9 && (#[trigger] g[i]) is None;
            lemma_empties_positive(g, 9, e);
        }
    }
    let percent = random_percent(difficulty);
    if percent > 0 {
        let roll = rng.next_below(100);
        if roll < percent {
            let cell = random_empty_cell(board, rng);
            proof {
                if cell matches Some(m) {
                    let e = empty_indices(g, 9);
                    let k = draw(step(old(rng).state), e.len() as u32) as int;
                    assert(0 <= e[k] < 9 && g[e[k]] is None);
                }
            }
            return cell;
        }
    }
    match best_move(board, player, search_depth(difficulty)) {
        Some(m) => Some(m),
        None => if percent > 0 {
            random_empty_cell(board, rng)
        } else {
            first_empty_cell(board)
        },
    }
}

} // verus!
