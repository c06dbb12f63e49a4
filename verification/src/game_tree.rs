//! The game tree as mathematics: what a position is worth to a player under
//! depth-limited minimax, which move is best, and what a search that prunes
//! reports in place of a value.

use vstd::prelude::*;
use crate::types::{is_full, winner, Player};

verus! {

/// The position reached from `g` when `p` marks cell `i`.
pub open spec fn place(g: Seq<Option<Player>>, i: int, p: Player) -> Seq<Option<Player>> {
    g.update(i, Some(p))
}

/// How many of the first `n` cells are empty.
pub open spec fn empties_below(g: Seq<Option<Player>>, n: nat) -> nat
    decreases n,
{
    if n == 0 {
        0
    } else {
        empties_below(g, (n - 1) as nat) + if g[n - 1] is None {
            1nat
        } else {
            0nat
        }
    }
}

/// How many of the nine cells are empty.
pub open spec fn empty_count(g: Seq<Option<Player>>) -> nat {
    empties_below(g, 9)
}

/// The score of a position that `w` has won, seen by `agent` after `depth`
/// plies: quick wins and slow losses score higher.
pub open spec fn terminal_score(w: Player, agent: Player, depth: nat) -> int {
    if w == agent {
        10 - depth
    } else {
        depth - 10
    }
}

/// The better of two scores for the player to move: the larger one when the
/// agent moves, the smaller one when the opponent does.
pub open spec fn better(maximizing: bool, a: int, b: int) -> int {
    if maximizing {
        if a >= b {
            a
        } else {
            b
        }
    } else {
        if a <= b {
            a
        } else {
            b
        }
    }
}

/// The minimax value of `g` for `agent`, with `to_move` to play, reached
/// after `depth` plies of a search that looks no further than `max_depth`
/// plies. A decided position has its terminal score, a full board and a
/// position at the horizon have 0, and any other position has the best of
/// its children's values for the player to move.
pub open spec fn value(
    g: Seq<Option<Player>>,
    agent: Player,
    to_move: Player,
    depth: nat,
    max_depth: nat,
) -> int
    decreases max_depth - depth, 10nat,
{
    match winner(g) {
        Some(w) => terminal_score(w, agent, depth),
        None => if is_full(g) || depth >= max_depth {
            0
        } else {
            match best_reply(g, agent, to_move, depth, max_depth, 9) {
                Some(v) => v,
                None => 0,
            }
        },
    }
}

/// The value of the child of `g` in which `to_move` marks cell `i`.
pub open spec fn child_value(
    g: Seq<Option<Player>>,
    agent: Player,
    to_move: Player,
    depth: nat,
    max_depth: nat,
    i: int,
) -> int
    decreases max_depth - depth, 0nat,
{
    if depth < max_depth {
        value(place(g, i, to_move), agent, to_move.other(), depth + 1, max_depth)
    } else {
        0
    }
}

/// The best child value for the player to move among the moves into the
/// first `n` cells, or `None` if none of those cells is empty.
pub open spec fn best_reply(
    g: Seq<Option<Player>>,
    agent: Player,
    to_move: Player,
    depth: nat,
    max_depth: nat,
    n: nat,
) -> Option<int>
    decreases max_depth - depth, n,
{
    if n == 0 || n > 9 {
        None
    } else {
        let rest = best_reply(g, agent, to_move, depth, max_depth, (n - 1) as nat);
        if g[n - 1] is Some {
            rest
        } else {
            let v = child_value(g, agent, to_move, depth, max_depth, n - 1);
            match rest {
                None => Some(v),
                Some(r) => Some(better(to_move == agent, r, v)),
            }
        }
    }
}

/// What the move into cell `i` is worth to `agent`, who makes it: the value
/// of the position it leads to, one ply down, with the opponent to move.
pub open spec fn move_value(g: Seq<Option<Player>>, agent: Player, i: int, max_depth: nat) -> int {
    value(place(g, i, agent), agent, agent.other(), 1, max_depth)
}

/// Whether `m` is the move that a search to `max_depth` plies settles on:
/// a move into an empty cell that no other move beats, and the first such
/// move in row-major order.
pub open spec fn is_best_move(g: Seq<Option<Player>>, agent: Player, max_depth: nat, m: int) -> bool {
    &&& 0 <= m < 9
    &&& g[m] is None
    &&& forall|j: int|
        0 <= j < 9 && (#[trigger] g[j]) is None ==> move_value(g, agent, j, max_depth) <= move_value(
            g,
            agent,
            m,
            max_depth,
        )
    &&& forall|j: int|
        0 <= j < m && (#[trigger] g[j]) is None ==> move_value(g, agent, j, max_depth) < move_value(
            g,
            agent,
            m,
            max_depth,
        )
}

/// What a search with the window `(alpha, beta)` may report for a position
/// whose value is `v`: the value itself if it lies inside the window, and
/// otherwise a bound on it that lies on the same side of the window.
pub open spec fn agrees_within(v: int, score: int, alpha: int, beta: int) -> bool {
    &&& score <= alpha ==> v <= score
    &&& score >= beta ==> v >= score
    &&& alpha < score < beta ==> v == score
}

/// The score that a search with pruning reports for `g` when it is entered
/// with the window `(alpha, beta)`. It differs from [`value`] only in that
/// the moves of a position are looked at in row-major order and no further
/// once the window has closed.
pub open spec fn pruned_value(
    g: Seq<Option<Player>>,
    agent: Player,
    to_move: Player,
    depth: nat,
    max_depth: nat,
    alpha: int,
    beta: int,
) -> int
    decreases max_depth - depth, 10nat,
{
    match winner(g) {
        Some(w) => terminal_score(w, agent, depth),
        None => if is_full(g) || depth >= max_depth {
            0
        } else {
            pruned_scan(
                g,
                agent,
                to_move,
                depth,
                max_depth,
                alpha,
                beta,
                0,
                if to_move == agent {
                    i32::MIN as int
                } else {
                    i32::MAX as int
                },
            )
        },
    }
}

/// What the pruning search reports for `g` once it has looked at the moves
/// into the first `idx` cells, has `best` as the best score so far, and has
/// narrowed the window to `(alpha, beta)`.
pub open spec fn pruned_scan(
    g: Seq<Option<Player>>,
    agent: Player,
    to_move: Player,
    depth: nat,
    max_depth: nat,
    alpha: int,
    beta: int,
    idx: nat,
    best: int,
) -> int
    decreases max_depth - depth, 9 - idx,
{
    if idx >= 9 || beta <= alpha || depth >= max_depth {
        best
    } else if g[idx as int] is Some {
        pruned_scan(g, agent, to_move, depth, max_depth, alpha, beta, idx + 1, best)
    } else {
        let score = pruned_value(
            place(g, idx as int, to_move),
            agent,
            to_move.other(),
            depth + 1,
            max_depth,
            alpha,
            beta,
        );
        if to_move == agent {
            pruned_scan(
                g,
                agent,
                to_move,
                depth,
                max_depth,
                better(true, alpha, score),
                beta,
                idx + 1,
                better(true, best, score),
            )
        } else {
            pruned_scan(
                g,
                agent,
                to_move,
                depth,
                max_depth,
                alpha,
                better(false, beta, score),
                idx + 1,
                better(false, best, score),
            )
        }
    }
}

/// The indices of the empty cells among the first `n`, in increasing order.
pub open spec fn empty_indices(g: Seq<Option<Player>>, n: nat) -> Seq<int>
    decreases n,
{
    if n == 0 {
        Seq::empty()
    } else if g[n - 1] is None {
        empty_indices(g, (n - 1) as nat).push(n - 1)
    } else {
        empty_indices(g, (n - 1) as nat)
    }
}

/// At most `n` of the first `n` cells are empty.
pub proof fn lemma_empties_bounded(g: Seq<Option<Player>>, n: nat)
    ensures
        empties_below(g, n) <= n,
    decreases n,
{
    if n > 0 {
        lemma_empties_bounded(g, (n - 1) as nat);
    }
}

/// A prefix with an empty cell in it counts at least one.
pub proof fn lemma_empties_positive(g: Seq<Option<Player>>, n: nat, i: int)
    requires
        0 <= i < n,
        g[i] is None,
    ensures
        empties_below(g, n) >= 1,
    decreases n,
{
    if i < n - 1 {
        lemma_empties_positive(g, (n - 1) as nat, i);
    }
}

/// Marking an empty cell lowers the count of every prefix that holds it by one
/// and leaves the others alone.
pub proof fn lemma_place_fills(g: Seq<Option<Player>>, i: int, p: Player, n: nat)
    requires
        g.len() == 9,
        0 <= i < 9,
        g[i] is None,
        n <= 9,
    ensures
        empties_below(place(g, i, p), n) + (if i < n { 1nat } else { 0nat }) == empties_below(g, n),
    decreases n,
{
    if n > 0 {
        lemma_place_fills(g, i, p, (n - 1) as nat);
    }
}

/// `empty_indices` lists what `empties_below` counts: as many cells as the
/// prefix has empty ones, each of them empty and inside the prefix, in
/// increasing order.
pub proof fn lemma_empty_indices_listed(g: Seq<Option<Player>>, n: nat)
    ensures
        empty_indices(g, n).len() == empties_below(g, n),
        forall|k: int|
            0 <= k < empty_indices(g, n).len() ==> 0 <= (#[trigger] empty_indices(g, n)[k]) < n
                && g[empty_indices(g, n)[k]] is None,
        forall|j: int, k: int|
            0 <= j < k < empty_indices(g, n).len() ==> (#[trigger] empty_indices(g, n)[j]) < (
            #[trigger] empty_indices(g, n)[k]),
    decreases n,
{
    if n > 0 {
        lemma_empty_indices_listed(g, (n - 1) as nat);
    }
}

/// A prefix without an empty cell counts none.
pub proof fn lemma_full_prefix_counts_zero(g: Seq<Option<Player>>, n: nat)
    requires
        forall|i: int| 0 <= i < n ==> (#[trigger] g[i]) is Some,
    ensures
        empties_below(g, n) == 0,
    decreases n,
{
    if n > 0 {
        lemma_full_prefix_counts_zero(g, (n - 1) as nat);
    }
}

/// A position has at most one best move.
pub proof fn lemma_best_move_unique(
    g: Seq<Option<Player>>,
    agent: Player,
    max_depth: nat,
    a: int,
    b: int,
)
    requires
        is_best_move(g, agent, max_depth, a),
        is_best_move(g, agent, max_depth, b),
    ensures
        a == b,
{
}

/// `best_reply` is the optimum it is named for: it is `None` exactly when
/// the prefix has no empty cell, and otherwise it is the value of some move
/// into the prefix that no other move into the prefix beats.
pub proof fn lemma_best_reply_optimum(
    g: Seq<Option<Player>>,
    agent: Player,
    to_move: Player,
    depth: nat,
    max_depth: nat,
    n: nat,
)
    requires
        n <= 9,
    ensures
        match best_reply(g, agent, to_move, depth, max_depth, n) {
            None => forall|i: int| 0 <= i < n ==> (#[trigger] g[i]) is Some,
            Some(v) => {
                &&& exists|i: int|
                    0 <= i < n && (#[trigger] g[i]) is None && child_value(
                        g,
                        agent,
                        to_move,
                        depth,
                        max_depth,
                        i,
                    ) == v
                &&& forall|i: int|
                    0 <= i < n && (#[trigger] g[i]) is None ==> better(
                        to_move == agent,
                        v,
                        child_value(g, agent, to_move, depth, max_depth, i),
                    ) == v
            },
        },
    decreases n,
{
    if n > 0 {
        lemma_best_reply_optimum(g, agent, to_move, depth, max_depth, (n - 1) as nat);
        let rest = best_reply(g, agent, to_move, depth, max_depth, (n - 1) as nat);
        if g[n - 1] is None {
            let v = child_value(g, agent, to_move, depth, max_depth, n - 1);
            match rest {
                None => {
                    assert(g[n - 1] is None && child_value(g, agent, to_move, depth, max_depth, n - 1) == v);
                },
                Some(r) => {
                    let w = choose|i: int|
                        0 <= i < n - 1 && (#[trigger] g[i]) is None && child_value(
                            g,
                            agent,
                            to_move,
                            depth,
                            max_depth,
                            i,
                        ) == r;
                    let b = better(to_move == agent, r, v);
                    if b == r {
                        assert(g[w] is None);
                    } else {
                        assert(g[n - 1] is None);
                    }
                },
            }
        }
    }
}

/// A value lies between the scores of the quickest loss and the quickest win
/// still possible at its depth.
pub proof fn lemma_value_bounds(
    g: Seq<Option<Player>>,
    agent: Player,
    to_move: Player,
    depth: nat,
    max_depth: nat,
)
    requires
        g.len() == 9,
        depth + empty_count(g) <= 9,
    ensures
        depth - 10 <= value(g, agent, to_move, depth, max_depth) <= 10 - depth,
    decreases max_depth - depth,
{
    if winner(g) is None && !is_full(g) && depth < max_depth {
        lemma_best_reply_optimum(g, agent, to_move, depth, max_depth, 9);
        match best_reply(g, agent, to_move, depth, max_depth, 9) {
            None => {},
            Some(v) => {
                let i = choose|i: int|
                    0 <= i < 9 && (#[trigger] g[i]) is None && child_value(
                        g,
                        agent,
                        to_move,
                        depth,
                        max_depth,
                        i,
                    ) == v;
                lemma_place_fills(g, i, to_move, 9);
                lemma_value_bounds(place(g, i, to_move), agent, to_move.other(), depth + 1, max_depth);
            },
        }
    }
}

/// What holds of a pruning search in the middle of a position's moves: the
/// side of the window that the player to move can still raise or lower is
/// where the best score has pushed it, and the best score so far stands to
/// the best reply among the moves looked at as a search result stands to a
/// value.
pub open spec fn scan_state(
    g: Seq<Option<Player>>,
    agent: Player,
    to_move: Player,
    depth: nat,
    max_depth: nat,
    alpha: int,
    beta: int,
    low: int,
    high: int,
    idx: nat,
    best: int,
) -> bool {
    let maximizing = to_move == agent;
    &&& low == (if maximizing {
        better(true, alpha, best)
    } else {
        alpha
    })
    &&& high == (if maximizing {
        beta
    } else {
        better(false, beta, best)
    })
    &&& match best_reply(g, agent, to_move, depth, max_depth, idx) {
        None => best == (if maximizing {
            i32::MIN as int
        } else {
            i32::MAX as int
        }),
        Some(v) => agrees_within(v, best, alpha, beta) && -10 <= best <= 10,
    }
}

/// Pruning is sound: what the pruning search reports for a position agrees
/// with the position's value within the window that the search was entered
/// with. The report is a score of the game, between -10 and 10.
pub proof fn lemma_pruning_is_sound(
    g: Seq<Option<Player>>,
    agent: Player,
    to_move: Player,
    depth: nat,
    max_depth: nat,
    alpha: int,
    beta: int,
)
    requires
        g.len() == 9,
        depth + empty_count(g) <= 9,
        i32::MIN <= alpha < beta <= i32::MAX,
    ensures
        agrees_within(
            value(g, agent, to_move, depth, max_depth),
            pruned_value(g, agent, to_move, depth, max_depth, alpha, beta),
            alpha,
            beta,
        ),
        -10 <= pruned_value(g, agent, to_move, depth, max_depth, alpha, beta) <= 10,
    decreases max_depth - depth, 10nat,
{
    if winner(g) is None && !is_full(g) && depth < max_depth {
        let start = if to_move == agent {
            i32::MIN as int
        } else {
            i32::MAX as int
        };
        lemma_scan_is_sound(g, agent, to_move, depth, max_depth, alpha, beta, alpha, beta, 0, start);
    }
}

/// A pruning search that is in a sound state in the middle of a position's
/// moves ends with a report that agrees with the best reply among all of
/// them.
pub proof fn lemma_scan_is_sound(
    g: Seq<Option<Player>>,
    agent: Player,
    to_move: Player,
    depth: nat,
    max_depth: nat,
    alpha: int,
    beta: int,
    low: int,
    high: int,
    idx: nat,
    best: int,
)
    requires
        g.len() == 9,
        depth + empty_count(g) <= 9,
        depth < max_depth,
        !is_full(g),
        i32::MIN <= alpha < beta <= i32::MAX,
        idx <= 9,
        scan_state(g, agent, to_move, depth, max_depth, alpha, beta, low, high, idx, best),
    ensures
        best_reply(g, agent, to_move, depth, max_depth, 9) matches Some(v) && agrees_within(
            v,
            pruned_scan(g, agent, to_move, depth, max_depth, low, high, idx, best),
            alpha,
            beta,
        ),
        -10 <= pruned_scan(g, agent, to_move, depth, max_depth, low, high, idx, best) <= 10,
    decreases max_depth - depth, 9 - idx,
{
    let e = choose|i: int| 0 <= i < 9 && (#[trigger] g[i]) is None;
    assert(g[e] is None);
    lemma_best_reply_optimum(g, agent, to_move, depth, max_depth, 9);
    lemma_best_reply_optimum(g, agent, to_move, depth, max_depth, idx);
    if idx < 9 && low < high {
        if g[idx as int] is Some {
            lemma_scan_is_sound(g, agent, to_move, depth, max_depth, alpha, beta, low, high, idx + 1, best);
        } else {
            lemma_place_fills(g, idx as int, to_move, 9);
            lemma_pruning_is_sound(
                place(g, idx as int, to_move),
                agent,
                to_move.other(),
                depth + 1,
                max_depth,
                low,
                high,
            );
            let score = pruned_value(
                place(g, idx as int, to_move),
                agent,
                to_move.other(),
                depth + 1,
                max_depth,
                low,
                high,
            );
            if to_move == agent {
                lemma_scan_is_sound(
                    g,
                    agent,
                    to_move,
                    depth,
                    max_depth,
                    alpha,
                    beta,
                    better(true, low, score),
                    high,
                    idx + 1,
                    better(true, best, score),
                );
            } else {
                lemma_scan_is_sound(
                    g,
                    agent,
                    to_move,
                    depth,
                    max_depth,
                    alpha,
                    beta,
                    low,
                    better(false, high, score),
                    idx + 1,
                    better(false, best, score),
                );
            }
        }
    }
}

/// With the window wide open, the pruning search reports the value itself.
pub proof fn lemma_open_window_is_exact(
    g: Seq<Option<Player>>,
    agent: Player,
    to_move: Player,
    depth: nat,
    max_depth: nat,
)
    requires
        g.len() == 9,
        depth + empty_count(g) <= 9,
    ensures
        pruned_value(g, agent, to_move, depth, max_depth, i32::MIN as int, i32::MAX as int)
            == value(g, agent, to_move, depth, max_depth),
{
    lemma_pruning_is_sound(g, agent, to_move, depth, max_depth, i32::MIN as int, i32::MAX as int);
    lemma_value_bounds(g, agent, to_move, depth, max_depth);
}

} // verus!
