//! What the search guarantees about the moves it picks, stated in terms of
//! forced wins.

use vstd::prelude::*;
use crate::ai_logic::BoardMove;
use crate::game_tree::{
    best_reply, child_value, empty_count, is_best_move, lemma_best_reply_optimum,
    lemma_empties_bounded, lemma_empties_positive, lemma_place_fills, lemma_value_bounds,
    move_value, place, value,
};
use crate::policy::{depth_for, follows_policy};
use crate::types::{is_full, winner, Difficulty, Player};

verus! {

/// Whether `who` can make sure of winning from `g`, with `to_move` to play,
/// within `plies` further plies: the position is already won by `who`, or
/// it is still open and `who` has a move that keeps the win in hand, or
/// every move of the opponent leaves it in hand.
pub open spec fn can_force_win(
    g: Seq<Option<Player>>,
    who: Player,
    to_move: Player,
    plies: nat,
) -> bool
    decreases plies,
{
    match winner(g) {
        Some(w) => w == who,
        None => if is_full(g) || plies == 0 {
            false
        } else if to_move == who {
            exists|i: int|
                0 <= i < 9 && (#[trigger] g[i]) is None && can_force_win(
                    place(g, i, to_move),
                    who,
                    to_move.other(),
                    (plies - 1) as nat,
                )
        } else {
            forall|i: int|
                0 <= i < 9 && (#[trigger] g[i]) is None ==> can_force_win(
                    place(g, i, to_move),
                    who,
                    to_move.other(),
                    (plies - 1) as nat,
                )
        },
    }
}

/// Whether `who` can make sure of winning from `g`, however long it takes.
pub open spec fn forces_win(g: Seq<Option<Player>>, who: Player, to_move: Player) -> bool {
    exists|plies: nat| can_force_win(g, who, to_move, plies)
}

/// The sign of a minimax value says who can force a win within the search
/// horizon: the value is positive exactly when the agent can, and negative
/// exactly when the opponent can.
pub proof fn lemma_value_sign(
    g: Seq<Option<Player>>,
    agent: Player,
    to_move: Player,
    depth: nat,
    max_depth: nat,
)
    requires
        g.len() == 9,
        depth + empty_count(g) <= 9,
        depth <= max_depth,
    ensures
        value(g, agent, to_move, depth, max_depth) > 0 <==> can_force_win(
            g,
            agent,
            to_move,
            (max_depth - depth) as nat,
        ),
        value(g, agent, to_move, depth, max_depth) < 0 <==> can_force_win(
            g,
            agent.other(),
            to_move,
            (max_depth - depth) as nat,
        ),
    decreases max_depth - depth,
{
    let plies = (max_depth - depth) as nat;
    if winner(g) is None && !is_full(g) && depth < max_depth {
        let rest = (plies - 1) as nat;
        let next = to_move.other();
        lemma_best_reply_optimum(g, agent, to_move, depth, max_depth, 9);
        assert forall|i: int| 0 <= i < 9 && (#[trigger] g[i]) is None implies (child_value(
            g,
            agent,
            to_move,
            depth,
            max_depth,
            i,
        ) > 0 <==> can_force_win(place(g, i, to_move), agent, next, rest)) && (child_value(
            g,
            agent,
            to_move,
            depth,
            max_depth,
            i,
        ) < 0 <==> can_force_win(place(g, i, to_move), agent.other(), next, rest)) by {
            lemma_place_fills(g, i, to_move, 9);
            lemma_value_sign(place(g, i, to_move), agent, next, depth + 1, max_depth);
        }
        let v = best_reply(g, agent, to_move, depth, max_depth, 9)->Some_0;
        let w = choose|i: int|
            0 <= i < 9 && (#[trigger] g[i]) is None && child_value(
                g,
                agent,
                to_move,
                depth,
                max_depth,
                i,
            ) == v;
        assert(g[w] is None);
    }
}

/// More plies never hurt: a win that can be forced within `few` plies can be
/// forced within `many`.
pub proof fn lemma_force_win_monotone(
    g: Seq<Option<Player>>,
    who: Player,
    to_move: Player,
    few: nat,
    many: nat,
)
    requires
        few <= many,
        can_force_win(g, who, to_move, few),
    ensures
        can_force_win(g, who, to_move, many),
    decreases few,
{
    if winner(g) is None {
        let next = to_move.other();
        if to_move == who {
            let i = choose|i: int|
                0 <= i < 9 && (#[trigger] g[i]) is None && can_force_win(
                    place(g, i, to_move),
                    who,
                    next,
                    (few - 1) as nat,
                );
            lemma_force_win_monotone(place(g, i, to_move), who, next, (few - 1) as nat, (many - 1) as nat);
            assert(g[i] is None);
        } else {
            assert forall|i: int| 0 <= i < 9 && (#[trigger] g[i]) is None implies can_force_win(
                place(g, i, to_move),
                who,
                next,
                (many - 1) as nat,
            ) by {
                lemma_force_win_monotone(
                    place(g, i, to_move),
                    who,
                    next,
                    (few - 1) as nat,
                    (many - 1) as nat,
                );
            }
        }
    }
}

/// No game outlasts its empty cells: a win that can be forced at all can be
/// forced within as many plies as the board has empty cells.
pub proof fn lemma_force_win_saturates(
    g: Seq<Option<Player>>,
    who: Player,
    to_move: Player,
    plies: nat,
)
    requires
        g.len() == 9,
        can_force_win(g, who, to_move, plies),
    ensures
        can_force_win(g, who, to_move, empty_count(g)),
    decreases plies,
{
    if winner(g) is None {
        let next = to_move.other();
        let rest = (plies - 1) as nat;
        let e = choose|i: int| 0 <= i < 9 && (#[trigger] g[i]) is None;
        assert(g[e] is None);
        lemma_empties_positive(g, 9, e);
        if to_move == who {
            let i = choose|i: int|
                0 <= i < 9 && (#[trigger] g[i]) is None && can_force_win(
                    place(g, i, to_move),
                    who,
                    next,
                    rest,
                );
            lemma_place_fills(g, i, to_move, 9);
            lemma_force_win_saturates(place(g, i, to_move), who, next, rest);
            assert(g[i] is None);
        } else {
            assert forall|i: int| 0 <= i < 9 && (#[trigger] g[i]) is None implies can_force_win(
                place(g, i, to_move),
                who,
                next,
                (empty_count(g) - 1) as nat,
            ) by {
                lemma_place_fills(g, i, to_move, 9);
                lemma_force_win_saturates(place(g, i, to_move), who, next, rest);
            }
        }
    }
}

/// A mark completes lines only for the player who places it: on a board
/// that nobody has won, a new mark of `p` leaves the board unwon or won by `p`.
pub proof fn lemma_mark_wins_only_for_its_player(g: Seq<Option<Player>>, i: int, p: Player)
    requires
        g.len() == 9,
        0 <= i < 9,
        g[i] is None,
        winner(g) is None,
    ensures
        winner(place(g, i, p)) is None || winner(place(g, i, p)) == Some(p),
{
}

/// A won board stays won by the same player when the loser adds a mark that
/// completes no line.
pub proof fn lemma_win_survives_a_losing_mark(
    g: Seq<Option<Player>>,
    i: int,
    c: int,
    p: Player,
)
    requires
        g.len() == 9,
        0 <= i < 9,
        0 <= c < 9,
        i != c,
        g[i] is None,
        g[c] is None,
        winner(g) is None,
        winner(place(g, i, p)) is None,
        winner(place(g, c, p.other())) == Some(p.other()),
    ensures
        winner(place(place(g, i, p), c, p.other())) == Some(p.other()),
{
    let h = place(g, i, p);
    lemma_mark_wins_only_for_its_player(h, c, p.other());
    assert(place(h, c, p.other()) =~= place(place(g, c, p.other()), i, p));
}

/// The move into cell `i` is worth the top score exactly when it wins on the spot.
pub proof fn lemma_top_score_is_immediate_win(
    g: Seq<Option<Player>>,
    agent: Player,
    max_depth: nat,
    i: int,
)
    requires
        g.len() == 9,
        0 <= i < 9,
        g[i] is None,
    ensures
        move_value(g, agent, i, max_depth) <= 9,
        move_value(g, agent, i, max_depth) == 9 <==> winner(place(g, i, agent)) == Some(agent),
{
    let h = place(g, i, agent);
    let next = agent.other();
    lemma_empties_bounded(g, 9);
    lemma_place_fills(g, i, agent, 9);
    lemma_value_bounds(h, agent, next, 1, max_depth);
    if winner(h) is None && !is_full(h) && 1 < max_depth {
        lemma_best_reply_optimum(h, agent, next, 1, max_depth, 9);
        let v = best_reply(h, agent, next, 1, max_depth, 9)->Some_0;
        let w = choose|j: int|
            0 <= j < 9 && (#[trigger] h[j]) is None && child_value(h, agent, next, 1, max_depth, j)
                == v;
        lemma_place_fills(h, w, next, 9);
        lemma_value_bounds(place(h, w, next), agent, agent, 2, max_depth);
    }
}

/// If the agent has a move that wins on the spot, the move that the search
/// picks wins on the spot, whatever the search depth.
pub proof fn lemma_search_takes_immediate_win(
    g: Seq<Option<Player>>,
    agent: Player,
    max_depth: nat,
    m: int,
)
    requires
        g.len() == 9,
        is_best_move(g, agent, max_depth, m),
        exists|i: int|
            0 <= i < 9 && (#[trigger] g[i]) is None && winner(place(g, i, agent)) == Some(agent),
    ensures
        winner(place(g, m, agent)) == Some(agent),
{
    let i = choose|i: int|
        0 <= i < 9 && (#[trigger] g[i]) is None && winner(place(g, i, agent)) == Some(agent);
    lemma_top_score_is_immediate_win(g, agent, max_depth, i);
    lemma_top_score_is_immediate_win(g, agent, max_depth, m);
    assert(g[i] is None);
}

/// If the opponent threatens to win at cell `c` on the next move, the agent
/// cannot win on the spot, and the opponent cannot force a win within the
/// search horizon once `c` is blocked, then a search of two plies or more
/// picks `c`.
pub proof fn lemma_search_blocks_within_horizon(
    g: Seq<Option<Player>>,
    agent: Player,
    max_depth: nat,
    c: int,
    m: int,
)
    requires
        g.len() == 9,
        max_depth >= 2,
        winner(g) is None,
        is_best_move(g, agent, max_depth, m),
        0 <= c < 9,
        g[c] is None,
        winner(place(g, c, agent.other())) == Some(agent.other()),
        forall|i: int|
            0 <= i < 9 && (#[trigger] g[i]) is None ==> winner(place(g, i, agent)) != Some(agent),
        !can_force_win(place(g, c, agent), agent.other(), agent.other(), (max_depth - 1) as nat),
    ensures
        m == c,
{
    let opp = agent.other();
    lemma_empties_bounded(g, 9);
    lemma_place_fills(g, c, agent, 9);
    lemma_value_sign(place(g, c, agent), agent, opp, 1, max_depth);
    assert(move_value(g, agent, c, max_depth) >= 0);
    if m != c {
        let h = place(g, m, agent);
        lemma_mark_wins_only_for_its_player(g, m, agent);
        assert(winner(h) is None);
        assert(h[c] is None);
        lemma_win_survives_a_losing_mark(g, m, c, agent);
        lemma_best_reply_optimum(h, agent, opp, 1, max_depth, 9);
        assert(child_value(h, agent, opp, 1, max_depth, c) == -8);
        assert(move_value(g, agent, m, max_depth) <= -8);
        assert(g[c] is None);
    }
}

/// If the opponent threatens to win at cell `c` on the next move, the agent
/// cannot win on the spot, and blocking `c` does not hand the opponent a
/// forced win, then a search of two plies or more picks `c`.
pub proof fn lemma_search_blocks_threat(
    g: Seq<Option<Player>>,
    agent: Player,
    max_depth: nat,
    c: int,
    m: int,
)
    requires
        g.len() == 9,
        max_depth >= 2,
        winner(g) is None,
        is_best_move(g, agent, max_depth, m),
        0 <= c < 9,
        g[c] is None,
        winner(place(g, c, agent.other())) == Some(agent.other()),
        forall|i: int|
            0 <= i < 9 && (#[trigger] g[i]) is None ==> winner(place(g, i, agent)) != Some(agent),
        !forces_win(place(g, c, agent), agent.other(), agent.other()),
    ensures
        m == c,
{
    lemma_search_blocks_within_horizon(g, agent, max_depth, c, m);
}

/// A search to the end of the game never hands the opponent a forced win
/// while a move that does not is on the board.
pub proof fn lemma_full_search_avoids_forced_loss(
    g: Seq<Option<Player>>,
    agent: Player,
    m: int,
)
    requires
        g.len() == 9,
        is_best_move(g, agent, 9, m),
        exists|i: int|
            0 <= i < 9 && (#[trigger] g[i]) is None && !forces_win(
                place(g, i, agent),
                agent.other(),
                agent.other(),
            ),
    ensures
        !forces_win(place(g, m, agent), agent.other(), agent.other()),
{
    let opp = agent.other();
    let i = choose|i: int|
        0 <= i < 9 && (#[trigger] g[i]) is None && !forces_win(place(g, i, agent), opp, opp);
    lemma_empties_bounded(g, 9);
    lemma_place_fills(g, i, agent, 9);
    lemma_place_fills(g, m, agent, 9);
    lemma_value_sign(place(g, i, agent), agent, opp, 1, 9);
    lemma_value_sign(place(g, m, agent), agent, opp, 1, 9);
    assert(!can_force_win(place(g, i, agent), opp, opp, 8));
    assert(g[i] is None);
    assert(!can_force_win(place(g, m, agent), opp, opp, 8));
    if forces_win(place(g, m, agent), opp, opp) {
        let h = place(g, m, agent);
        let k = choose|k: nat| can_force_win(h, opp, opp, k);
        lemma_force_win_saturates(h, opp, opp, k);
        lemma_force_win_monotone(h, opp, opp, empty_count(h), 8);
    }
}

/// The hard tier never hands the opponent a forced win while a move that
/// does not is on the board.
pub proof fn lemma_hard_tier_avoids_forced_loss(
    g: Seq<Option<Player>>,
    player: Player,
    before: u64,
    after: u64,
    choice: Option<BoardMove>,
)
    requires
        g.len() == 9,
        follows_policy(g, player, Difficulty::Hard, before, after, choice),
        exists|i: int|
            0 <= i < 9 && (#[trigger] g[i]) is None && !forces_win(
                place(g, i, player),
                player.other(),
                player.other(),
            ),
    ensures
        choice matches Some(m) && !forces_win(
            place(g, m.index(), player),
            player.other(),
            player.other(),
        ),
{
    let i = choose|i: int|
        0 <= i < 9 && (#[trigger] g[i]) is None && !forces_win(
            place(g, i, player),
            player.other(),
            player.other(),
        );
    assert(g[i] is None);
    lemma_full_search_avoids_forced_loss(g, player, choice->Some_0.index());
}

/// The medium and the hard tier block a threat: if the opponent threatens
/// to win at cell `c` on the next move, the player cannot win on the spot,
/// and blocking `c` does not hand the opponent a forced win, then the move
/// chosen is `c`.
pub proof fn lemma_searching_tiers_block_threat(
    g: Seq<Option<Player>>,
    player: Player,
    difficulty: Difficulty,
    before: u64,
    after: u64,
    choice: Option<BoardMove>,
    c: int,
)
    requires
        g.len() == 9,
        difficulty != Difficulty::Easy,
        follows_policy(g, player, difficulty, before, after, choice),
        winner(g) is None,
        0 <= c < 9,
        g[c] is None,
        winner(place(g, c, player.other())) == Some(player.other()),
        forall|i: int|
            0 <= i < 9 && (#[trigger] g[i]) is None ==> winner(place(g, i, player)) != Some(player),
        !forces_win(place(g, c, player), player.other(), player.other()),
    ensures
        choice matches Some(m) && m.index() == c,
{
    lemma_search_blocks_threat(g, player, depth_for(difficulty) as nat, c, choice->Some_0.index());
}

/// The medium and the hard tier take a win that is there for the taking.
pub proof fn lemma_searching_tiers_take_immediate_win(
    g: Seq<Option<Player>>,
    player: Player,
    difficulty: Difficulty,
    before: u64,
    after: u64,
    choice: Option<BoardMove>,
)
    requires
        g.len() == 9,
        difficulty != Difficulty::Easy,
        follows_policy(g, player, difficulty, before, after, choice),
        exists|i: int|
            0 <= i < 9 && (#[trigger] g[i]) is None && winner(place(g, i, player)) == Some(player),
    ensures
        choice matches Some(m) && winner(place(g, m.index(), player)) == Some(player),
{
    let i = choose|i: int|
        0 <= i < 9 && (#[trigger] g[i]) is None && winner(place(g, i, player)) == Some(player);
    assert(g[i] is None);
    lemma_search_takes_immediate_win(
        g,
        player,
        depth_for(difficulty) as nat,
        choice->Some_0.index(),
    );
}

} // verus!
