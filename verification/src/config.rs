//! The fixed parameters of the difficulty tiers.

use vstd::prelude::*;

verus! {

/// How many plies the easy tier looks ahead when it searches at all.
pub const EASY_AI_DEPTH: u32 = 1;

/// How many plies the medium tier looks ahead.
pub const MEDIUM_AI_DEPTH: u32 = 3;

/// How many plies the hard tier looks ahead: enough to reach the end of
/// every game.
pub const HARD_AI_DEPTH: u32 = 9;

/// Out of a hundred automated easy-tier moves, how many are picked at random
/// rather than searched for.
pub const EASY_AI_RANDOM_PERCENT: u32 = 80;

} // verus!
