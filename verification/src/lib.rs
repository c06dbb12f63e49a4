//! A verified engine for the 3x3 marking game: board rules, terminal
//! detection, and minimax search with alpha-beta pruning.

pub mod ai_logic;
pub mod config;
pub mod events;
pub mod game_tree;
pub mod policy;
pub mod random;
pub mod resources;
pub mod strategy;
pub mod types;
