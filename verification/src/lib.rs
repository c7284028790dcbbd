//! Ultimate tic-tac-toe: game state, transition rule and move selection.

pub mod utils;

pub mod algorithms;
