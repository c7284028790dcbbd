//! The flat board snapshot that hosts exchange with the engine.
//!
//! A host describes a position as a nine-by-nine grid of cells, whose turn it
//! is, and which subboard may be played in. These types carry that snapshot;
//! `BoardState::from_raw` turns it into the engine's own state.

use vstd::prelude::*;

verus! {

/// A whole position as a host hands it over. `board[s][c]` is cell `c` of
/// subboard `s`, both in row-major order.
#[derive(Debug)]
pub struct RawBoardState {
    pub board: [[RawPiece; 9]; 9],
    pub turn: RawTurn,
    pub active_subboard: RawActiveSubBoard,
}

/// A move as a host receives it.
#[derive(Debug)]
pub struct RawMove {
    pub subboard: RawPlace,
    pub square: RawPlace,
}

/// Which subboard the player to move may place into: all of them, or one.
#[derive(Debug, Clone, Copy, PartialEq, Eq, Structural)]
pub enum RawActiveSubBoard {
    All,
    TopLeft,
    TopMid,
    TopRight,
    MidLeft,
    MidMid,
    MidRight,
    BotLeft,
    BotMid,
    BotRight,
}

/// One of the nine positions of a three-by-three grid, in row-major order.
#[derive(Debug, Clone, Copy, PartialEq, Eq, Structural)]
pub enum RawPlace {
    TopLeft,
    TopMid,
    TopRight,
    MidLeft,
    MidMid,
    MidRight,
    BotLeft,
    BotMid,
    BotRight,
}

/// What a cell of the snapshot holds.
#[derive(Debug, Clone, Copy, PartialEq, Eq, Structural)]
pub enum RawPiece {
    Cross,
    Empty,
    Dot,
}

/// Whose turn it is in the snapshot.
#[derive(Debug, Clone, Copy, PartialEq, Eq, Structural)]
pub enum RawTurn {
    Cross,
    Dot,
}

impl RawPlace {
    /// The row-major index of this position, from 0 to 8.
    pub open spec fn index(self) -> int {
        match self {
            RawPlace::TopLeft => 0,
            RawPlace::TopMid => 1,
            RawPlace::TopRight => 2,
            RawPlace::MidLeft => 3,
            RawPlace::MidMid => 4,
            RawPlace::MidRight => 5,
            RawPlace::BotLeft => 6,
            RawPlace::BotMid => 7,
            RawPlace::BotRight => 8,
        }
    }
}

impl RawActiveSubBoard {
    /// The number that stands for this selector: -1 for all subboards, and
    /// otherwise the row-major index of the one subboard.
    pub open spec fn number(self) -> int {
        match self {
            RawActiveSubBoard::All => -1,
            RawActiveSubBoard::TopLeft => 0,
            RawActiveSubBoard::TopMid => 1,
            RawActiveSubBoard::TopRight => 2,
            RawActiveSubBoard::MidLeft => 3,
            RawActiveSubBoard::MidMid => 4,
            RawActiveSubBoard::MidRight => 5,
            RawActiveSubBoard::BotLeft => 6,
            RawActiveSubBoard::BotMid => 7,
            RawActiveSubBoard::BotRight => 8,
        }
    }

    /// Whether the selector lets the player place into the subboard with the
    /// given row-major index.
    pub open spec fn admits(self, subboard_index: int) -> bool {
        match self {
            RawActiveSubBoard::All => true,
            RawActiveSubBoard::TopLeft => subboard_index == 0,
            RawActiveSubBoard::TopMid => subboard_index == 1,
            RawActiveSubBoard::TopRight => subboard_index == 2,
            RawActiveSubBoard::MidLeft => subboard_index == 3,
            RawActiveSubBoard::MidMid => subboard_index == 4,
            RawActiveSubBoard::MidRight => subboard_index == 5,
            RawActiveSubBoard::BotLeft => subboard_index == 6,
            RawActiveSubBoard::BotMid => subboard_index == 7,
            RawActiveSubBoard::BotRight => subboard_index == 8,
        }
    }
}

} // verus!
