//! The building blocks of the game: pieces, players, places and moves.

pub mod pattern;

pub mod board_state;

pub mod debug;

pub mod raw;

use vstd::prelude::*;

pub use crate::utils::raw::{RawBoardState, RawMove};

use core::marker::PhantomData;

use crate::utils::board_state::BoardState;
use crate::utils::pattern::{free_places, pattern_state, Pattern, PatternState};
use crate::utils::raw::{RawPlace, RawTurn};

verus! {

/// What a single cell holds.
#[derive(Debug, Clone, Copy, PartialEq, Eq, Structural)]
pub enum Piece {
    Cross,
    Empty,
    Dot,
}

/// One of the nine positions of a three-by-three grid.
#[derive(Debug, Clone, Copy, PartialEq, Eq, Structural)]
pub enum Place {
    TopLeft,
    TopMid,
    TopRight,
    MidLeft,
    MidMid,
    MidRight,
    BotLeft,
    BotMid,
    BotRight,
}

impl Place {
    /// The place with the given row-major index. Only the indices 0 to 8
    /// have a place of their own; any other is given `BotRight`.
    pub open spec fn spec_from_index(index: usize) -> Place {
        if index == 0 {
            Place::TopLeft
        } else if index == 1 {
            Place::TopMid
        } else if index == 2 {
            Place::TopRight
        } else if index == 3 {
            Place::MidLeft
        } else if index == 4 {
            Place::MidMid
        } else if index == 5 {
            Place::MidRight
        } else if index == 6 {
            Place::BotLeft
        } else if index == 7 {
            Place::BotMid
        } else {
            Place::BotRight
        }
    }

    /// The row-major index of a place: rows from top to bottom, and within a
    /// row from left to right.
    pub open spec fn spec_to_index(&self) -> usize {
        match *self {
            Place::TopLeft => 0,
            Place::TopMid => 1,
            Place::TopRight => 2,
            Place::MidLeft => 3,
            Place::MidMid => 4,
            Place::MidRight => 5,
            Place::BotLeft => 6,
            Place::BotMid => 7,
            Place::BotRight => 8,
        }
    }

    /// How central the cell with the given row-major index is: the middle
    /// cell is the center, the other even cells are corners, the odd ones
    /// edges.
    pub open spec fn centeredness_at(index: int) -> Centeredness {
        if index == 4 {
            Centeredness::Center
        } else if index % 2 == 0 {
            Centeredness::Corner
        } else {
            Centeredness::Edge
        }
    }

    /// How central this place is.
    pub open spec fn spec_centeredness(&self) -> Centeredness {
        Place::centeredness_at(self.spec_to_index() as int)
    }

    /// The place with the given row-major index, which must be below 9.
    #[verifier::when_used_as_spec(spec_from_index)]
    pub fn from_index(index: usize) -> (place: Place)
        requires
            index < 9,
        ensures
            place == Place::spec_from_index(index),
            place.spec_to_index() == index,
    {
        match index {
            0 => Place::TopLeft,
            1 => Place::TopMid,
            2 => Place::TopRight,
            3 => Place::MidLeft,
            4 => Place::MidMid,
            5 => Place::MidRight,
            6 => Place::BotLeft,
            7 => Place::BotMid,
            8 => Place::BotRight,
            _ => vstd::pervasive::unreached(),
        }
    }

    /// The row-major index of this place, from 0 to 8.
    #[verifier::when_used_as_spec(spec_to_index)]
    pub fn to_index(&self) -> (index: usize)
        ensures
            index == self.spec_to_index(),
            index < 9,
    {
        match *self {
            Place::TopLeft => 0,
            Place::TopMid => 1,
            Place::TopRight => 2,
            Place::MidLeft => 3,
            Place::MidMid => 4,
            Place::MidRight => 5,
            Place::BotLeft => 6,
            Place::BotMid => 7,
            Place::BotRight => 8,
        }
    }

    /// This place as a host names it: the position with the same index.
    pub fn to_raw(&self) -> (raw: RawPlace)
        ensures
            raw.index() == self.spec_to_index(),
    {
        match *self {
            Place::TopLeft => RawPlace::TopLeft,
            Place::TopMid => RawPlace::TopMid,
            Place::TopRight => RawPlace::TopRight,
            Place::MidLeft => RawPlace::MidLeft,
            Place::MidMid => RawPlace::MidMid,
            Place::MidRight => RawPlace::MidRight,
            Place::BotLeft => RawPlace::BotLeft,
            Place::BotMid => RawPlace::BotMid,
            Place::BotRight => RawPlace::BotRight,
        }
    }

    /// How central this place is.
    #[verifier::when_used_as_spec(spec_centeredness)]
    pub fn centeredness(&self) -> (centeredness: Centeredness)
        ensures
            centeredness == self.spec_centeredness(),
    {
        match self {
            Place::TopLeft => Centeredness::Corner,
            Place::TopMid => Centeredness::Edge,
            Place::TopRight => Centeredness::Corner,
            Place::MidLeft => Centeredness::Edge,
            Place::MidMid => Centeredness::Center,
            Place::MidRight => Centeredness::Edge,
            Place::BotLeft => Centeredness::Corner,
            Place::BotMid => Centeredness::Edge,
            Place::BotRight => Centeredness::Corner,
        }
    }

    /// Places and the indices 0 to 8 correspond one to one: converting a
    /// place to its index and back gives the place, converting an index
    /// below 9 to its place and back gives the index, and no index of a
    /// place is 9 or more.
    pub proof fn lemma_index_bijection()
        ensures
            forall|place: Place| #[trigger] Place::from_index(place.to_index()) == place,
            forall|place: Place| #[trigger] place.to_index() < 9,
            forall|index: usize| index < 9 ==> #[trigger] Place::from_index(index).to_index() == index,
            forall|a: Place, b: Place| #[trigger] a.to_index() == #[trigger] b.to_index() ==> a == b,
    {
    }
}

/// The positional rank of a place. The center ranks above a corner, and a
/// corner above an edge.
#[derive(Debug, Clone, Copy, PartialEq, Eq, Structural)]
pub enum Centeredness {
    Center,
    Edge,
    Corner,
}

/// One of the 81 cells of the board: a subboard, and a square within it.
#[derive(Debug, Clone, Copy, PartialEq, Eq, Structural)]
pub struct Spot {
    pub subboard: Place,
    pub square: Place,
}

/// One of the two players.
#[derive(Debug, Clone, Copy, PartialEq, Eq, Structural)]
pub enum Player {
    Cross,
    Dot,
}

impl Player {
    /// The piece that this player places.
    pub open spec fn spec_to_piece(&self) -> Piece {
        match self {
            Player::Cross => Piece::Cross,
            Player::Dot => Piece::Dot,
        }
    }

    /// The other player.
    pub open spec fn spec_opposite(&self) -> Player {
        match self {
            Player::Cross => Player::Dot,
            Player::Dot => Player::Cross,
        }
    }

    /// The player whose turn a snapshot records.
    pub open spec fn spec_from_raw(raw_turn: RawTurn) -> Player {
        match raw_turn {
            RawTurn::Cross => Player::Cross,
            RawTurn::Dot => Player::Dot,
        }
    }

    /// The piece that this player places.
    #[verifier::when_used_as_spec(spec_to_piece)]
    pub fn to_piece(&self) -> (piece: Piece)
        ensures
            piece == self.spec_to_piece(),
            piece != Piece::Empty,
    {
        match self {
            Player::Cross => Piece::Cross,
            Player::Dot => Piece::Dot,
        }
    }

    /// The other player.
    #[verifier::when_used_as_spec(spec_opposite)]
    pub fn opposite(&self) -> (other: Player)
        ensures
            other == self.spec_opposite(),
            other != *self,
    {
        match self {
            Player::Cross => Player::Dot,
            Player::Dot => Player::Cross,
        }
    }

    /// The player whose turn a snapshot records.
    #[verifier::when_used_as_spec(spec_from_raw)]
    pub fn from_raw(raw_turn: RawTurn) -> (player: Player)
        ensures
            player == Player::spec_from_raw(raw_turn),
    {
        match raw_turn {
            RawTurn::Cross => Player::Cross,
            RawTurn::Dot => Player::Dot,
        }
    }
}

/// One of the nine subboards. A won subboard keeps only its winner. An
/// undecided one keeps its cells, and is active if the player to move may
/// place into it.
#[derive(Debug, Clone, Copy, PartialEq, Eq)]
pub enum Subboard {
    Won(Player),
    Active(Pattern),
    Inactive(Pattern),
}

/// What a subboard is, with the cells of its pattern as a sequence of nine
/// pieces.
#[verifier::ext_equal]
pub enum SubboardView {
    Won(Player),
    Active(Seq<Piece>),
    Inactive(Seq<Piece>),
}

impl View for Subboard {
    type V = SubboardView;

    open spec fn view(&self) -> SubboardView {
        match *self {
            Subboard::Won(player) => SubboardView::Won(player),
            Subboard::Active(pattern) => SubboardView::Active(pattern@),
            Subboard::Inactive(pattern) => SubboardView::Inactive(pattern@),
        }
    }
}

impl SubboardView {
    /// The subboard that a grid of cells makes: won where the grid has a
    /// winner, otherwise active or inactive as asked.
    pub open spec fn from_cells(cells: Seq<Piece>, active: bool) -> SubboardView {
        match pattern_state(cells) {
            PatternState::Won(player) => SubboardView::Won(player),
            PatternState::Undecided => if active {
                SubboardView::Active(cells)
            } else {
                SubboardView::Inactive(cells)
            },
        }
    }

    /// A subboard is well formed if it is won or has nine cells.
    pub open spec fn wf(self) -> bool {
        match self {
            SubboardView::Won(_) => true,
            SubboardView::Active(cells) => cells.len() == 9,
            SubboardView::Inactive(cells) => cells.len() == 9,
        }
    }

    /// The piece that stands for this subboard on the board as a whole: the
    /// winner's piece, or none while the subboard is undecided.
    pub open spec fn winner_piece(self) -> Piece {
        match self {
            SubboardView::Won(player) => player.to_piece(),
            _ => Piece::Empty,
        }
    }

    /// The same subboard, made active if it was inactive.
    pub open spec fn activated(self) -> SubboardView {
        match self {
            SubboardView::Inactive(cells) => SubboardView::Active(cells),
            _ => self,
        }
    }

    /// The cells into which the player to move may place here, in index
    /// order: the empty cells of an active subboard, and none of any other.
    pub open spec fn moves(self, subboard: Place) -> Seq<Spot> {
        match self {
            SubboardView::Active(cells) => free_places(cells).map_values(
                |square: Place| Spot { subboard, square },
            ),
            _ => Seq::empty(),
        }
    }
}

impl Subboard {
    /// Every subboard is well formed.
    pub proof fn lemma_wf(&self)
        ensures
            self@.wf(),
    {
        match *self {
            Subboard::Won(_) => {},
            Subboard::Active(pattern) => pattern.lemma_len(),
            Subboard::Inactive(pattern) => pattern.lemma_len(),
        }
    }

    /// The subboard that a pattern makes: won where the pattern has a winner,
    /// and otherwise active or inactive as asked, with the pattern as its
    /// cells.
    pub fn from_pattern(pattern: Pattern, active: bool) -> (subboard: Subboard)
        ensures
            subboard@ == SubboardView::from_cells(pattern@, active),
    {
        match pattern.state() {
            PatternState::Won(player) => Subboard::Won(player),
            PatternState::Undecided => if active {
                Subboard::Active(pattern)
            } else {
                Subboard::Inactive(pattern)
            },
        }
    }
}

/// A move: the cell that the player to move takes. A move is meant for the
/// board state that offered it.
#[derive(Debug, Clone, Copy, PartialEq, Eq)]
pub struct Move<'a> {
    spot: Spot,
    context: PhantomData<&'a BoardState>,
}

impl<'a> View for Move<'a> {
    type V = Spot;

    /// The cell that the move takes.
    closed spec fn view(&self) -> Spot {
        self.spot
    }
}

impl<'a> DeepView for Move<'a> {
    type V = Spot;

    /// The cell that the move takes.
    open spec fn deep_view(&self) -> Spot {
        self@
    }
}

impl<'a> Move<'a> {
    /// The move that takes the given cell.
    pub fn new(spot: Spot) -> (move_: Move<'a>)
        ensures
            move_@ == spot,
    {
        Move { spot, context: PhantomData }
    }

    /// This move as a host receives it.
    pub fn to_raw(&self) -> (raw: RawMove)
        ensures
            raw.subboard.index() == self@.subboard.to_index(),
            raw.square.index() == self@.square.to_index(),
    {
        RawMove { subboard: self.spot.subboard.to_raw(), square: self.spot.square.to_raw() }
    }

    /// The subboard that the move goes into.
    pub fn subboard(&self) -> (subboard: Place)
        ensures
            subboard == self@.subboard,
    {
        self.spot.subboard
    }

    /// The square of that subboard that the move takes.
    pub fn square(&self) -> (square: Place)
        ensures
            square == self@.square,
    {
        self.spot.square
    }
}

} // verus!
