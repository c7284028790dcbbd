//! The whole game state and its transition rule.

use vstd::prelude::*;

use vstd::pervasive::unreached;

use crate::utils::pattern::{
    cells_of_raw, free_places, lemma_free_places, pattern_state, Pattern, PatternState,
};
use crate::utils::raw::{RawActiveSubBoard, RawBoardState};
use crate::utils::{Move, Piece, Place, Player, Spot, Subboard, SubboardView};

verus! {

/// The state of a game: nine subboards and the player to move. A state is
/// never changed; a move gives a new one.
#[derive(Debug, Clone, Copy, PartialEq, Eq)]
pub struct BoardState {
    board: [Subboard; 9],
    turn: Player,
}

/// What a board state is: its nine subboards in row-major order, and the
/// player to move.
#[verifier::ext_equal]
pub struct BoardView {
    pub board: Seq<SubboardView>,
    pub turn: Player,
}

impl View for BoardState {
    type V = BoardView;

    closed spec fn view(&self) -> BoardView {
        BoardView { board: Seq::new(9, |i: int| self.board@[i]@), turn: self.turn }
    }
}

impl BoardView {
    /// A board is well formed if it has nine well-formed subboards.
    pub open spec fn wf(self) -> bool {
        &&& self.board.len() == 9
        &&& forall|i: int| 0 <= i < 9 ==> (#[trigger] self.board[i]).wf()
    }

    /// The board as a whole, as a grid of nine pieces: for each subboard the
    /// piece of its winner, or none while it is undecided.
    pub open spec fn subboard_pattern(self) -> Seq<Piece> {
        Seq::new(9, |i: int| self.board[i].winner_piece())
    }

    /// Whether the game has a winner: the state of the board as a whole.
    pub open spec fn state(self) -> PatternState {
        pattern_state(self.subboard_pattern())
    }

    /// The moves into the first `n` subboards, by ascending subboard and
    /// within a subboard by ascending square.
    pub open spec fn moves_below(self, n: int) -> Seq<Spot>
        decreases n,
    {
        if n <= 0 {
            Seq::empty()
        } else {
            self.moves_below(n - 1) + self.board[n - 1].moves(Place::from_index((n - 1) as usize))
        }
    }

    /// All the moves that the player to move may make, by ascending subboard
    /// and within a subboard by ascending square.
    pub open spec fn eligible_moves(self) -> Seq<Spot> {
        self.moves_below(9)
    }

    /// Whether the game has ended without a winner: nobody has won the board
    /// as a whole, and the player to move has no move.
    pub open spec fn is_draw(self) -> bool {
        !(self.state() is Won) && self.eligible_moves().len() == 0
    }

    /// Whether the player to move may take the given cell: its subboard is
    /// active and the cell is empty.
    pub open spec fn allows(self, spot: Spot) -> bool {
        &&& self.board[spot.subboard.to_index() as int] matches SubboardView::Active(cells)
        &&& cells[spot.square.to_index() as int] == Piece::Empty
    }

    /// The board once the player to move has placed a piece on the given
    /// cell, before any subboard is activated: the subboard played in holds
    /// the new piece, and is won if that gave it a winner.
    pub open spec fn placed(self, spot: Spot) -> Seq<SubboardView> {
        let played = spot.subboard.to_index() as int;
        let cells = match self.board[played] {
            SubboardView::Active(cells) => cells,
            SubboardView::Inactive(cells) => cells,
            SubboardView::Won(_) => Seq::empty(),
        }.update(spot.square.to_index() as int, self.turn.to_piece());
        self.board.update(
            played,
            match pattern_state(cells) {
                PatternState::Won(player) => SubboardView::Won(player),
                PatternState::Undecided => SubboardView::Active(cells),
            },
        )
    }

    /// Whether a move to the given cell lets the next player place anywhere:
    /// the subboard that the square points to is won once the piece stands.
    pub open spec fn plays_anywhere(self, spot: Spot) -> bool {
        self.placed(spot)[spot.square.to_index() as int] is Won
    }

    /// The state after the player to move has taken the given cell. The
    /// piece is placed. Then the subboard with the index of the square
    /// played is looked at: if it is inactive, it becomes active; if it is
    /// won, every inactive subboard becomes active; if it is active, nothing
    /// changes. The turn passes to the other player.
    pub open spec fn after_move(self, spot: Spot) -> BoardView {
        let target = spot.square.to_index() as int;
        let placed = self.placed(spot);
        BoardView {
            board: match placed[target] {
                SubboardView::Inactive(cells) => placed.update(target, SubboardView::Active(cells)),
                SubboardView::Won(_) => placed.map_values(|s: SubboardView| s.activated()),
                SubboardView::Active(_) => placed,
            },
            turn: self.turn.opposite(),
        }
    }
}

impl BoardView {
    /// A cell is among the moves into the first `n` subboards exactly when
    /// its subboard is one of them and the player to move may take it.
    pub proof fn lemma_moves_below(self, n: int)
        requires
            self.wf(),
            0 <= n <= 9,
        ensures
            forall|spot: Spot|
                #![trigger self.moves_below(n).contains(spot)]
                self.moves_below(n).contains(spot) <==> (spot.subboard.to_index() < n
                    && self.allows(spot)),
        decreases n,
    {
        if n > 0 {
            self.lemma_moves_below(n - 1);
            let subboard = Place::from_index((n - 1) as usize);
            let before = self.moves_below(n - 1);
            let here = self.board[n - 1].moves(subboard);
            assert(self.moves_below(n) == before + here);
            assert forall|spot: Spot| #![trigger here.contains(spot)] here.contains(spot) <==> (
            spot.subboard == subboard && self.allows(spot)) by {
                match self.board[n - 1] {
                    SubboardView::Active(cells) => {
                        lemma_free_places(cells);
                        let free = free_places(cells);
                        if here.contains(spot) {
                            let i = choose|i: int| 0 <= i < here.len() && here[i] == spot;
                            assert(free.contains(free[i]));
                        }
                        if spot.subboard == subboard && self.allows(spot) {
                            assert(free.contains(spot.square));
                            let i = choose|i: int| 0 <= i < free.len() && free[i] == spot.square;
                            assert(here[i] == spot);
                        }
                    },
                    _ => {},
                }
            }
            assert forall|spot: Spot|
                #![trigger self.moves_below(n).contains(spot)]
                self.moves_below(n).contains(spot) <==> (spot.subboard.to_index() < n
                    && self.allows(spot)) by {
                let all = self.moves_below(n);
                if all.contains(spot) {
                    let i = choose|i: int| 0 <= i < all.len() && all[i] == spot;
                    if i < before.len() {
                        assert(before[i] == spot);
                        assert(before.contains(spot));
                    } else {
                        assert(here[i - before.len()] == spot);
                        assert(here.contains(spot));
                    }
                }
                if spot.subboard.to_index() < n && self.allows(spot) {
                    if spot.subboard.to_index() < n - 1 {
                        assert(before.contains(spot));
                        let i = choose|i: int| 0 <= i < before.len() && before[i] == spot;
                        assert(all[i] == spot);
                    } else {
                        assert(spot.subboard == subboard);
                        assert(here.contains(spot));
                        let i = choose|i: int| 0 <= i < here.len() && here[i] == spot;
                        assert(all[before.len() + i] == spot);
                    }
                }
            }
        }
    }

    /// The eligible moves are exactly the cells that the player to move may
    /// take.
    pub proof fn lemma_eligible_moves(self)
        requires
            self.wf(),
        ensures
            forall|spot: Spot|
                #![trigger self.eligible_moves().contains(spot)]
                self.eligible_moves().contains(spot) <==> self.allows(spot),
            forall|i: int|
                0 <= i < self.eligible_moves().len() ==> self.allows(
                    #[trigger] self.eligible_moves()[i],
                ),
    {
        self.lemma_moves_below(9);
        assert forall|i: int| 0 <= i < self.eligible_moves().len() implies self.allows(
            #[trigger] self.eligible_moves()[i],
        ) by {
            assert(self.eligible_moves().contains(self.eligible_moves()[i]));
        }
    }

    /// A move keeps the board well formed.
    pub proof fn lemma_after_move_wf(self, spot: Spot)
        requires
            self.wf(),
            self.allows(spot),
        ensures
            self.after_move(spot).wf(),
    {
        let placed = self.placed(spot);
        assert forall|i: int| 0 <= i < 9 implies (#[trigger] placed[i]).wf() by {
            assert(self.board[i].wf());
        }
        let next = self.after_move(spot);
        assert forall|i: int| 0 <= i < 9 implies (#[trigger] next.board[i]).wf() by {
            assert(placed[i].wf());
            assert(placed[spot.square.to_index() as int].wf());
        }
    }

    /// A move passes the turn to the other player.
    pub proof fn lemma_move_passes_turn(self, spot: Spot)
        requires
            self.wf(),
            self.eligible_moves().contains(spot),
        ensures
            self.allows(spot),
            self.after_move(spot).turn == self.turn.opposite(),
            self.after_move(spot).turn != self.turn,
    {
        self.lemma_eligible_moves();
    }

    /// Where the square played points to a subboard that is already won,
    /// the next player may place anywhere: every subboard that was inactive
    /// is active after the move, with its cells unchanged.
    pub proof fn lemma_play_anywhere(self, spot: Spot)
        requires
            self.wf(),
            self.allows(spot),
            self.board[spot.square.to_index() as int] is Won,
        ensures
            self.plays_anywhere(spot),
            forall|i: int|
                0 <= i < 9 ==> (#[trigger] self.board[i] matches SubboardView::Inactive(cells)
                    ==> self.after_move(spot).board[i] == SubboardView::Active(cells)),
    {
    }

    /// Likewise where the square played points to a subboard that this very
    /// move wins, or to any subboard that is won once the piece stands:
    /// every subboard that was inactive is active after the move.
    pub proof fn lemma_play_anywhere_after_placing(self, spot: Spot)
        requires
            self.wf(),
            self.allows(spot),
            self.plays_anywhere(spot),
        ensures
            forall|i: int|
                0 <= i < 9 ==> (#[trigger] self.board[i] matches SubboardView::Inactive(cells)
                    ==> self.after_move(spot).board[i] == SubboardView::Active(cells)),
    {
    }

    /// Where the square played points to an undecided subboard, that one is
    /// active after the move, and every other inactive subboard stays as it
    /// is.
    pub proof fn lemma_play_directed(self, spot: Spot)
        requires
            self.wf(),
            self.allows(spot),
            !self.plays_anywhere(spot),
        ensures
            self.after_move(spot).board[spot.square.to_index() as int] is Active,
            forall|i: int|
                0 <= i < 9 && i != spot.square.to_index() ==> (
                #[trigger] self.board[i] is Inactive ==> self.after_move(spot).board[i]
                    == self.board[i]),
    {
    }

    /// A move never takes a subboard back: a won subboard stays won by the
    /// same player, an active one stays active or becomes won, and an
    /// inactive one keeps its cells, inactive or active. Only the subboard
    /// played in changes its cells, and only in the square played.
    pub proof fn lemma_move_is_monotonic(self, spot: Spot)
        requires
            self.wf(),
            self.allows(spot),
        ensures
            forall|i: int|
                0 <= i < 9 ==> match #[trigger] self.board[i] {
                    SubboardView::Won(player) => self.after_move(spot).board[i]
                        == SubboardView::Won(player),
                    SubboardView::Active(cells) => {
                        ||| self.after_move(spot).board[i] is Won && i
                            == spot.subboard.to_index()
                        ||| self.after_move(spot).board[i] == SubboardView::Active(
                            if i == spot.subboard.to_index() {
                                cells.update(
                                    spot.square.to_index() as int,
                                    self.turn.to_piece(),
                                )
                            } else {
                                cells
                            },
                        )
                    },
                    SubboardView::Inactive(cells) => {
                        ||| self.after_move(spot).board[i] == SubboardView::Inactive(cells)
                        ||| self.after_move(spot).board[i] == SubboardView::Active(cells)
                    },
                },
    {
    }
}

impl BoardState {
    /// Every board state is well formed.
    pub proof fn lemma_wf(&self)
        ensures
            self@.wf(),
    {
        assert forall|i: int| 0 <= i < 9 implies (#[trigger] self@.board[i]).wf() by {
            self.board@[i].lemma_wf();
        }
    }

    /// Listing the eligible moves of one state twice gives the same moves in
    /// the same order.
    pub proof fn lemma_eligible_moves_repeatable(&self, first: Vec<Move>, second: Vec<Move>)
        requires
            first.deep_view() == self@.eligible_moves(),
            second.deep_view() == self@.eligible_moves(),
        ensures
            first.len() == second.len(),
            forall|i: int| 0 <= i < first.len() ==> #[trigger] first[i]@ == second[i]@,
    {
        assert(first.deep_view().len() == first.len());
        assert(second.deep_view().len() == second.len());
        assert forall|i: int| 0 <= i < first.len() implies #[trigger] first[i]@ == second[i]@ by {
            assert(first.deep_view()[i] == first[i]@);
            assert(second.deep_view()[i] == second[i]@);
        }
    }

    /// The player to move.
    pub fn turn(&self) -> (turn: Player)
        ensures
            turn == self@.turn,
    {
        self.turn
    }

    /// The subboard at a place.
    pub fn subboard(&self, subboard: Place) -> (found: Subboard)
        ensures
            found@ == self@.board[subboard.to_index() as int],
    {
        self.board[subboard.to_index()]
    }

    /// The cells of the subboard at a place, if that subboard is active.
    pub fn pattern_if_active(&self, subboard: Place) -> (pattern: Option<Pattern>)
        ensures
            match pattern {
                Some(pattern) => self@.board[subboard.to_index() as int] == SubboardView::Active(
                    pattern@,
                ),
                None => !(self@.board[subboard.to_index() as int] is Active),
            },
    {
        match self.subboard(subboard) {
            Subboard::Active(pattern) => Some(pattern),
            _ => None,
        }
    }

    /// The board as a whole as a pattern: for each subboard the piece of its
    /// winner, or none while it is undecided.
    pub fn subboard_pattern(&self) -> (pattern: Pattern)
        ensures
            pattern@ == self@.subboard_pattern(),
    {
        let mut pieces = [Piece::Empty;9];
        let mut i: usize = 0;
        while i < 9
            invariant
                i <= 9,
                forall|k: int| 0 <= k < i ==> pieces@[k] == (#[trigger] self@.board[k]).winner_piece(),
            decreases 9 - i,
        {
            pieces[i] = match self.board[i] {
                Subboard::Won(player) => player.to_piece(),
                _ => Piece::Empty,
            };
            i += 1;
        }
        let pattern = Pattern::new(pieces);
        assert(pattern@ =~= self@.subboard_pattern());
        pattern
    }

    /// Whether the game has a winner: the state of the board as a whole.
    pub fn state(&self) -> (state: PatternState)
        ensures
            state == self@.state(),
    {
        let subboard_pattern = self.subboard_pattern();
        subboard_pattern.state()
    }

    /// Whether the game has ended without a winner: nobody has won the board
    /// as a whole, and the player to move has no move.
    pub fn is_draw(&self) -> (draw: bool)
        ensures
            draw == self@.is_draw(),
    {
        if matches!(self.state(), PatternState::Won(_)) {
            return false;
        }
        let eligible_moves = self.eligible_moves();
        eligible_moves.len() == 0
    }

    /// The state that a snapshot describes. Each subboard is read from its
    /// nine cells: it is won where they have a winner, active where the
    /// selector of the snapshot admits it, and inactive otherwise.
    pub fn from_raw(raw_board_state: RawBoardState) -> (state: BoardState)
        ensures
            state@.turn == Player::from_raw(raw_board_state.turn),
            state@.board.len() == 9,
            forall|i: int|
                0 <= i < 9 ==> #[trigger] state@.board[i] == SubboardView::from_cells(
                    cells_of_raw(raw_board_state.board@[i]@),
                    raw_board_state.active_subboard.admits(i),
                ),
    {
        let mut board = [Subboard::Won(Player::Cross);9];
        let mut subboard_index: usize = 0;
        while subboard_index < 9
            invariant
                subboard_index <= 9,
                forall|i: int|
                    0 <= i < subboard_index ==> (#[trigger] board@[i])@
                        == SubboardView::from_cells(
                        cells_of_raw(raw_board_state.board@[i]@),
                        raw_board_state.active_subboard.admits(i),
                    ),
            decreases 9 - subboard_index,
        {
            let pattern = Pattern::from_raw(raw_board_state.board[subboard_index]);
            let active = match raw_board_state.active_subboard {
                RawActiveSubBoard::All => true,
                RawActiveSubBoard::TopLeft => subboard_index == 0,
                RawActiveSubBoard::TopMid => subboard_index == 1,
                RawActiveSubBoard::TopRight => subboard_index == 2,
                RawActiveSubBoard::MidLeft => subboard_index == 3,
                RawActiveSubBoard::MidMid => subboard_index == 4,
                RawActiveSubBoard::MidRight => subboard_index == 5,
                RawActiveSubBoard::BotLeft => subboard_index == 6,
                RawActiveSubBoard::BotMid => subboard_index == 7,
                RawActiveSubBoard::BotRight => subboard_index == 8,
            };
            board[subboard_index] = Subboard::from_pattern(pattern, active);
            subboard_index += 1;
        }
        BoardState { board, turn: Player::from_raw(raw_board_state.turn) }
    }

    /// A cursor over the subboards in index order, each with its place.
    pub fn enumerate(&self) -> (subboards: EnumerateBoard<'_>)
        ensures
            subboards.board() == self@.board,
            subboards.position() == 0,
    {
        EnumerateBoard::new(self)
    }

    /// The state after the player to move has made the given move, which
    /// must be one of the eligible moves. The piece is placed, and the
    /// subboard is won if that gave it a winner. Then the subboard that the
    /// square played points to is looked at: if it is inactive, it becomes
    /// active; if it is won, every inactive subboard becomes active; if it
    /// is active, nothing changes. The turn passes to the other player.
    /// This state stays as it is.
    pub fn do_move(&self, move_: Move) -> (next: BoardState)
        requires
            self@.allows(move_@),
        ensures
            next@ == self@.after_move(move_@),
    {
        let played = move_.subboard().to_index();
        let target = move_.square().to_index();
        let ghost placed = self@.placed(move_@);
        let mut new_subboards = self.board;
        let mut pattern = match new_subboards[played] {
            Subboard::Active(pattern) => pattern,
            Subboard::Won(_) => unreached(),
            Subboard::Inactive(_) => unreached(),
        };
        match *pattern.piece(move_.square()) {
            Piece::Empty => {
                *pattern.piece_mut(move_.square()) = self.turn.to_piece();
            },
            Piece::Cross => unreached(),
            Piece::Dot => unreached(),
        }
        new_subboards[played] = match pattern.state() {
            PatternState::Won(player) => Subboard::Won(player),
            PatternState::Undecided => Subboard::Active(pattern),
        };
        assert forall|i: int| 0 <= i < 9 implies (#[trigger] new_subboards@[i])@ == placed[i] by {
            if i != played {
                assert(new_subboards@[i] == self.board@[i]);
            }
        }
        match new_subboards[target] {
            Subboard::Inactive(pattern) => {
                new_subboards[target] = Subboard::Active(pattern);
            },
            Subboard::Won(_) => {
                let mut i: usize = 0;
                while i < 9
                    invariant
                        i <= 9,
                        placed.len() == 9,
                        forall|k: int|
                            0 <= k < i ==> (#[trigger] new_subboards@[k])@ == placed[k].activated(),
                        forall|k: int| i <= k < 9 ==> (#[trigger] new_subboards@[k])@ == placed[k],
                    decreases 9 - i,
                {
                    if let Subboard::Inactive(pattern) = new_subboards[i] {
                        new_subboards[i] = Subboard::Active(pattern);
                    }
                    i += 1;
                }
            },
            Subboard::Active(_) => {},
        }
        let next = BoardState { board: new_subboards, turn: self.turn.opposite() };
        assert(next@.board =~= self@.after_move(move_@).board);
        next
    }

    /// The moves that the player to move may make: onto each empty cell of
    /// each active subboard, by ascending subboard and within a subboard by
    /// ascending square.
    pub fn eligible_moves(&self) -> (moves: Vec<Move<'_>>)
        ensures
            moves.deep_view() == self@.eligible_moves(),
            moves@.len() == self@.eligible_moves().len(),
            forall|i: int|
                0 <= i < moves@.len() ==> (#[trigger] moves@[i])@ == self@.eligible_moves()[i]
                    && self@.allows(moves@[i]@),
    {
        let mut moves: Vec<Move<'_>> = Vec::new();
        let mut i: usize = 0;
        assert(moves.deep_view() =~= self@.moves_below(0));
        while i < 9
            invariant
                i <= 9,
                moves.deep_view() == self@.moves_below(i as int),
            decreases 9 - i,
        {
            let subboard = Place::from_index(i);
            let ghost before = moves.deep_view();
            match self.board[i] {
                Subboard::Active(pattern) => {
                    let spots = pattern.free_spots();
                    let mut j: usize = 0;
                    assert(moves.deep_view() =~= before + self@.board[i as int].moves(
                        subboard,
                    ).take(0));
                    while j < spots.len()
                        invariant
                            i < 9,
                            j <= spots.len(),
                            spots@ == free_places(pattern@),
                            self@.board[i as int] == SubboardView::Active(pattern@),
                            moves.deep_view() == before + self@.board[i as int].moves(
                                subboard,
                            ).take(j as int),
                        decreases spots.len() - j,
                    {
                        let move_ = Move::new(Spot { subboard, square: spots[j] });
                        let ghost listed = moves.deep_view();
                        let ghost here = self@.board[i as int].moves(subboard);
                        moves.push(move_);
                        assert(moves.deep_view() =~= listed.push(move_@));
                        assert(here.take(j + 1) =~= here.take(j as int).push(move_@));
                        assert(moves.deep_view() =~= before + here.take(j + 1));
                        j += 1;
                    }
                    assert(self@.board[i as int].moves(subboard).take(j as int)
                        =~= self@.board[i as int].moves(subboard));
                },
                _ => {
                    assert(moves.deep_view() =~= before + self@.board[i as int].moves(subboard));
                },
            }
            i += 1;
        }
        proof {
            self.lemma_wf();
            self@.lemma_eligible_moves();
            assert(moves.deep_view().len() == moves@.len());
            assert forall|i: int| 0 <= i < moves@.len() implies (#[trigger] moves@[i])@
                == self@.eligible_moves()[i] && self@.allows(moves@[i]@) by {
                assert(moves.deep_view()[i] == moves@[i]@);
            }
        }
        moves
    }
}

/// A cursor that walks the subboards of a board state in index order.
pub struct EnumerateBoard<'a> {
    state: &'a BoardState,
    index: usize,
}

impl<'a> EnumerateBoard<'a> {
    /// The subboards of the state that the cursor walks.
    pub closed spec fn board(&self) -> Seq<SubboardView> {
        self.state@.board
    }

    /// How many subboards the cursor has handed out.
    pub closed spec fn position(&self) -> int {
        self.index as int
    }

    /// A cursor at the first subboard of a state.
    pub fn new(state: &'a BoardState) -> (subboards: EnumerateBoard<'a>)
        ensures
            subboards.board() == state@.board,
            subboards.position() == 0,
    {
        EnumerateBoard { state, index: 0 }
    }

    /// Hands out the next subboard with its place and moves on, or `None`
    /// once all nine subboards have been handed out.
    pub fn next(&mut self) -> (item: Option<(Place, &'a Subboard)>)
        ensures
            final(self).board() == old(self).board(),
            match item {
                Some((place, subboard)) => {
                    &&& old(self).position() < 9
                    &&& place.to_index() == old(self).position()
                    &&& subboard@ == old(self).board()[old(self).position()]
                    &&& final(self).position() == old(self).position() + 1
                },
                None => {
                    &&& old(self).position() >= 9
                    &&& final(self).position() == old(self).position()
                },
            },
    {
        if self.index < 9 {
            let place = Place::from_index(self.index);
            let subboard = &self.state.board[self.index];
            self.index += 1;
            Some((place, subboard))
        } else {
            None
        }
    }
}

} // verus!
