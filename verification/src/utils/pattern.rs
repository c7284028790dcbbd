//! A three-by-three grid of pieces, and what can be read off it.

use vstd::prelude::*;

use crate::utils::raw::RawPiece;
use crate::utils::{Piece, Place, Player};

verus! {

/// Nine pieces, one for each place, in row-major order. A pattern holds
/// either the cells of a subboard, or, for the board as a whole, the winner
/// of each subboard.
#[derive(Debug, Clone, Copy, PartialEq, Eq)]
pub struct Pattern([Piece; 9]);

/// Whether a pattern has a winner.
#[derive(Debug, Clone, Copy, PartialEq, Eq, Structural)]
pub enum PatternState {
    Won(Player),
    Undecided,
}

impl View for Pattern {
    type V = Seq<Piece>;

    /// The nine pieces, indexed by the row-major index of their place.
    closed spec fn view(&self) -> Seq<Piece> {
        self.0@
    }
}

/// Whether the three cells `a`, `b` and `c` all hold `piece`.
pub open spec fn holds_line(cells: Seq<Piece>, piece: Piece, a: int, b: int, c: int) -> bool {
    cells[a] == piece && cells[b] == piece && cells[c] == piece
}

/// Whether one of the eight lines of the grid (three rows, three columns,
/// two diagonals) holds `piece` in all three of its cells.
pub open spec fn has_line(cells: Seq<Piece>, piece: Piece) -> bool {
    ||| holds_line(cells, piece, 0, 1, 2)
    ||| holds_line(cells, piece, 3, 4, 5)
    ||| holds_line(cells, piece, 6, 7, 8)
    ||| holds_line(cells, piece, 0, 3, 6)
    ||| holds_line(cells, piece, 1, 4, 7)
    ||| holds_line(cells, piece, 2, 5, 8)
    ||| holds_line(cells, piece, 0, 4, 8)
    ||| holds_line(cells, piece, 2, 4, 6)
}

/// The state of a grid of cells: won by Cross if Cross holds a line, else
/// won by Dot if Dot holds one, else undecided.
pub open spec fn pattern_state(cells: Seq<Piece>) -> PatternState {
    if has_line(cells, Piece::Cross) {
        PatternState::Won(Player::Cross)
    } else if has_line(cells, Piece::Dot) {
        PatternState::Won(Player::Dot)
    } else {
        PatternState::Undecided
    }
}

/// Whether `cells` holds every piece that `template` asks for: wherever the
/// template is not empty, the cells hold the same piece. Where the template
/// is empty, the cells may hold anything.
pub open spec fn covers(cells: Seq<Piece>, template: Seq<Piece>) -> bool {
    forall|i: int| 0 <= i < 9 && template[i] != Piece::Empty ==> cells[i] == template[i]
}

/// The piece that a cell of a snapshot stands for.
pub open spec fn piece_of_raw(raw_piece: RawPiece) -> Piece {
    match raw_piece {
        RawPiece::Cross => Piece::Cross,
        RawPiece::Dot => Piece::Dot,
        RawPiece::Empty => Piece::Empty,
    }
}

/// The pieces that the cells of a snapshot stand for, cell by cell.
pub open spec fn cells_of_raw(raw_cells: Seq<RawPiece>) -> Seq<Piece> {
    Seq::new(raw_cells.len(), |i: int| piece_of_raw(raw_cells[i]))
}

/// The three cells of line `k`, for `k` from 0 to 7: the rows from top to
/// bottom, then the columns from left to right, then the diagonal from the
/// top left and the diagonal from the top right.
pub open spec fn line_cells(k: int) -> (int, int, int) {
    if k == 0 {
        (0, 1, 2)
    } else if k == 1 {
        (3, 4, 5)
    } else if k == 2 {
        (6, 7, 8)
    } else if k == 3 {
        (0, 3, 6)
    } else if k == 4 {
        (1, 4, 7)
    } else if k == 5 {
        (2, 5, 8)
    } else if k == 6 {
        (0, 4, 8)
    } else {
        (2, 4, 6)
    }
}

/// The grid that holds `piece` in the three cells of line `k` and is empty
/// elsewhere.
pub open spec fn line_template(k: int, piece: Piece) -> Seq<Piece> {
    Seq::new(
        9,
        |i: int|
            if i == line_cells(k).0 || i == line_cells(k).1 || i == line_cells(k).2 {
                piece
            } else {
                Piece::Empty
            },
    )
}

/// The places of those of the first `n` cells that hold `piece`, in index
/// order.
pub open spec fn places_holding_below(cells: Seq<Piece>, piece: Piece, n: int) -> Seq<Place>
    decreases n,
{
    if n <= 0 {
        Seq::empty()
    } else if cells[n - 1] == piece {
        places_holding_below(cells, piece, n - 1).push(Place::from_index((n - 1) as usize))
    } else {
        places_holding_below(cells, piece, n - 1)
    }
}

/// The places of all cells that hold `piece`, in index order.
pub open spec fn places_holding(cells: Seq<Piece>, piece: Piece) -> Seq<Place> {
    places_holding_below(cells, piece, 9)
}

/// The places of all cells that are empty, in index order.
pub open spec fn free_places(cells: Seq<Piece>) -> Seq<Place> {
    places_holding(cells, Piece::Empty)
}

/// How many of the first `n` cells hold `piece`.
pub open spec fn count_below(cells: Seq<Piece>, piece: Piece, n: int) -> nat
    decreases n,
{
    if n <= 0 {
        0
    } else if cells[n - 1] == piece {
        count_below(cells, piece, n - 1) + 1
    } else {
        count_below(cells, piece, n - 1)
    }
}

/// How many of the nine cells hold `piece`.
pub open spec fn count_of(cells: Seq<Piece>, piece: Piece) -> nat {
    count_below(cells, piece, 9)
}

/// Whether the grid has a winner once `player`'s piece stands on `square`,
/// whatever stood there before. The winner need not be `player`.
pub open spec fn wins_at(cells: Seq<Piece>, square: Place, player: Player) -> bool {
    pattern_state(cells.update(square.to_index() as int, player.to_piece())) is Won
}

/// Whether the grid has a winner once the opponent of `player` stands on
/// `square`: the square that `player` has to take to stop that.
pub open spec fn blocks_at(cells: Seq<Piece>, square: Place, player: Player) -> bool {
    wins_at(cells, square, player.opposite())
}

/// A grid covers the template of a line exactly when it holds the piece in
/// the three cells of that line.
pub proof fn lemma_covers_line(cells: Seq<Piece>, k: int, piece: Piece)
    requires
        cells.len() == 9,
        0 <= k < 8,
        piece != Piece::Empty,
    ensures
        covers(cells, line_template(k, piece)) <==> holds_line(
            cells,
            piece,
            line_cells(k).0,
            line_cells(k).1,
            line_cells(k).2,
        ),
{
    let template = line_template(k, piece);
    let (a, b, c) = line_cells(k);
    if covers(cells, template) {
        assert(template[a] == piece && template[b] == piece && template[c] == piece);
    }
}

/// A grid holds a line of `piece` exactly when it covers the template of
/// one of the eight lines.
pub proof fn lemma_has_line_by_template(cells: Seq<Piece>, piece: Piece)
    requires
        cells.len() == 9,
        piece != Piece::Empty,
    ensures
        has_line(cells, piece) <==> exists|k: int|
            0 <= k < 8 && covers(cells, #[trigger] line_template(k, piece)),
{
    lemma_covers_line(cells, 0, piece);
    lemma_covers_line(cells, 1, piece);
    lemma_covers_line(cells, 2, piece);
    lemma_covers_line(cells, 3, piece);
    lemma_covers_line(cells, 4, piece);
    lemma_covers_line(cells, 5, piece);
    lemma_covers_line(cells, 6, piece);
    lemma_covers_line(cells, 7, piece);
    if has_line(cells, piece) {
        let k = if holds_line(cells, piece, 0, 1, 2) {
            0int
        } else if holds_line(cells, piece, 3, 4, 5) {
            1int
        } else if holds_line(cells, piece, 6, 7, 8) {
            2int
        } else if holds_line(cells, piece, 0, 3, 6) {
            3int
        } else if holds_line(cells, piece, 1, 4, 7) {
            4int
        } else if holds_line(cells, piece, 2, 5, 8) {
            5int
        } else if holds_line(cells, piece, 0, 4, 8) {
            6int
        } else {
            7int
        };
        assert(covers(cells, line_template(k, piece)));
    }
}

/// A full line of Cross on an otherwise empty grid is won by Cross, for
/// each of the eight lines; likewise for Dot; and the empty grid is
/// undecided.
pub proof fn lemma_state_of_lines()
    ensures
        forall|k: int|
            0 <= k < 8 ==> pattern_state(#[trigger] line_template(k, Piece::Cross))
                == PatternState::Won(Player::Cross),
        forall|k: int|
            0 <= k < 8 ==> pattern_state(#[trigger] line_template(k, Piece::Dot))
                == PatternState::Won(Player::Dot),
        pattern_state(Seq::new(9, |i: int| Piece::Empty)) == PatternState::Undecided,
{
}

/// The places that hold a piece are listed by strictly ascending index,
/// all of them lie among the first `n` cells, and a place is listed exactly
/// when its cell is one of the first `n` and holds the piece.
pub proof fn lemma_places_holding_below(cells: Seq<Piece>, piece: Piece, n: int)
    requires
        0 <= n <= 9,
    ensures
        places_holding_below(cells, piece, n).len() <= n,
        forall|i: int|
            0 <= i < places_holding_below(cells, piece, n).len() ==> (
            #[trigger] places_holding_below(cells, piece, n)[i]).to_index() < n,
        forall|i: int, j: int|
            0 <= i < j < places_holding_below(cells, piece, n).len() ==> (
            #[trigger] places_holding_below(cells, piece, n)[i]).to_index() < (
            #[trigger] places_holding_below(cells, piece, n)[j]).to_index(),
        forall|place: Place|
            #![trigger places_holding_below(cells, piece, n).contains(place)]
            places_holding_below(cells, piece, n).contains(place) <==> (place.to_index() < n
                && cells[place.to_index() as int] == piece),
    decreases n,
{
    if n > 0 {
        lemma_places_holding_below(cells, piece, n - 1);
        let rest = places_holding_below(cells, piece, n - 1);
        let all = places_holding_below(cells, piece, n);
        let last = Place::from_index((n - 1) as usize);
        if cells[n - 1] == piece {
            assert(all == rest.push(last));
            assert forall|place: Place| #![trigger all.contains(place)] all.contains(place) <==> (
            place.to_index() < n && cells[place.to_index() as int] == piece) by {
                if all.contains(place) {
                    let i = choose|i: int| 0 <= i < all.len() && all[i] == place;
                    if i < rest.len() {
                        assert(rest[i] == place);
                        assert(rest.contains(place));
                    }
                }
                if place.to_index() < n && cells[place.to_index() as int] == piece {
                    if place.to_index() == n - 1 {
                        assert(all[rest.len() as int] == place);
                    } else {
                        assert(rest.contains(place));
                        let i = choose|i: int| 0 <= i < rest.len() && rest[i] == place;
                        assert(all[i] == place);
                    }
                }
            }
        } else {
            assert(all == rest);
        }
    }
}

/// As many places are listed as cells hold the piece, and no place is
/// listed twice.
pub proof fn lemma_places_holding_count(cells: Seq<Piece>, piece: Piece, n: int)
    requires
        0 <= n <= 9,
    ensures
        places_holding_below(cells, piece, n).len() == count_below(cells, piece, n),
        places_holding_below(cells, piece, n).no_duplicates(),
    decreases n,
{
    if n > 0 {
        lemma_places_holding_count(cells, piece, n - 1);
    }
    lemma_places_holding_below(cells, piece, n);
}

/// No more than `n` of the first `n` cells hold a piece.
pub proof fn lemma_count_below_bound(cells: Seq<Piece>, piece: Piece, n: int)
    requires
        0 <= n,
    ensures
        count_below(cells, piece, n) <= n,
    decreases n,
{
    if n > 0 {
        lemma_count_below_bound(cells, piece, n - 1);
    }
}

/// The free places of a grid: there are as many as the grid has empty
/// cells, none is listed twice, and a place is listed exactly when its cell
/// is empty.
pub proof fn lemma_free_places(cells: Seq<Piece>)
    ensures
        free_places(cells).len() == count_of(cells, Piece::Empty),
        free_places(cells).no_duplicates(),
        forall|place: Place|
            #![trigger free_places(cells).contains(place)]
            free_places(cells).contains(place) <==> cells[place.to_index() as int] == Piece::Empty,
{
    lemma_places_holding_count(cells, Piece::Empty, 9);
    lemma_places_holding_below(cells, Piece::Empty, 9);
}

impl Pattern {
    /// Every pattern has nine cells.
    pub proof fn lemma_len(&self)
        ensures
            self@.len() == 9,
    {
    }

    /// A pattern is what its cells are: two patterns with the same cells
    /// are the same pattern.
    pub proof fn lemma_same_cells(&self, other: &Pattern)
        requires
            self@ == other@,
        ensures
            *self == *other,
    {
        assert(self.0 =~= other.0);
    }

    /// The pattern with the given pieces, in row-major order.
    pub fn new(pieces: [Piece; 9]) -> (pattern: Pattern)
        ensures
            pattern@ == pieces@,
    {
        Pattern(pieces)
    }

    /// The pattern that nine cells of a snapshot stand for.
    pub fn from_raw(raw_pattern: [RawPiece; 9]) -> (pattern: Pattern)
        ensures
            pattern@ == cells_of_raw(raw_pattern@),
    {
        let mut pieces = [Piece::Empty;9];
        let mut i: usize = 0;
        while i < 9
            invariant
                i <= 9,
                forall|k: int| 0 <= k < i ==> pieces@[k] == piece_of_raw(#[trigger] raw_pattern@[k]),
            decreases 9 - i,
        {
            pieces[i] = match raw_pattern[i] {
                RawPiece::Cross => Piece::Cross,
                RawPiece::Dot => Piece::Dot,
                RawPiece::Empty => Piece::Empty,
            };
            i += 1;
        }
        assert(pieces@ =~= cells_of_raw(raw_pattern@));
        Pattern(pieces)
    }

    /// The piece at a place.
    pub fn piece(&self, place: Place) -> (piece: &Piece)
        ensures
            *piece == self@[place.to_index() as int],
    {
        &self.0[place.to_index()]
    }

    /// The cell at a place, to read or to write. Writing to it changes that
    /// cell of the pattern and no other.
    pub fn piece_mut(&mut self, place: Place) -> (piece: &mut Piece)
        ensures
            *piece == old(self)@[place.to_index() as int],
            final(self)@ == old(self)@.update(place.to_index() as int, *final(piece)),
    {
        &mut self.0[place.to_index()]
    }

    /// The eight grids that each hold a full line of Cross and nothing else.
    pub fn winning_patterns_cross() -> (templates: [Pattern; 8])
        ensures
            forall|k: int| 0 <= k < 8 ==> (#[trigger] templates@[k])@ == line_template(k, Piece::Cross),
    {
        let x = Piece::Cross;
        let e = Piece::Empty;
        let templates = [
            Pattern([x, x, x, e, e, e, e, e, e]),
            Pattern([e, e, e, x, x, x, e, e, e]),
            Pattern([e, e, e, e, e, e, x, x, x]),
            Pattern([x, e, e, x, e, e, x, e, e]),
            Pattern([e, x, e, e, x, e, e, x, e]),
            Pattern([e, e, x, e, e, x, e, e, x]),
            Pattern([x, e, e, e, x, e, e, e, x]),
            Pattern([e, e, x, e, x, e, x, e, e]),
        ];
        proof {
            assert(templates@[0]@ =~= line_template(0, x));
            assert(templates@[1]@ =~= line_template(1, x));
            assert(templates@[2]@ =~= line_template(2, x));
            assert(templates@[3]@ =~= line_template(3, x));
            assert(templates@[4]@ =~= line_template(4, x));
            assert(templates@[5]@ =~= line_template(5, x));
            assert(templates@[6]@ =~= line_template(6, x));
            assert(templates@[7]@ =~= line_template(7, x));
        }
        templates
    }

    /// The eight grids that each hold a full line of Dot and nothing else.
    pub fn winning_patterns_dot() -> (templates: [Pattern; 8])
        ensures
            forall|k: int| 0 <= k < 8 ==> (#[trigger] templates@[k])@ == line_template(k, Piece::Dot),
    {
        let o = Piece::Dot;
        let e = Piece::Empty;
        let templates = [
            Pattern([o, o, o, e, e, e, e, e, e]),
            Pattern([e, e, e, o, o, o, e, e, e]),
            Pattern([e, e, e, e, e, e, o, o, o]),
            Pattern([o, e, e, o, e, e, o, e, e]),
            Pattern([e, o, e, e, o, e, e, o, e]),
            Pattern([e, e, o, e, e, o, e, e, o]),
            Pattern([o, e, e, e, o, e, e, e, o]),
            Pattern([e, e, o, e, o, e, o, e, e]),
        ];
        proof {
            assert(templates@[0]@ =~= line_template(0, o));
            assert(templates@[1]@ =~= line_template(1, o));
            assert(templates@[2]@ =~= line_template(2, o));
            assert(templates@[3]@ =~= line_template(3, o));
            assert(templates@[4]@ =~= line_template(4, o));
            assert(templates@[5]@ =~= line_template(5, o));
            assert(templates@[6]@ =~= line_template(6, o));
            assert(templates@[7]@ =~= line_template(7, o));
        }
        templates
    }

    /// A cursor over the cells in index order, each with its place.
    pub fn enumerate(&self) -> (cells: EnumeratePattern<'_>)
        ensures
            cells.cells() == self@,
            cells.position() == 0,
    {
        EnumeratePattern::new(self)
    }

    /// Whether this pattern holds every piece that `pattern` asks for: the
    /// same piece wherever `pattern` is not empty.
    pub fn contains(&self, pattern: Pattern) -> (contained: bool)
        ensures
            contained == covers(self@, pattern@),
    {
        let mut i: usize = 0;
        while i < 9
            invariant
                i <= 9,
                forall|k: int|
                    0 <= k < i && pattern@[k] != Piece::Empty ==> self@[k] == pattern@[k],
            decreases 9 - i,
        {
            let expected = pattern.0[i];
            let found = self.0[i];
            let missing = match expected {
                Piece::Cross => found != Piece::Cross,
                Piece::Dot => found != Piece::Dot,
                Piece::Empty => false,
            };
            if missing {
                return false;
            }
            i += 1;
        }
        true
    }

    /// Whether this pattern covers one of the eight templates.
    fn contains_any(&self, templates: &[Pattern; 8]) -> (found: bool)
        ensures
            found == exists|k: int| 0 <= k < 8 && covers(self@, (#[trigger] templates@[k])@),
    {
        let mut k: usize = 0;
        while k < 8
            invariant
                k <= 8,
                forall|j: int| 0 <= j < k ==> !covers(self@, (#[trigger] templates@[j])@),
            decreases 8 - k,
        {
            if self.contains(templates[k]) {
                return true;
            }
            k += 1;
        }
        false
    }

    /// Whether the pattern has a winner: Cross if Cross holds one of the
    /// eight lines, else Dot if Dot holds one, else nobody.
    pub fn state(&self) -> (state: PatternState)
        ensures
            state == pattern_state(self@),
    {
        let cross = Pattern::winning_patterns_cross();
        let cross_won = self.contains_any(&cross);
        proof {
            lemma_has_line_by_template(self@, Piece::Cross);
            if cross_won {
                let k = choose|k: int| 0 <= k < 8 && covers(self@, (#[trigger] cross@[k])@);
                assert(covers(self@, line_template(k, Piece::Cross)));
            } else {
                assert forall|k: int| 0 <= k < 8 implies !covers(
                    self@,
                    #[trigger] line_template(k, Piece::Cross),
                ) by {
                    assert(cross@[k]@ == line_template(k, Piece::Cross));
                }
            }
        }
        if cross_won {
            return PatternState::Won(Player::Cross);
        }
        let dot = Pattern::winning_patterns_dot();
        let dot_won = self.contains_any(&dot);
        proof {
            lemma_has_line_by_template(self@, Piece::Dot);
            if dot_won {
                let k = choose|k: int| 0 <= k < 8 && covers(self@, (#[trigger] dot@[k])@);
                assert(covers(self@, line_template(k, Piece::Dot)));
            } else {
                assert forall|k: int| 0 <= k < 8 implies !covers(
                    self@,
                    #[trigger] line_template(k, Piece::Dot),
                ) by {
                    assert(dot@[k]@ == line_template(k, Piece::Dot));
                }
            }
        }
        if dot_won {
            return PatternState::Won(Player::Dot);
        }
        PatternState::Undecided
    }

    /// The places whose cell holds `piece`, in index order.
    pub fn spots(&self, piece: Piece) -> (spots: Vec<Place>)
        ensures
            spots@ == places_holding(self@, piece),
            spots@.len() == count_of(self@, piece),
            spots@.len() <= 9,
            forall|i: int, j: int|
                0 <= i < j < spots@.len() ==> (#[trigger] spots@[i]).to_index() < (
                #[trigger] spots@[j]).to_index(),
            forall|place: Place|
                #![trigger spots@.contains(place)]
                spots@.contains(place) <==> self@[place.to_index() as int] == piece,
    {
        let mut spots: Vec<Place> = Vec::new();
        let mut i: usize = 0;
        while i < 9
            invariant
                i <= 9,
                spots@ == places_holding_below(self@, piece, i as int),
            decreases 9 - i,
        {
            if self.0[i] == piece {
                spots.push(Place::from_index(i));
            }
            i += 1;
        }
        proof {
            lemma_places_holding_count(self@, piece, 9);
            lemma_places_holding_below(self@, piece, 9);
        }
        spots
    }

    /// The places whose cell is empty, in index order.
    pub fn free_spots(&self) -> (spots: Vec<Place>)
        ensures
            spots@ == free_places(self@),
            spots@.len() == count_of(self@, Piece::Empty),
            spots@.len() <= 9,
            spots@.no_duplicates(),
            forall|i: int, j: int|
                0 <= i < j < spots@.len() ==> (#[trigger] spots@[i]).to_index() < (
                #[trigger] spots@[j]).to_index(),
            forall|place: Place|
                #![trigger spots@.contains(place)]
                spots@.contains(place) <==> self@[place.to_index() as int] == Piece::Empty,
    {
        proof {
            lemma_free_places(self@);
        }
        self.spots(Piece::Empty)
    }

    /// Whether the pattern has a winner once the piece of `player` stands on
    /// `square`. The pattern itself stays as it is. The winner need not be
    /// `player`.
    pub fn wins(&self, square: Place, player: Player) -> (wins: bool)
        ensures
            wins == wins_at(self@, square, player),
    {
        let mut new_pattern = *self;
        *new_pattern.piece_mut(square) = player.to_piece();
        matches!(new_pattern.state(), PatternState::Won(_))
    }

    /// Whether the pattern has a winner once the opponent of `player` stands
    /// on `square`.
    pub fn blocks(&self, square: Place, player: Player) -> (blocks: bool)
        ensures
            blocks == blocks_at(self@, square, player),
    {
        self.wins(square, player.opposite())
    }
}

/// A cursor that walks the cells of a pattern in index order.
pub struct EnumeratePattern<'a> {
    pattern: &'a Pattern,
    index: usize,
}

impl<'a> EnumeratePattern<'a> {
    /// The cells of the pattern that the cursor walks.
    pub closed spec fn cells(&self) -> Seq<Piece> {
        self.pattern@
    }

    /// How many cells the cursor has handed out.
    pub closed spec fn position(&self) -> int {
        self.index as int
    }

    /// A cursor at the first cell of a pattern.
    pub fn new(pattern: &'a Pattern) -> (cells: EnumeratePattern<'a>)
        ensures
            cells.cells() == pattern@,
            cells.position() == 0,
    {
        EnumeratePattern { pattern, index: 0 }
    }

    /// Hands out the next cell with its place and moves on, or `None` once
    /// all nine cells have been handed out.
    pub fn next(&mut self) -> (item: Option<(Place, &'a Piece)>)
        ensures
            final(self).cells() == old(self).cells(),
            match item {
                Some((place, piece)) => {
                    &&& old(self).position() < 9
                    &&& place.to_index() == old(self).position()
                    &&& *piece == old(self).cells()[old(self).position()]
                    &&& final(self).position() == old(self).position() + 1
                },
                None => {
                    &&& old(self).position() >= 9
                    &&& final(self).position() == old(self).position()
                },
            },
    {
        if self.index < 9 {
            let place = Place::from_index(self.index);
            let piece = self.pattern.piece(place);
            self.index += 1;
            Some((place, piece))
        } else {
            None
        }
    }
}

} // verus!
