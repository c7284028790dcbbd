//! Positions written as text: reading them for fixtures, and writing them
//! for display.
//!
//! A cell is written as one character, its mark: `X` for Cross, `O` for Dot
//! and a space for an empty cell.

use vstd::prelude::*;
use vstd::string::StringExecFns;

use crate::utils::board_state::{BoardState, BoardView};
use crate::utils::pattern::{cells_of_raw, Pattern};
use crate::utils::raw::{RawActiveSubBoard, RawBoardState, RawPiece, RawTurn};
use crate::utils::{Move, Piece, Place, Player, Spot, Subboard, SubboardView};

verus! {

/// The mark of a piece.
pub open spec fn piece_mark(piece: Piece) -> char {
    match piece {
        Piece::Cross => 'X',
        Piece::Dot => 'O',
        Piece::Empty => ' ',
    }
}

/// The mark of a player: that of the piece that the player places.
pub open spec fn player_mark(player: Player) -> char {
    piece_mark(player.to_piece())
}

/// Whether a character is the mark of a piece.
pub open spec fn is_mark(character: char) -> bool {
    character == 'X' || character == 'O' || character == ' '
}

/// The piece that a mark stands for.
pub open spec fn piece_of_mark(mark: char) -> Piece {
    if mark == 'X' {
        Piece::Cross
    } else if mark == 'O' {
        Piece::Dot
    } else {
        Piece::Empty
    }
}

/// The cell of a snapshot that a mark stands for.
pub open spec fn raw_piece_of_mark(mark: char) -> RawPiece {
    if mark == 'X' {
        RawPiece::Cross
    } else if mark == 'O' {
        RawPiece::Dot
    } else {
        RawPiece::Empty
    }
}

/// Whether a text is a single mark.
pub open spec fn is_mark_text(text: Seq<char>) -> bool {
    text.len() == 1 && is_mark(text[0])
}

/// The text `cross`.
pub open spec fn cross_name() -> Seq<char> {
    seq!['c', 'r', 'o', 's', 's']
}

/// The text `dot`.
pub open spec fn dot_name() -> Seq<char> {
    seq!['d', 'o', 't']
}

/// Every other character of a text, from the first on.
pub open spec fn every_other(text: Seq<char>) -> Seq<char> {
    Seq::new(((text.len() + 1) / 2) as nat, |i: int| text[2 * i])
}

/// The characters that the first `n` rows of a pattern written as text
/// give: of each row every other character, row after row.
pub open spec fn pattern_marks_below(matrix: Seq<&str>, n: int) -> Seq<char>
    decreases n,
{
    if n <= 0 {
        Seq::empty()
    } else {
        pattern_marks_below(matrix, n - 1) + every_other(matrix[n - 1]@)
    }
}

/// The characters that a pattern written as three rows of text gives.
pub open spec fn pattern_marks(matrix: Seq<&str>) -> Seq<char> {
    pattern_marks_below(matrix, 3)
}

/// The pieces that marks stand for, mark by mark.
pub open spec fn pieces_of_marks(marks: Seq<char>) -> Seq<Piece> {
    Seq::new(marks.len(), |i: int| piece_of_mark(marks[i]))
}

/// The first `n` rows of a text, one after the other.
pub open spec fn joined_below(matrix: Seq<&str>, n: int) -> Seq<char>
    decreases n,
{
    if n <= 0 {
        Seq::empty()
    } else {
        joined_below(matrix, n - 1) + matrix[n - 1]@
    }
}

/// Of the first `n` characters of a text, in order, those that stand at an
/// even place within their run of 17 characters. A row of the board is
/// written as 17 characters: three groups of three marks, with one
/// character after each mark but the last.
pub open spec fn sampled_below(text: Seq<char>, n: int) -> Seq<char>
    decreases n,
{
    if n <= 0 {
        Seq::empty()
    } else if ((n - 1) % 17) % 2 == 0 {
        sampled_below(text, n - 1).push(text[n - 1])
    } else {
        sampled_below(text, n - 1)
    }
}

/// The characters that a board written as nine rows of text gives.
pub open spec fn board_marks(matrix: Seq<&str>) -> Seq<char> {
    sampled_below(joined_below(matrix, 9), joined_below(matrix, 9).len() as int)
}

/// Where among the characters of a board the mark of a cell stands. The
/// text goes row by row over the whole board, nine marks to a row.
pub open spec fn mark_index(subboard: int, cell: int) -> int {
    (subboard % 3) * 3 + (subboard / 3) * 27 + (cell / 3) * 9 + (cell % 3)
}

/// The cells of one subboard, read from the characters of a board.
pub open spec fn board_cells(marks: Seq<char>, subboard: int) -> Seq<Piece> {
    Seq::new(9, |cell: int| piece_of_mark(marks[mark_index(subboard, cell)]))
}

/// What is sampled from the first `n` characters of a text depends on
/// those characters only.
pub proof fn lemma_sampled_below_prefix(text: Seq<char>, other: Seq<char>, n: int)
    requires
        forall|i: int| 0 <= i < n ==> text[i] == other[i],
    ensures
        sampled_below(text, n) == sampled_below(other, n),
    decreases n,
{
    if n > 0 {
        lemma_sampled_below_prefix(text, other, n - 1);
    }
}

impl Pattern {
    /// Reads a pattern from three rows of text. Of each row every other
    /// character counts, from the first on; together they are the marks of
    /// the nine cells.
    pub fn dbg_from_matrix(matrix: [&str; 3]) -> (pattern: Pattern)
        requires
            pattern_marks(matrix@).len() == 9,
            forall|i: int| 0 <= i < 9 ==> is_mark(#[trigger] pattern_marks(matrix@)[i]),
        ensures
            pattern@ == pieces_of_marks(pattern_marks(matrix@)),
    {
        let ghost marks = pattern_marks(matrix@);
        let mut inner = [RawPiece::Empty;9];
        let mut count: usize = 0;
        let mut row: usize = 0;
        while row < 3
            invariant
                row <= 3,
                marks == pattern_marks(matrix@),
                marks.len() == 9,
                forall|i: int| 0 <= i < 9 ==> is_mark(#[trigger] marks[i]),
                count == pattern_marks_below(matrix@, row as int).len(),
                count <= 9,
                forall|i: int| 0 <= i < count ==> marks[i] == pattern_marks_below(matrix@, row as int)[i],
                forall|i: int| 0 <= i < count ==> #[trigger] inner@[i] == raw_piece_of_mark(marks[i]),
            decreases 3 - row,
        {
            let text = matrix[row];
            let length = text.unicode_len();
            let ghost before = pattern_marks_below(matrix@, row as int);
            let ghost here = every_other(text@);
            proof {
                assert(pattern_marks_below(matrix@, row + 1) == before + here);
                if row == 0 {
                    assert(pattern_marks_below(matrix@, 3) == pattern_marks_below(matrix@, 2)
                        + every_other(matrix@[2]@));
                    assert(pattern_marks_below(matrix@, 2) == pattern_marks_below(matrix@, 1)
                        + every_other(matrix@[1]@));
                } else if row == 1 {
                    assert(pattern_marks_below(matrix@, 3) == pattern_marks_below(matrix@, 2)
                        + every_other(matrix@[2]@));
                }
                assert(before.len() + here.len() <= 9);
                assert forall|i: int| 0 <= i < before.len() + here.len() implies marks[i] == (before
                    + here)[i] by {
                    if row == 0 {
                        assert(marks == (before + here) + every_other(matrix@[1]@) + every_other(
                            matrix@[2]@,
                        ));
                    } else if row == 1 {
                        assert(marks == (before + here) + every_other(matrix@[2]@));
                    }
                }
            }
            let marks_here = length / 2 + length % 2;
            let mut k: usize = 0;
            while k < marks_here
                invariant
                    row < 3,
                    length == text@.len(),
                    marks_here == here.len(),
                    k <= marks_here,
                    here == every_other(text@),
                    marks.len() == 9,
                    before.len() + here.len() <= 9,
                    forall|i: int| 0 <= i < 9 ==> is_mark(#[trigger] marks[i]),
                    forall|i: int|
                        0 <= i < before.len() + here.len() ==> marks[i] == (before + here)[i],
                    count == before.len() + k,
                    forall|i: int|
                        0 <= i < count ==> #[trigger] inner@[i] == raw_piece_of_mark(marks[i]),
                decreases marks_here - k,
            {
                let column = 2 * k;
                let character = text.substring_char(column, column + 1);
                proof {
                    assert(here[k as int] == text@[2 * k]);
                    assert((before + here)[count as int] == here[k as int]);
                    assert(character@ =~= seq![text@[column as int]]);
                    assert(is_mark(marks[count as int]));
                }
                inner[count] = RawPiece::dbg_from_character(character);
                count += 1;
                k += 1;
            }
            row += 1;
        }
        let pattern = Pattern::from_raw(inner);
        assert(pattern@ =~= pieces_of_marks(marks));
        pattern
    }
}

impl BoardState {
    /// Reads a board from nine rows of text, the number of the subboard
    /// that may be played in (-1 for all of them), and the name of the
    /// player to move, `cross` or `dot`. The rows are read as one text, of
    /// which the characters at an even place within their run of 17 count;
    /// the first 81 of them are the marks of the cells, row by row over the
    /// whole board.
    pub fn dbg_from_matrix(matrix: [&str; 9], active_subboard: i32, turn: &str) -> (state:
        BoardState)
        requires
            board_marks(matrix@).len() >= 81,
            forall|i: int| 0 <= i < 81 ==> is_mark(#[trigger] board_marks(matrix@)[i]),
            -1 <= active_subboard <= 8,
            turn@ == cross_name() || turn@ == dot_name(),
        ensures
            state@.turn == if turn@ == cross_name() {
                Player::Cross
            } else {
                Player::Dot
            },
            state@.board.len() == 9,
            forall|i: int|
                0 <= i < 9 ==> #[trigger] state@.board[i] == SubboardView::from_cells(
                    board_cells(board_marks(matrix@), i),
                    active_subboard == -1 || active_subboard == i,
                ),
    {
        let ghost marks = board_marks(matrix@);
        let mut board = String::new();
        let mut phase: usize = 0;
        let mut row: usize = 0;
        while row < 9
            invariant
                row <= 9,
                phase < 17,
                phase == joined_below(matrix@, row as int).len() % 17,
                board@ == sampled_below(
                    joined_below(matrix@, row as int),
                    joined_below(matrix@, row as int).len() as int,
                ),
            decreases 9 - row,
        {
            let text = matrix[row];
            let length = text.unicode_len();
            let ghost before = joined_below(matrix@, row as int);
            let mut column: usize = 0;
            assert(before + text@.take(0) =~= before);
            while column < length
                invariant
                    column <= length,
                    length == text@.len(),
                    phase < 17,
                    phase == (before + text@.take(column as int)).len() % 17,
                    board@ == sampled_below(
                        before + text@.take(column as int),
                        (before + text@.take(column as int)).len() as int,
                    ),
                decreases length - column,
            {
                let ghost read = before + text@.take(column as int);
                let ghost next = before + text@.take(column + 1);
                proof {
                    assert(next =~= read.push(text@[column as int]));
                    lemma_sampled_below_prefix(next, read, read.len() as int);
                }
                if phase % 2 == 0 {
                    let character = text.substring_char(column, column + 1);
                    assert(character@ =~= seq![text@[column as int]]);
                    board.append(character);
                    assert(board@ =~= sampled_below(next, next.len() as int));
                }
                phase = if phase == 16 {
                    0
                } else {
                    phase + 1
                };
                column += 1;
            }
            assert(before + text@.take(column as int) =~= joined_below(matrix@, row + 1));
            row += 1;
        }
        assert(board@ == marks);
        let mut raw_board = [[RawPiece::Empty;9];9];
        let mut i: usize = 0;
        while i < 9
            invariant
                i <= 9,
                board@ == marks,
                marks.len() >= 81,
                forall|k: int| 0 <= k < 81 ==> is_mark(#[trigger] marks[k]),
                forall|s: int|
                    0 <= s < i ==> cells_of_raw((#[trigger] raw_board@[s])@) == board_cells(marks, s),
            decreases 9 - i,
        {
            let mut cells = [RawPiece::Empty;9];
            let mut j: usize = 0;
            while j < 9
                invariant
                    i < 9,
                    j <= 9,
                    board@ == marks,
                    marks.len() >= 81,
                    forall|k: int| 0 <= k < 81 ==> is_mark(#[trigger] marks[k]),
                    forall|c: int|
                        0 <= c < j ==> #[trigger] cells@[c] == raw_piece_of_mark(
                            marks[mark_index(i as int, c)],
                        ),
                decreases 9 - j,
            {
                let index = (i % 3) * 3 + (i / 3) * 27 + (j / 3) * 9 + (j % 3);
                assert(index == mark_index(i as int, j as int));
                assert(index < 81);
                let character = board.as_str().substring_char(index, index + 1);
                assert(character@ =~= seq![marks[index as int]]);
                cells[j] = RawPiece::dbg_from_character(character);
                j += 1;
            }
            raw_board[i] = cells;
            assert(cells_of_raw(cells@) =~= board_cells(marks, i as int));
            i += 1;
        }
        let raw_board_state = RawBoardState {
            board: raw_board,
            active_subboard: RawActiveSubBoard::dbg_from_i32(active_subboard),
            turn: RawTurn::dbg_from_character(turn),
        };
        BoardState::from_raw(raw_board_state)
    }
}

/// The mark that shows a cell of the board as a whole, by its row and
/// column among the nine rows and nine columns of cells: for a cell of a
/// won subboard the mark of the winner, and otherwise the mark of the
/// piece that the cell holds.
pub open spec fn board_mark(state: BoardView, row: int, column: int) -> char {
    match state.board[(row / 3) * 3 + column / 3] {
        SubboardView::Won(player) => player_mark(player),
        SubboardView::Active(cells) => piece_mark(cells[(row % 3) * 3 + column % 3]),
        SubboardView::Inactive(cells) => piece_mark(cells[(row % 3) * 3 + column % 3]),
    }
}

/// Whether the rows are nine rows of nine texts.
pub open spec fn is_grid(rows: Seq<Vec<String>>) -> bool {
    &&& rows.len() == 9
    &&& forall|row: int| 0 <= row < 9 ==> (#[trigger] rows[row])@.len() == 9
}

/// Whether the cell in the given row and column belongs to the subboard
/// with the given index.
pub open spec fn in_subboard(subboard_index: int, row: int, column: int) -> bool {
    row / 3 == subboard_index / 3 && column / 3 == subboard_index % 3
}

impl BoardState {
    /// The board as nine rows of nine marks, each mark a text of its own.
    pub fn dbg_rows(&self) -> (rows: Vec<Vec<String>>)
        ensures
            is_grid(rows@),
            forall|row: int, column: int|
                0 <= row < 9 && 0 <= column < 9 ==> (#[trigger] rows@[row]@[column])@
                    == seq![board_mark(self@, row, column)],
    {
        let mut rows: Vec<Vec<String>> = Vec::new();
        let mut row: usize = 0;
        while row < 9
            invariant
                row <= 9,
                rows@.len() == row,
                forall|r: int| 0 <= r < row ==> (#[trigger] rows@[r])@.len() == 9,
            decreases 9 - row,
        {
            let mut cells: Vec<String> = Vec::new();
            let mut column: usize = 0;
            while column < 9
                invariant
                    column <= 9,
                    cells@.len() == column,
                decreases 9 - column,
            {
                cells.push(Piece::Empty.dbg_character());
                column += 1;
            }
            rows.push(cells);
            row += 1;
        }
        let mut subboard_index: usize = 0;
        while subboard_index < 9
            invariant
                subboard_index <= 9,
                is_grid(rows@),
                forall|r: int, c: int|
                    0 <= r < 9 && 0 <= c < 9 && (r / 3) * 3 + c / 3 < subboard_index ==> (
                    #[trigger] rows@[r]@[c])@ == seq![board_mark(self@, r, c)],
            decreases 9 - subboard_index,
        {
            let ghost before = rows@;
            let subboard = self.subboard(Place::from_index(subboard_index));
            match subboard {
                Subboard::Won(player) => {
                    let mut k: usize = 0;
                    while k < 9
                        invariant
                            k <= 9,
                            subboard_index < 9,
                            is_grid(rows@),
                            is_grid(before),
                            forall|r: int, c: int|
                                0 <= r < 9 && 0 <= c < 9 ==> (#[trigger] rows@[r]@[c])@ == if in_subboard(
                                    subboard_index as int,
                                    r,
                                    c,
                                ) && (r % 3) * 3 + c % 3 < k {
                                    seq![player_mark(player)]
                                } else {
                                    before[r]@[c]@
                                },
                        decreases 9 - k,
                    {
                        let r = (subboard_index / 3) * 3 + k / 3;
                        let c = (subboard_index % 3) * 3 + k % 3;
                        rows[r][c] = player.dbg_character();
                        k += 1;
                    }
                },
                Subboard::Active(pattern) => {
                    proof {
                        pattern.lemma_len();
                    }
                    BoardState::dbg_add_pattern(pattern, &mut rows, subboard_index)
                },
                Subboard::Inactive(pattern) => {
                    proof {
                        pattern.lemma_len();
                    }
                    BoardState::dbg_add_pattern(pattern, &mut rows, subboard_index)
                },
            }
            assert forall|r: int, c: int|
                0 <= r < 9 && 0 <= c < 9 && (r / 3) * 3 + c / 3 < subboard_index + 1 implies (
            #[trigger] rows@[r]@[c])@ == seq![board_mark(self@, r, c)] by {
                if in_subboard(subboard_index as int, r, c) {
                    assert((r / 3) * 3 + c / 3 == subboard_index);
                } else {
                    assert((r / 3) * 3 + c / 3 != subboard_index);
                    assert(rows@[r]@[c]@ == before[r]@[c]@);
                }
            }
            subboard_index += 1;
        }
        rows
    }

    /// Writes the marks of a pattern into the cells of one subboard, and
    /// leaves the cells of the other subboards as they are.
    pub fn dbg_add_pattern(pattern: Pattern, rows: &mut Vec<Vec<String>>, subboard_index: usize)
        requires
            subboard_index < 9,
            is_grid(old(rows)@),
        ensures
            is_grid(final(rows)@),
            forall|row: int, column: int|
                0 <= row < 9 && 0 <= column < 9 ==> (#[trigger] final(rows)@[row]@[column])@
                    == if in_subboard(subboard_index as int, row, column) {
                    seq![piece_mark(pattern@[(row % 3) * 3 + column % 3])]
                } else {
                    old(rows)@[row]@[column]@
                },
    {
        let ghost before = rows@;
        let mut k: usize = 0;
        while k < 9
            invariant
                k <= 9,
                subboard_index < 9,
                is_grid(rows@),
                is_grid(before),
                forall|r: int, c: int|
                    0 <= r < 9 && 0 <= c < 9 ==> (#[trigger] rows@[r]@[c])@ == if in_subboard(
                        subboard_index as int,
                        r,
                        c,
                    ) && (r % 3) * 3 + c % 3 < k {
                        seq![piece_mark(pattern@[(r % 3) * 3 + c % 3])]
                    } else {
                        before[r]@[c]@
                    },
            decreases 9 - k,
        {
            let r = (subboard_index / 3) * 3 + k / 3;
            let c = (subboard_index % 3) * 3 + k % 3;
            rows[r][c] = pattern.piece(Place::from_index(k)).dbg_character();
            k += 1;
        }
    }
}

/// The name of a place.
pub open spec fn place_name(place: Place) -> Seq<char> {
    match place {
        Place::TopLeft => "TopLeft"@,
        Place::TopMid => "TopMid"@,
        Place::TopRight => "TopRight"@,
        Place::MidLeft => "MidLeft"@,
        Place::MidMid => "MidMid"@,
        Place::MidRight => "MidRight"@,
        Place::BotLeft => "BotLeft"@,
        Place::BotMid => "BotMid"@,
        Place::BotRight => "BotRight"@,
    }
}

/// The text of one decimal digit.
pub open spec fn digit_name(digit: nat) -> Seq<char> {
    if digit == 0 {
        "0"@
    } else if digit == 1 {
        "1"@
    } else if digit == 2 {
        "2"@
    } else if digit == 3 {
        "3"@
    } else if digit == 4 {
        "4"@
    } else if digit == 5 {
        "5"@
    } else if digit == 6 {
        "6"@
    } else if digit == 7 {
        "7"@
    } else if digit == 8 {
        "8"@
    } else {
        "9"@
    }
}

/// A number written in decimal digits.
pub open spec fn decimal(number: nat) -> Seq<char>
    decreases number,
{
    if number < 10 {
        digit_name(number)
    } else {
        decimal(number / 10) + digit_name(number % 10)
    }
}

/// A text, followed by as many spaces as it falls short of `width`
/// characters.
pub open spec fn padded(text: Seq<char>, width: nat) -> Seq<char> {
    if text.len() >= width {
        text
    } else {
        text + Seq::new((width - text.len()) as nat, |i: int| ' ')
    }
}

/// The line of text that shows a move: its number in the list, then the
/// names of its subboard and its square.
pub open spec fn move_line(index: nat, spot: Spot) -> Seq<char> {
    padded(decimal(index), 2) + ": subboard: "@ + padded(place_name(spot.subboard), 8)
        + ", square: "@ + padded(place_name(spot.square), 8)
}

/// A list of moves that can be shown as text.
#[allow(non_camel_case_types)]
pub trait dbg_MoveList<'a> {
    /// The cells that the moves of the list take, in order.
    spec fn dbg_spots(&self) -> Seq<Spot>;

    /// One line of text for each move of the list, in order.
    fn dbg_lines(&self) -> (lines: Vec<String>)
        ensures
            lines@.len() == self.dbg_spots().len(),
            forall|i: int|
                0 <= i < lines@.len() ==> (#[trigger] lines@[i])@ == move_line(
                    i as nat,
                    self.dbg_spots()[i],
                ),
    ;
}

impl<'a> dbg_MoveList<'a> for Vec<Move<'a>> {
    open spec fn dbg_spots(&self) -> Seq<Spot> {
        self.deep_view()
    }

    fn dbg_lines(&self) -> (lines: Vec<String>) {
        let mut lines: Vec<String> = Vec::new();
        let mut index: usize = 0;
        while index < self.len()
            invariant
                index <= self.len(),
                lines@.len() == index,
                forall|i: int|
                    0 <= i < index ==> (#[trigger] lines@[i])@ == move_line(
                        i as nat,
                        self.deep_view()[i],
                    ),
            decreases self.len() - index,
        {
            let move_ = self[index];
            assert(self.deep_view()[index as int] == move_@);
            let subboard = String::from_str(place_text(move_.subboard()));
            let square = String::from_str(place_text(move_.square()));
            let mut line = pad(decimal_text(index), 2);
            line.append(": subboard: ");
            line.append(pad(subboard, 8).as_str());
            line.append(", square: ");
            line.append(pad(square, 8).as_str());
            lines.push(line);
            index += 1;
        }
        lines
    }
}

/// The name of a place, as text.
fn place_text(place: Place) -> (text: &'static str)
    ensures
        text@ == place_name(place),
{
    match place {
        Place::TopLeft => "TopLeft",
        Place::TopMid => "TopMid",
        Place::TopRight => "TopRight",
        Place::MidLeft => "MidLeft",
        Place::MidMid => "MidMid",
        Place::MidRight => "MidRight",
        Place::BotLeft => "BotLeft",
        Place::BotMid => "BotMid",
        Place::BotRight => "BotRight",
    }
}

/// A number written in decimal digits, as text.
fn decimal_text(number: usize) -> (text: String)
    ensures
        text@ == decimal(number as nat),
    decreases number,
{
    let digit = match number % 10 {
        0 => "0",
        1 => "1",
        2 => "2",
        3 => "3",
        4 => "4",
        5 => "5",
        6 => "6",
        7 => "7",
        8 => "8",
        _ => "9",
    };
    if number < 10 {
        String::from_str(digit)
    } else {
        let mut text = decimal_text(number / 10);
        text.append(digit);
        text
    }
}

/// The text, followed by as many spaces as it falls short of `width`
/// characters.
fn pad(text: String, width: usize) -> (wide: String)
    ensures
        wide@ == padded(text@, width as nat),
{
    let length = text.as_str().unicode_len();
    let mut wide = text;
    let mut added: usize = 0;
    proof {
        reveal_strlit(" ");
    }
    if length >= width {
        return wide;
    }
    assert(wide@ =~= text@ + Seq::new(0, |i: int| ' '));
    while added < width - length
        invariant
            length < width,
            length == text@.len(),
            added <= width - length,
            wide@ == text@ + Seq::new(added as nat, |i: int| ' '),
        decreases width - length - added,
    {
        proof {
            reveal_strlit(" ");
        }
        wide.append(" ");
        added += 1;
        assert(wide@ =~= text@ + Seq::new(added as nat, |i: int| ' '));
    }
    wide
}

impl Piece {
    /// The mark of this piece, as a text of one character.
    pub fn dbg_character(&self) -> (character: String)
        ensures
            character@ == seq![piece_mark(*self)],
    {
        proof {
            reveal_strlit("X");
            reveal_strlit("O");
            reveal_strlit(" ");
        }
        let character = String::from_str(
            match self {
                Piece::Cross => "X",
                Piece::Dot => "O",
                Piece::Empty => " ",
            },
        );
        assert(character@ =~= seq![piece_mark(*self)]);
        character
    }

    /// The piece that a mark stands for. The text must be a single mark.
    pub fn dbg_from_character(char: &str) -> (piece: Piece)
        requires
            is_mark_text(char@),
        ensures
            piece == piece_of_mark(char@[0]),
    {
        if char.unicode_len() != 1 {
            vstd::pervasive::unreached()
        } else {
            let mark = char.get_char(0);
            if mark == 'X' {
                Piece::Cross
            } else if mark == 'O' {
                Piece::Dot
            } else if mark == ' ' {
                Piece::Empty
            } else {
                vstd::pervasive::unreached()
            }
        }
    }
}

impl Player {
    /// The mark of this player, as a text of one character.
    pub fn dbg_character(&self) -> (character: String)
        ensures
            character@ == seq![player_mark(*self)],
    {
        proof {
            reveal_strlit("X");
            reveal_strlit("O");
        }
        let character = String::from_str(
            match self {
                Player::Cross => "X",
                Player::Dot => "O",
            },
        );
        assert(character@ =~= seq![player_mark(*self)]);
        character
    }
}

impl RawTurn {
    /// The turn that a name stands for. The name must be `cross` or `dot`.
    pub fn dbg_from_character(character: &str) -> (turn: RawTurn)
        requires
            character@ == cross_name() || character@ == dot_name(),
        ensures
            turn == if character@ == cross_name() {
                RawTurn::Cross
            } else {
                RawTurn::Dot
            },
    {
        proof {
            reveal_strlit("cross");
            reveal_strlit("dot");
            assert("cross"@ =~= cross_name());
            assert("dot"@ =~= dot_name());
        }
        if same_text(character, "cross") {
            RawTurn::Cross
        } else if same_text(character, "dot") {
            RawTurn::Dot
        } else {
            vstd::pervasive::unreached()
        }
    }
}

impl RawActiveSubBoard {
    /// The selector that a number stands for: -1 for all subboards, 0 to 8
    /// for the one subboard with that index. No other number is taken.
    pub fn dbg_from_i32(number: i32) -> (active_subboard: RawActiveSubBoard)
        requires
            -1 <= number <= 8,
        ensures
            active_subboard.number() == number,
    {
        match number {
            -1 => RawActiveSubBoard::All,
            0 => RawActiveSubBoard::TopLeft,
            1 => RawActiveSubBoard::TopMid,
            2 => RawActiveSubBoard::TopRight,
            3 => RawActiveSubBoard::MidLeft,
            4 => RawActiveSubBoard::MidMid,
            5 => RawActiveSubBoard::MidRight,
            6 => RawActiveSubBoard::BotLeft,
            7 => RawActiveSubBoard::BotMid,
            8 => RawActiveSubBoard::BotRight,
            _ => vstd::pervasive::unreached(),
        }
    }
}

impl RawPiece {
    /// The cell of a snapshot that a mark stands for. The text must be a
    /// single mark.
    pub fn dbg_from_character(character: &str) -> (piece: RawPiece)
        requires
            is_mark_text(character@),
        ensures
            piece == raw_piece_of_mark(character@[0]),
    {
        if character.unicode_len() != 1 {
            vstd::pervasive::unreached()
        } else {
            let mark = character.get_char(0);
            if mark == 'X' {
                RawPiece::Cross
            } else if mark == 'O' {
                RawPiece::Dot
            } else if mark == ' ' {
                RawPiece::Empty
            } else {
                vstd::pervasive::unreached()
            }
        }
    }
}

/// Whether two texts hold the same characters.
fn same_text(text: &str, other: &str) -> (same: bool)
    ensures
        same == (text@ == other@),
{
    let length = text.unicode_len();
    if other.unicode_len() != length {
        return false;
    }
    let mut i: usize = 0;
    while i < length
        invariant
            i <= length,
            length == text@.len(),
            length == other@.len(),
            forall|k: int| 0 <= k < i ==> text@[k] == other@[k],
        decreases length - i,
    {
        if text.get_char(i) != other.get_char(i) {
            return false;
        }
        i += 1;
    }
    assert(text@ =~= other@);
    true
}

} // verus!
