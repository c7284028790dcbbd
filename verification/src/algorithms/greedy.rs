//! The greedy chooser.
//!
//! It takes, in this order of preference:
//! * a move into a subboard whose winning would win the game;
//! * a move into a subboard whose loss would lose the game;
//! * a move that wins a subboard;
//! * a move that keeps the opponent from winning a subboard;
//! * any move.
//!
//! Of the moves that win the game or keep it, the first is taken. Of those
//! that win or keep a subboard, the first into the most central subboard.
//! Of all moves, the first into the most central subboard and, within it,
//! onto the most central square. The center is more central than a corner,
//! and a corner more than an edge.

use std::cmp::Ordering;
use vstd::prelude::*;

use crate::algorithms::{any_move, is_pick, lemma_pick_at, lemma_pick_none, pick};
use crate::utils::board_state::{BoardState, BoardView};
use crate::utils::pattern::{blocks_at, wins_at};
use crate::utils::{Centeredness, Move, Place, Spot, SubboardView};

verus! {

/// The rank of a position as a number: the higher, the more central.
pub open spec fn rank(centeredness: Centeredness) -> int {
    match centeredness {
        Centeredness::Center => 2,
        Centeredness::Corner => 1,
        Centeredness::Edge => 0,
    }
}

/// How the first place compares to the second by rank.
pub open spec fn centeredness_ordering(place1: Place, place2: Place) -> Ordering {
    if rank(place1.centeredness()) < rank(place2.centeredness()) {
        Ordering::Less
    } else if rank(place1.centeredness()) == rank(place2.centeredness()) {
        Ordering::Equal
    } else {
        Ordering::Greater
    }
}

/// Keeps the moves into a subboard that, won by the player to move, wins
/// the game.
pub open spec fn wins_game(state: BoardView) -> spec_fn(Spot) -> bool {
    |spot: Spot| wins_at(state.subboard_pattern(), spot.subboard, state.turn)
}

/// Keeps the moves into a subboard that, won by the opponent, loses the
/// game.
pub open spec fn blocks_game(state: BoardView) -> spec_fn(Spot) -> bool {
    |spot: Spot| blocks_at(state.subboard_pattern(), spot.subboard, state.turn)
}

/// Keeps the moves into an active subboard that give that subboard a
/// winner.
pub open spec fn wins_subboard(state: BoardView) -> spec_fn(Spot) -> bool {
    |spot: Spot|
        state.board[spot.subboard.to_index() as int] matches SubboardView::Active(cells)
            && wins_at(cells, spot.square, state.turn)
}

/// Keeps the moves into an active subboard onto a square with which the
/// opponent would give that subboard a winner.
pub open spec fn blocks_subboard(state: BoardView) -> spec_fn(Spot) -> bool {
    |spot: Spot|
        state.board[spot.subboard.to_index() as int] matches SubboardView::Active(cells)
            && blocks_at(cells, spot.square, state.turn)
}

/// Gives every move the same key, so that the first kept move is picked.
pub open spec fn in_order() -> spec_fn(Spot) -> int {
    |spot: Spot| 0
}

/// Orders moves by the rank of their subboard.
pub open spec fn by_subboard() -> spec_fn(Spot) -> int {
    |spot: Spot| rank(spot.subboard.centeredness())
}

/// Orders moves by the rank of their subboard, and moves into subboards of
/// one rank by the rank of their square.
pub open spec fn by_subboard_then_square() -> spec_fn(Spot) -> int {
    |spot: Spot| 3 * rank(spot.subboard.centeredness()) + rank(spot.square.centeredness())
}

/// The move that the greedy chooser takes, or `None` where there is no
/// eligible move.
pub open spec fn greedy_choice(state: BoardView) -> Option<Spot> {
    let moves = state.eligible_moves();
    if pick(moves, wins_game(state), in_order()) is Some {
        pick(moves, wins_game(state), in_order())
    } else if pick(moves, blocks_game(state), in_order()) is Some {
        pick(moves, blocks_game(state), in_order())
    } else if pick(moves, wins_subboard(state), by_subboard()) is Some {
        pick(moves, wins_subboard(state), by_subboard())
    } else if pick(moves, blocks_subboard(state), by_subboard()) is Some {
        pick(moves, blocks_subboard(state), by_subboard())
    } else {
        pick(moves, any_move(), by_subboard_then_square())
    }
}

/// Whether every one of the moves goes into an active subboard.
pub open spec fn into_active_subboards(state: BoardView, moves: Seq<Spot>) -> bool {
    forall|i: int|
        0 <= i < moves.len() ==> state.board[(#[trigger] moves[i]).subboard.to_index() as int] is Active
}

/// Chooses a move by the preferences of the greedy chooser. The state must
/// offer a move.
pub fn greedy(board_state: &BoardState) -> (chosen: Move<'_>)
    requires
        board_state@.eligible_moves().len() > 0,
    ensures
        Some(chosen@) == greedy_choice(board_state@),
        board_state@.allows(chosen@),
{
    let eligible_moves = board_state.eligible_moves();
    proof {
        board_state.lemma_wf();
        board_state@.lemma_eligible_moves();
    }
    let first_winning_move = first_decisive_move(board_state, &eligible_moves, false);
    if let Some(winning_move) = first_winning_move {
        return winning_move;
    }
    let first_win_blocking_move = first_decisive_move(board_state, &eligible_moves, true);
    if let Some(blocking_move) = first_win_blocking_move {
        return blocking_move;
    }
    let best_subboard_winning_move = best_subboard_winning_move(board_state, &eligible_moves);
    if let Some(move_) = best_subboard_winning_move {
        return move_;
    }
    let best_subboard_blocking_move = best_subboard_blocking_move(board_state, &eligible_moves);
    if let Some(move_) = best_subboard_blocking_move {
        return move_;
    }
    let best_centermost_square_move = best_centermost_square_move(&eligible_moves);
    match best_centermost_square_move {
        Some(move_) => move_,
        None => vstd::pervasive::unreached(),
    }
}

/// The first of the moves into a subboard that decides the game: one that
/// the player to move must win to win the game, or, when `blocking`, one
/// that the opponent must win.
fn first_decisive_move<'a>(
    board_state: &'a BoardState,
    eligible_moves: &Vec<Move<'a>>,
    blocking: bool,
) -> (first: Option<Move<'a>>)
    ensures
        first.deep_view() == pick(
            eligible_moves.deep_view(),
            if blocking {
                blocks_game(board_state@)
            } else {
                wins_game(board_state@)
            },
            in_order(),
        ),
        first matches Some(move_) ==> eligible_moves.deep_view().contains(move_@),
{
    let subboard_pattern = board_state.subboard_pattern();
    let turn = board_state.turn();
    let ghost moves = eligible_moves.deep_view();
    let ghost keep = if blocking {
        blocks_game(board_state@)
    } else {
        wins_game(board_state@)
    };
    let mut i: usize = 0;
    while i < eligible_moves.len()
        invariant
            i <= eligible_moves.len(),
            moves == eligible_moves.deep_view(),
            moves.len() == eligible_moves.len(),
            subboard_pattern@ == board_state@.subboard_pattern(),
            turn == board_state@.turn,
            keep == if blocking {
                blocks_game(board_state@)
            } else {
                wins_game(board_state@)
            },
            forall|j: int| 0 <= j < i ==> !keep(#[trigger] moves[j]),
        decreases eligible_moves.len() - i,
    {
        let move_ = eligible_moves[i];
        assert(moves[i as int] == move_@);
        let decisive = if blocking {
            subboard_pattern.blocks(move_.subboard(), turn)
        } else {
            subboard_pattern.wins(move_.subboard(), turn)
        };
        if decisive {
            proof {
                assert(is_pick(moves, keep, in_order(), i as int));
                lemma_pick_at(moves, keep, in_order(), i as int);
            }
            return Some(move_);
        }
        i += 1;
    }
    proof {
        lemma_pick_none(moves, keep, in_order());
    }
    None
}

/// Of the moves that decide their subboard, the first into the most central
/// subboard: a move that gives the subboard a winner, or, when `blocking`,
/// one onto a square with which the opponent would.
fn best_subboard_move<'a>(
    board_state: &'a BoardState,
    eligible_moves: &Vec<Move<'a>>,
    blocking: bool,
) -> (best: Option<Move<'a>>)
    requires
        into_active_subboards(board_state@, eligible_moves.deep_view()),
    ensures
        best.deep_view() == pick(
            eligible_moves.deep_view(),
            if blocking {
                blocks_subboard(board_state@)
            } else {
                wins_subboard(board_state@)
            },
            by_subboard(),
        ),
        best matches Some(move_) ==> eligible_moves.deep_view().contains(move_@),
{
    let turn = board_state.turn();
    let ghost moves = eligible_moves.deep_view();
    let ghost keep = if blocking {
        blocks_subboard(board_state@)
    } else {
        wins_subboard(board_state@)
    };
    let ghost key = by_subboard();
    let mut best: Option<Move<'a>> = None;
    let ghost mut at: int = 0;
    let mut i: usize = 0;
    while i < eligible_moves.len()
        invariant
            i <= eligible_moves.len(),
            moves == eligible_moves.deep_view(),
            moves.len() == eligible_moves.len(),
            into_active_subboards(board_state@, moves),
            turn == board_state@.turn,
            keep == if blocking {
                blocks_subboard(board_state@)
            } else {
                wins_subboard(board_state@)
            },
            key == by_subboard(),
            match best {
                None => forall|j: int| 0 <= j < i ==> !keep(#[trigger] moves[j]),
                Some(move_) => {
                    &&& 0 <= at < i
                    &&& move_@ == moves[at]
                    &&& keep(moves[at])
                    &&& forall|j: int|
                        0 <= j < i && keep(#[trigger] moves[j]) ==> key(moves[j]) <= key(moves[at])
                    &&& forall|j: int|
                        0 <= j < at && keep(#[trigger] moves[j]) ==> key(moves[j]) < key(moves[at])
                },
            },
        decreases eligible_moves.len() - i,
    {
        let move_ = eligible_moves[i];
        assert(moves[i as int] == move_@);
        let pattern = match board_state.pattern_if_active(move_.subboard()) {
            Some(pattern) => pattern,
            None => vstd::pervasive::unreached(),
        };
        let decisive = if blocking {
            pattern.blocks(move_.square(), turn)
        } else {
            pattern.wins(move_.square(), turn)
        };
        assert(decisive == keep(moves[i as int]));
        if decisive {
            let better = match best {
                None => true,
                Some(best_move) => more_central(move_.subboard(), best_move.subboard()),
            };
            if better {
                best = Some(move_);
                proof {
                    at = i as int;
                }
            }
        }
        i += 1;
    }
    proof {
        match best {
            None => lemma_pick_none(moves, keep, key),
            Some(_) => lemma_pick_at(moves, keep, key, at),
        }
    }
    best
}

/// Of the moves that give their subboard a winner, the first into the most
/// central subboard.
pub fn best_subboard_winning_move<'a>(
    board_state: &'a BoardState,
    eligible_moves: &Vec<Move<'a>>,
) -> (best: Option<Move<'a>>)
    requires
        into_active_subboards(board_state@, eligible_moves.deep_view()),
    ensures
        best.deep_view() == pick(
            eligible_moves.deep_view(),
            wins_subboard(board_state@),
            by_subboard(),
        ),
        best matches Some(move_) ==> eligible_moves.deep_view().contains(move_@),
{
    best_subboard_move(board_state, eligible_moves, false)
}

/// Of the moves onto a square with which the opponent would give the
/// subboard a winner, the first into the most central subboard.
pub fn best_subboard_blocking_move<'a>(
    board_state: &'a BoardState,
    eligible_moves: &Vec<Move<'a>>,
) -> (best: Option<Move<'a>>)
    requires
        into_active_subboards(board_state@, eligible_moves.deep_view()),
    ensures
        best.deep_view() == pick(
            eligible_moves.deep_view(),
            blocks_subboard(board_state@),
            by_subboard(),
        ),
        best matches Some(move_) ==> eligible_moves.deep_view().contains(move_@),
{
    best_subboard_move(board_state, eligible_moves, true)
}

/// The first of the moves into the most central subboard and, among those,
/// onto the most central square; `None` only where there is no move.
pub fn best_centermost_square_move<'a>(eligible_moves: &Vec<Move<'a>>) -> (best: Option<Move<'a>>)
    ensures
        best.deep_view() == pick(
            eligible_moves.deep_view(),
            any_move(),
            by_subboard_then_square(),
        ),
        best matches Some(move_) ==> eligible_moves.deep_view().contains(move_@),
        best is None <==> eligible_moves.len() == 0,
{
    let ghost moves = eligible_moves.deep_view();
    let ghost keep = any_move();
    let ghost key = by_subboard_then_square();
    let mut best: Option<Move<'a>> = None;
    let ghost mut at: int = 0;
    let mut i: usize = 0;
    while i < eligible_moves.len()
        invariant
            i <= eligible_moves.len(),
            moves == eligible_moves.deep_view(),
            moves.len() == eligible_moves.len(),
            keep == any_move(),
            key == by_subboard_then_square(),
            match best {
                None => i == 0,
                Some(move_) => {
                    &&& 0 <= at < i
                    &&& move_@ == moves[at]
                    &&& forall|j: int| 0 <= j < i ==> key(#[trigger] moves[j]) <= key(moves[at])
                    &&& forall|j: int| 0 <= j < at ==> key(#[trigger] moves[j]) < key(moves[at])
                },
            },
        decreases eligible_moves.len() - i,
    {
        let move_ = eligible_moves[i];
        assert(moves[i as int] == move_@);
        let better = match best {
            None => true,
            Some(best_move) => more_central_spot(&move_, &best_move),
        };
        if better {
            best = Some(move_);
            proof {
                at = i as int;
            }
        }
        i += 1;
    }
    proof {
        match best {
            None => lemma_pick_none(moves, keep, key),
            Some(_) => lemma_pick_at(moves, keep, key, at),
        }
    }
    best
}

/// Whether the first place ranks above the second.
fn more_central(place1: Place, place2: Place) -> (more: bool)
    ensures
        more == (rank(place1.centeredness()) > rank(place2.centeredness())),
{
    matches!(cmp_centeredness(place1, place2), Ordering::Greater)
}

/// Whether the first move goes into a subboard that ranks above that of
/// the second, or into one of the same rank onto a square that ranks above
/// that of the second.
fn more_central_spot(move1: &Move, move2: &Move) -> (more: bool)
    ensures
        more == (by_subboard_then_square()(move1@) > by_subboard_then_square()(move2@)),
{
    match cmp_centeredness(move1.subboard(), move2.subboard()) {
        Ordering::Greater => true,
        Ordering::Less => false,
        Ordering::Equal => matches!(
            cmp_centeredness(move1.square(), move2.square()),
            Ordering::Greater
        ),
    }
}

/// Compares two places by rank: the center ranks above a corner, a corner
/// above an edge.
pub fn cmp_centeredness(place1: Place, place2: Place) -> (ordering: Ordering)
    ensures
        ordering == centeredness_ordering(place1, place2),
{
    match (place1.centeredness(), place2.centeredness()) {
        (Centeredness::Center, Centeredness::Center) => Ordering::Equal,
        (Centeredness::Center, _) => Ordering::Greater,
        (Centeredness::Corner, Centeredness::Corner) => Ordering::Equal,
        (Centeredness::Corner, Centeredness::Edge) => Ordering::Greater,
        (Centeredness::Edge, Centeredness::Edge) => Ordering::Equal,
        _ => Ordering::Less,
    }
}

} // verus!
