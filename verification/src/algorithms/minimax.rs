//! The depth-bounded search.
//!
//! Every eligible move is tried, and the position that it leads to is
//! valued by looking a fixed number of plies ahead. The first of the moves
//! with the highest value is taken.

use vstd::prelude::*;

use crate::algorithms::{any_move, is_pick, lemma_pick_at, pick};
use crate::utils::board_state::{BoardState, BoardView};
use crate::utils::pattern::{count_of, lemma_count_below_bound, PatternState};
use crate::utils::{Move, Spot};

verus! {

/// How many plies the search looks ahead, the move to choose included.
pub const DEPTH_PLIES: u32 = 3;

/// The worth of a position to the player to move: 1000 where that player
/// has won the game, -1000 where the opponent has, and otherwise the number
/// of subboards that the player has won less the number that the opponent
/// has won.
pub open spec fn evaluation(state: BoardView) -> int {
    match state.state() {
        PatternState::Won(player) => if player == state.turn {
            1000
        } else {
            -1000
        },
        PatternState::Undecided => count_of(state.subboard_pattern(), state.turn.to_piece())
            - count_of(state.subboard_pattern(), state.turn.opposite().to_piece()),
    }
}

/// Whether the search from `state` over `depth_plies` plies never comes to
/// a position that is to be searched further, has no winner, and offers no
/// move.
pub open spec fn search_defined(state: BoardView, depth_plies: nat) -> bool
    decreases depth_plies,
{
    ||| depth_plies == 0
    ||| state.state() is Won
    ||| {
        &&& state.eligible_moves().len() > 0
        &&& forall|i: int|
            0 <= i < state.eligible_moves().len() ==> search_defined(
                state.after_move(#[trigger] state.eligible_moves()[i]),
                (depth_plies - 1) as nat,
            )
    }
}

/// The value of a position, searched over `depth_plies` plies. Where no
/// ply is left or the game has a winner, it is the worth of the position
/// to the player to move, negated unless `own_turn`. Otherwise it is the
/// highest value of the positions that the eligible moves lead to, each
/// searched over one ply less with `own_turn` flipped.
pub open spec fn search_value(state: BoardView, depth_plies: nat, own_turn: bool) -> int
    decreases depth_plies, 0nat,
{
    if depth_plies == 0 || state.state() is Won {
        if own_turn {
            evaluation(state)
        } else {
            -evaluation(state)
        }
    } else {
        best_reply_value(
            state,
            state.eligible_moves().len(),
            (depth_plies - 1) as nat,
            !own_turn,
        )
    }
}

/// The highest value of the positions that the first `n` eligible moves
/// lead to, each searched over `depth_plies` plies.
pub open spec fn best_reply_value(
    state: BoardView,
    n: nat,
    depth_plies: nat,
    own_turn: bool,
) -> int
    decreases depth_plies, n + 1,
{
    let last = search_value(
        state.after_move(state.eligible_moves()[n - 1]),
        depth_plies,
        own_turn,
    );
    if n <= 1 {
        last
    } else {
        let rest = best_reply_value(state, (n - 1) as nat, depth_plies, own_turn);
        if rest >= last {
            rest
        } else {
            last
        }
    }
}

/// The value that the search gives to each move from `state`: that of the
/// position it leads to, searched over the plies that are left, from the
/// opponent's side.
pub open spec fn reply_value(state: BoardView) -> spec_fn(Spot) -> int {
    |spot: Spot| search_value(state.after_move(spot), (DEPTH_PLIES - 1) as nat, false)
}

/// Whether the search can choose a move from `state`: there is an eligible
/// move, and the search is defined from every position that one leads to.
pub open spec fn minimax_defined(state: BoardView) -> bool {
    &&& state.eligible_moves().len() > 0
    &&& forall|i: int|
        0 <= i < state.eligible_moves().len() ==> search_defined(
            state.after_move(#[trigger] state.eligible_moves()[i]),
            (DEPTH_PLIES - 1) as nat,
        )
}

/// The move that the search takes: the first of the eligible moves with the
/// highest value.
pub open spec fn minimax_choice(state: BoardView) -> Option<Spot> {
    pick(state.eligible_moves(), any_move(), reply_value(state))
}

/// The highest value is the value of one of the first `n` moves, and none
/// of them has a higher one.
pub proof fn lemma_best_reply_value(state: BoardView, n: nat, depth_plies: nat, own_turn: bool)
    requires
        0 < n <= state.eligible_moves().len(),
    ensures
        exists|i: int|
            0 <= i < n && best_reply_value(state, n, depth_plies, own_turn) == search_value(
                state.after_move(#[trigger] state.eligible_moves()[i]),
                depth_plies,
                own_turn,
            ),
        forall|i: int|
            0 <= i < n ==> search_value(
                state.after_move(#[trigger] state.eligible_moves()[i]),
                depth_plies,
                own_turn,
            ) <= best_reply_value(state, n, depth_plies, own_turn),
    decreases n,
{
    let moves = state.eligible_moves();
    let last = search_value(state.after_move(moves[n - 1]), depth_plies, own_turn);
    if n > 1 {
        lemma_best_reply_value(state, (n - 1) as nat, depth_plies, own_turn);
        let rest = best_reply_value(state, (n - 1) as nat, depth_plies, own_turn);
        if rest >= last {
            let i = choose|i: int|
                0 <= i < n - 1 && rest == search_value(
                    state.after_move(#[trigger] moves[i]),
                    depth_plies,
                    own_turn,
                );
            assert(best_reply_value(state, n, depth_plies, own_turn) == search_value(
                state.after_move(moves[i]),
                depth_plies,
                own_turn,
            ));
        } else {
            assert(best_reply_value(state, n, depth_plies, own_turn) == search_value(
                state.after_move(moves[n - 1]),
                depth_plies,
                own_turn,
            ));
        }
    } else {
        assert(best_reply_value(state, n, depth_plies, own_turn) == search_value(
            state.after_move(moves[0]),
            depth_plies,
            own_turn,
        ));
    }
}

/// The worth of a position lies between -1000 and 1000.
pub proof fn lemma_evaluation_bounds(state: BoardView)
    ensures
        -1000 <= evaluation(state) <= 1000,
{
    lemma_count_below_bound(state.subboard_pattern(), state.turn.to_piece(), 9);
    lemma_count_below_bound(state.subboard_pattern(), state.turn.opposite().to_piece(), 9);
}

/// Chooses the first of the eligible moves with the highest value. The
/// state must offer a move, and the search must be defined from every
/// position that one leads to; `can_minimax` tells.
pub fn minimax(board_state: &BoardState) -> (chosen: Move<'_>)
    requires
        minimax_defined(board_state@),
    ensures
        Some(chosen@) == minimax_choice(board_state@),
        board_state@.allows(chosen@),
{
    let eligible_moves = board_state.eligible_moves();
    let ghost moves = eligible_moves.deep_view();
    let ghost key = reply_value(board_state@);
    proof {
        assert(moves.len() == eligible_moves.len());
        assert(moves[0] == eligible_moves[0]@);
    }
    let mut best_move_index: usize = 0;
    let mut best_eval = minimax_inner(
        &board_state.do_move(eligible_moves[0]),
        DEPTH_PLIES - 1,
        false,
    );
    let mut index: usize = 1;
    while index < eligible_moves.len()
        invariant
            1 <= index <= eligible_moves.len(),
            moves == eligible_moves.deep_view(),
            moves == board_state@.eligible_moves(),
            moves.len() == eligible_moves.len(),
            minimax_defined(board_state@),
            key == reply_value(board_state@),
            forall|i: int| 0 <= i < moves.len() ==> board_state@.allows(#[trigger] moves[i]),
            best_move_index < index,
            best_eval == key(moves[best_move_index as int]),
            forall|j: int| 0 <= j < index ==> key(#[trigger] moves[j]) <= best_eval,
            forall|j: int| 0 <= j < best_move_index ==> key(#[trigger] moves[j]) < best_eval,
        decreases eligible_moves.len() - index,
    {
        assert(moves[index as int] == eligible_moves[index as int]@);
        let eval = minimax_inner(
            &board_state.do_move(eligible_moves[index]),
            DEPTH_PLIES - 1,
            false,
        );
        if eval > best_eval {
            best_eval = eval;
            best_move_index = index;
        }
        index += 1;
    }
    proof {
        assert(is_pick(moves, any_move(), key, best_move_index as int));
        lemma_pick_at(moves, any_move(), key, best_move_index as int);
        assert(moves[best_move_index as int] == eligible_moves[best_move_index as int]@);
    }
    eligible_moves[best_move_index]
}

/// Whether `minimax` can choose a move from this position.
pub fn can_minimax(board_state: &BoardState) -> (defined: bool)
    ensures
        defined == minimax_defined(board_state@),
{
    let eligible_moves = board_state.eligible_moves();
    if eligible_moves.len() == 0 {
        return false;
    }
    all_replies_searchable(board_state, &eligible_moves, DEPTH_PLIES - 1)
}

/// Whether `minimax_inner` can value this position over `depth_plies`
/// plies.
pub fn can_search(board_state: &BoardState, depth_plies: u32) -> (defined: bool)
    ensures
        defined == search_defined(board_state@, depth_plies as nat),
    decreases depth_plies, 0nat,
{
    if depth_plies == 0 || matches!(board_state.state(), PatternState::Won(_)) {
        return true;
    }
    let eligible_moves = board_state.eligible_moves();
    if eligible_moves.len() == 0 {
        return false;
    }
    all_replies_searchable(board_state, &eligible_moves, depth_plies - 1)
}

/// Whether the search over `depth_plies` plies is defined from every
/// position that an eligible move leads to.
fn all_replies_searchable(
    board_state: &BoardState,
    eligible_moves: &Vec<Move>,
    depth_plies: u32,
) -> (defined: bool)
    requires
        eligible_moves.deep_view() == board_state@.eligible_moves(),
    ensures
        defined == forall|i: int|
            0 <= i < board_state@.eligible_moves().len() ==> search_defined(
                board_state@.after_move(#[trigger] board_state@.eligible_moves()[i]),
                depth_plies as nat,
            ),
    decreases depth_plies, 1nat,
{
    let ghost moves = eligible_moves.deep_view();
    proof {
        board_state.lemma_wf();
        board_state@.lemma_eligible_moves();
        assert(moves.len() == eligible_moves.len());
    }
    let mut index: usize = 0;
    while index < eligible_moves.len()
        invariant
            index <= eligible_moves.len(),
            moves == eligible_moves.deep_view(),
            moves == board_state@.eligible_moves(),
            moves.len() == eligible_moves.len(),
            forall|i: int| 0 <= i < moves.len() ==> board_state@.allows(#[trigger] moves[i]),
            forall|i: int|
                0 <= i < index ==> search_defined(
                    board_state@.after_move(#[trigger] moves[i]),
                    depth_plies as nat,
                ),
        decreases eligible_moves.len() - index,
    {
        assert(moves[index as int] == eligible_moves[index as int]@);
        if !can_search(&board_state.do_move(eligible_moves[index]), depth_plies) {
            return false;
        }
        index += 1;
    }
    true
}

/// The value of a position, searched over `depth_plies` plies. The search
/// must be defined from it; `can_search` tells.
pub fn minimax_inner(board_state: &BoardState, depth_plies: u32, own_turn: bool) -> (value: Eval)
    requires
        search_defined(board_state@, depth_plies as nat),
    ensures
        value == search_value(board_state@, depth_plies as nat, own_turn),
        depth_plies == 0 || board_state@.state() is Won ==> value == if own_turn {
            evaluation(board_state@)
        } else {
            -evaluation(board_state@)
        },
        depth_plies > 0 && !(board_state@.state() is Won) ==> {
            &&& forall|i: int|
                0 <= i < board_state@.eligible_moves().len() ==> search_value(
                    board_state@.after_move(#[trigger] board_state@.eligible_moves()[i]),
                    (depth_plies - 1) as nat,
                    !own_turn,
                ) <= value
            &&& exists|i: int|
                0 <= i < board_state@.eligible_moves().len() && value == search_value(
                    board_state@.after_move(#[trigger] board_state@.eligible_moves()[i]),
                    (depth_plies - 1) as nat,
                    !own_turn,
                )
        },
    decreases depth_plies,
{
    if depth_plies == 0 || matches!(board_state.state(), PatternState::Won(_)) {
        let eval = eval(board_state);
        return if own_turn {
            eval
        } else {
            -eval
        };
    }
    let eligible_moves = board_state.eligible_moves();
    let ghost moves = eligible_moves.deep_view();
    proof {
        assert(moves.len() == eligible_moves.len());
        assert(moves[0] == eligible_moves[0]@);
    }
    let mut best = minimax_inner(
        &board_state.do_move(eligible_moves[0]),
        depth_plies - 1,
        !own_turn,
    );
    let mut index: usize = 1;
    while index < eligible_moves.len()
        invariant
            depth_plies >= 1,
            1 <= index <= eligible_moves.len(),
            moves == eligible_moves.deep_view(),
            moves == board_state@.eligible_moves(),
            moves.len() == eligible_moves.len(),
            search_defined(board_state@, depth_plies as nat),
            !(board_state@.state() is Won),
            forall|i: int| 0 <= i < moves.len() ==> board_state@.allows(#[trigger] moves[i]),
            best == best_reply_value(
                board_state@,
                index as nat,
                (depth_plies - 1) as nat,
                !own_turn,
            ),
        decreases eligible_moves.len() - index,
    {
        assert(moves[index as int] == eligible_moves[index as int]@);
        let value = minimax_inner(
            &board_state.do_move(eligible_moves[index]),
            depth_plies - 1,
            !own_turn,
        );
        if value > best {
            best = value;
        }
        index += 1;
    }
    proof {
        lemma_best_reply_value(
            board_state@,
            moves.len(),
            (depth_plies - 1) as nat,
            !own_turn,
        );
    }
    best
}

/// The number that the search values a position with.
pub type Eval = i32;

/// The worth of a position to the player to move.
pub fn eval(board_state: &BoardState) -> (value: Eval)
    ensures
        value == evaluation(board_state@),
        -1000 <= value <= 1000,
{
    proof {
        lemma_evaluation_bounds(board_state@);
    }
    match board_state.state() {
        PatternState::Won(player) => {
            if player == board_state.turn() {
                return 1000;
            } else {
                return -1000;
            }
        },
        PatternState::Undecided => {},
    }
    let subboard_pattern = board_state.subboard_pattern();
    let subboards_won = subboard_pattern.spots(board_state.turn().to_piece());
    let subboards_lost = subboard_pattern.spots(board_state.turn().opposite().to_piece());
    subboards_won.len() as i32 - subboards_lost.len() as i32
}

} // verus!
