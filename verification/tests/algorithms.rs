use std::cmp::Ordering;

use rustbot::algorithms::greedy::{
    best_centermost_square_move, best_subboard_blocking_move, best_subboard_winning_move,
    cmp_centeredness, greedy,
};
use rustbot::algorithms::minimax::{can_minimax, can_search, eval, minimax, minimax_inner};
use rustbot::utils::board_state::BoardState;
use rustbot::utils::{Move, Place, Spot};

fn spot(subboard: Place, square: Place) -> Move<'static> {
    Move::new(Spot { subboard, square })
}

fn empty_board(turn: &str) -> BoardState {
    BoardState::dbg_from_matrix(
        [
            "     .     .     ",
            "     .     .     ",
            "     .     .     ",
            "     .     .     ",
            "     .     .     ",
            "     .     .     ",
            "     .     .     ",
            "     .     .     ",
            "     .     .     ",
        ],
        -1,
        turn,
    )
}

const TWO_WON_ON_A_DIAGONAL: [&str; 9] = [
    "X X X.     .     ",
    "     .     .     ",
    "     .     .     ",
    "     .  X X.     ",
    "     .  O O.     ",
    "     .O    .     ",
    "     .     .X    ",
    "     .     .X    ",
    "     .     .X    ",
];

const THREE_TO_ONE: [&str; 9] = [
    "X X X.O    .X    ",
    "     .  O  .X    ",
    "     .    O.X    ",
    "     .     .     ",
    "     .     .     ",
    "     .     .     ",
    "     .X    .     ",
    "     .  X  .     ",
    "     .    X.     ",
];

const THREATS: [&str; 9] = [
    "     .     .X X X",
    "  O  .     .X X X",
    "     .     .X X X",
    "     .X X X.    X",
    "  X X.X X X.     ",
    "     .X X X.     ",
    "     .     .     ",
    "  X X.  O  .  O  ",
    "     .     .     ",
];

const TWO_IN_A_ROW_THRICE: [&str; 9] = [
    "     .X X  .     ",
    "     .     .     ",
    "     .     .     ",
    "     .X X  .     ",
    "     .     .     ",
    "     .     .     ",
    "X X  .     .     ",
    "     .     .     ",
    "     .     .     ",
];

const NEARLY_FULL: [&str; 9] = [
    "X O X.X X X.O O O",
    "O X O.     .     ",
    "O X  .     .     ",
    "X X X.X O X.O O  ",
    "     .O X O.X X  ",
    "     .O X  .     ",
    "O O O.X X X.X O X",
    "     .     .X O O",
    "     .     .O X X",
];

const ONE_SQUARE_LEFT: [&str; 9] = [
    "X O X.     .     ",
    "O X O.     .     ",
    "O X  .     .     ",
    "     .     .     ",
    "     .     .     ",
    "     .     .     ",
    "     .     .X O X",
    "     .     .X O O",
    "     .     .O X  ",
];

#[test]
fn cmp_centeredness_ranks_center_over_corner_over_edge() {
    let center = Place::MidMid;
    let corners = [Place::TopLeft, Place::TopRight, Place::BotLeft, Place::BotRight];
    let edges = [Place::TopMid, Place::MidLeft, Place::MidRight, Place::BotMid];
    assert_eq!(cmp_centeredness(center, center), Ordering::Equal);
    for corner in corners {
        assert_eq!(cmp_centeredness(center, corner), Ordering::Greater);
        assert_eq!(cmp_centeredness(corner, center), Ordering::Less);
        for other in corners {
            assert_eq!(cmp_centeredness(corner, other), Ordering::Equal);
        }
        for edge in edges {
            assert_eq!(cmp_centeredness(corner, edge), Ordering::Greater);
            assert_eq!(cmp_centeredness(edge, corner), Ordering::Less);
        }
    }
    for edge in edges {
        assert_eq!(cmp_centeredness(center, edge), Ordering::Greater);
        assert_eq!(cmp_centeredness(edge, center), Ordering::Less);
        for other in edges {
            assert_eq!(cmp_centeredness(edge, other), Ordering::Equal);
        }
    }
}

#[test]
fn greedy_takes_the_move_that_wins_the_game() {
    // Cross holds TopLeft and BotRight; only MidMid is active, and a piece
    // on its TopLeft square wins it and with it the diagonal.
    let board_state = BoardState::dbg_from_matrix(TWO_WON_ON_A_DIAGONAL, 4, "cross");
    assert_eq!(
        board_state.eligible_moves(),
        vec![
            spot(Place::MidMid, Place::TopLeft),
            spot(Place::MidMid, Place::MidLeft),
            spot(Place::MidMid, Place::BotMid),
            spot(Place::MidMid, Place::BotRight),
        ]
    );
    assert_eq!(greedy(&board_state), spot(Place::MidMid, Place::TopLeft));
}

#[test]
fn greedy_blocks_the_subboard_that_would_lose_the_game() {
    // Cross holds TopRight and MidMid: BotLeft would give it the diagonal.
    let board_state = BoardState::dbg_from_matrix(THREATS, -1, "dot");
    assert_eq!(greedy(&board_state), spot(Place::BotLeft, Place::TopLeft));
}

#[test]
fn greedy_prefers_winning_the_game_to_blocking() {
    let board_state = BoardState::dbg_from_matrix(
        [
            "X X X.O O O.     ",
            "     .     .     ",
            "     .     .     ",
            "X X X.O O O.     ",
            "     .     .     ",
            "     .     .     ",
            "     .     .     ",
            "     .     .     ",
            "     .     .     ",
        ],
        -1,
        "dot",
    );
    // BotLeft comes first and would block Cross; BotMid wins for Dot.
    assert_eq!(greedy(&board_state), spot(Place::BotMid, Place::TopLeft));
    let board_state = BoardState::dbg_from_matrix(
        [
            "X X X.O O O.     ",
            "     .     .     ",
            "     .     .     ",
            "X X X.O O O.     ",
            "     .     .     ",
            "     .     .     ",
            "     .     .     ",
            "     .     .     ",
            "     .     .     ",
        ],
        -1,
        "cross",
    );
    assert_eq!(greedy(&board_state), spot(Place::BotLeft, Place::TopLeft));
}

#[test]
fn greedy_wins_the_most_central_subboard() {
    // Cross can win TopMid, MidMid and BotLeft, each with one piece.
    let board_state = BoardState::dbg_from_matrix(TWO_IN_A_ROW_THRICE, -1, "cross");
    let moves = board_state.eligible_moves();
    assert_eq!(
        best_subboard_winning_move(&board_state, &moves),
        Some(spot(Place::MidMid, Place::TopRight))
    );
    assert_eq!(greedy(&board_state), spot(Place::MidMid, Place::TopRight));
}

#[test]
fn greedy_wins_a_corner_subboard_before_an_edge_subboard() {
    let board_state = BoardState::dbg_from_matrix(
        [
            "     .X X  .     ",
            "     .     .     ",
            "     .     .     ",
            "     .     .     ",
            "     .     .     ",
            "     .     .     ",
            "X X  .     .  X  ",
            "     .     .  X  ",
            "     .     .     ",
        ],
        -1,
        "cross",
    );
    // TopMid is an edge; BotLeft and BotRight are corners, BotLeft first.
    assert_eq!(greedy(&board_state), spot(Place::BotLeft, Place::TopRight));
}

#[test]
fn greedy_blocks_the_most_central_subboard() {
    let board_state = BoardState::dbg_from_matrix(TWO_IN_A_ROW_THRICE, -1, "dot");
    let moves = board_state.eligible_moves();
    assert_eq!(best_subboard_winning_move(&board_state, &moves), None);
    assert_eq!(
        best_subboard_blocking_move(&board_state, &moves),
        Some(spot(Place::MidMid, Place::TopRight))
    );
    assert_eq!(greedy(&board_state), spot(Place::MidMid, Place::TopRight));
}

#[test]
fn greedy_prefers_winning_a_subboard_to_blocking_one() {
    let board_state = BoardState::dbg_from_matrix(
        [
            "     .O O  .     ",
            "     .     .     ",
            "     .     .     ",
            "     .X X  .     ",
            "     .     .     ",
            "     .     .     ",
            "     .     .     ",
            "     .     .     ",
            "     .     .     ",
        ],
        -1,
        "dot",
    );
    assert_eq!(greedy(&board_state), spot(Place::TopMid, Place::TopRight));
}

#[test]
fn greedy_on_an_empty_board_takes_the_center_of_the_center() {
    let board_state = empty_board("cross");
    assert_eq!(board_state.eligible_moves().len(), 81);
    assert_eq!(greedy(&board_state), spot(Place::MidMid, Place::MidMid));
}

#[test]
fn greedy_takes_the_most_central_square_that_is_left() {
    let board_state = BoardState::dbg_from_matrix(
        [
            "     .     .     ",
            "     .     .     ",
            "     .     .     ",
            "     .     .     ",
            "     .  X  .     ",
            "     .     .     ",
            "     .     .     ",
            "     .     .     ",
            "     .     .     ",
        ],
        -1,
        "dot",
    );
    // the center subboard first, and in it the first corner
    assert_eq!(greedy(&board_state), spot(Place::MidMid, Place::TopLeft));
    let board_state = BoardState::dbg_from_matrix(
        [
            "     .     .     ",
            "     .     .     ",
            "     .     .     ",
            "     .     .     ",
            "     .     .     ",
            "     .     .     ",
            "     .     .     ",
            "     .     .     ",
            "     .     .     ",
        ],
        5,
        "dot",
    );
    // only an edge subboard is active: its center
    assert_eq!(greedy(&board_state), spot(Place::MidRight, Place::MidMid));
}

#[test]
fn best_centermost_square_move_orders_by_subboard_then_square() {
    let moves = vec![
        spot(Place::TopMid, Place::MidMid),
        spot(Place::TopLeft, Place::TopMid),
        spot(Place::BotRight, Place::TopLeft),
        spot(Place::TopRight, Place::BotRight),
    ];
    assert_eq!(
        best_centermost_square_move(&moves),
        Some(spot(Place::BotRight, Place::TopLeft))
    );
    let moves = vec![
        spot(Place::TopMid, Place::TopMid),
        spot(Place::MidLeft, Place::BotMid),
    ];
    assert_eq!(
        best_centermost_square_move(&moves),
        Some(spot(Place::TopMid, Place::TopMid))
    );
    let moves: Vec<Move> = Vec::new();
    assert_eq!(best_centermost_square_move(&moves), None);
}

#[test]
fn eval_counts_subboards_won_less_subboards_lost() {
    // Cross holds three subboards, Dot one, and neither holds a line.
    let board_state = BoardState::dbg_from_matrix(THREE_TO_ONE, -1, "cross");
    assert_eq!(eval(&board_state), 2);
    let board_state = BoardState::dbg_from_matrix(THREE_TO_ONE, -1, "dot");
    assert_eq!(eval(&board_state), -2);
    assert_eq!(eval(&empty_board("cross")), 0);
}

#[test]
fn eval_of_a_won_game() {
    let won_by_cross = [
        "X X X.X    .  X  ",
        "     .  X  .  X  ",
        "     .    X.  X  ",
        "     .     .     ",
        "     .     .     ",
        "     .     .     ",
        "     .     .     ",
        "     .     .     ",
        "     .     .     ",
    ];
    assert_eq!(eval(&BoardState::dbg_from_matrix(won_by_cross, -1, "cross")), 1000);
    assert_eq!(eval(&BoardState::dbg_from_matrix(won_by_cross, -1, "dot")), -1000);
}

#[test]
fn minimax_inner_at_depth_zero_is_the_eval_from_the_side_asked() {
    let board_state = BoardState::dbg_from_matrix(THREE_TO_ONE, -1, "cross");
    assert_eq!(minimax_inner(&board_state, 0, true), 2);
    assert_eq!(minimax_inner(&board_state, 0, false), -2);
}

#[test]
fn minimax_inner_stops_at_a_won_game() {
    let won_by_cross = [
        "X X X.X    .  X  ",
        "     .  X  .  X  ",
        "     .    X.  X  ",
        "     .     .     ",
        "     .     .     ",
        "     .     .     ",
        "     .     .     ",
        "     .     .     ",
        "     .     .     ",
    ];
    let board_state = BoardState::dbg_from_matrix(won_by_cross, -1, "dot");
    assert_eq!(minimax_inner(&board_state, 2, true), -1000);
    assert_eq!(minimax_inner(&board_state, 2, false), 1000);
}

#[test]
fn minimax_inner_takes_the_highest_value_of_the_replies() {
    let board_state = BoardState::dbg_from_matrix(NEARLY_FULL, -1, "cross");
    assert_eq!(minimax_inner(&board_state, 1, true), 1000);
    assert_eq!(minimax_inner(&board_state, 1, false), -1);
    assert_eq!(minimax_inner(&board_state, 2, true), 1000);
    assert_eq!(minimax_inner(&board_state, 2, false), 0);
    let board_state = BoardState::dbg_from_matrix(NEARLY_FULL, -1, "dot");
    assert_eq!(minimax_inner(&board_state, 1, true), 0);
    assert_eq!(minimax_inner(&board_state, 1, false), 1);
    assert_eq!(minimax_inner(&board_state, 2, true), -1);
    assert_eq!(minimax_inner(&board_state, 2, false), 1000);
}

#[test]
fn minimax_takes_the_first_of_the_best_moves() {
    let board_state = BoardState::dbg_from_matrix(THREATS, -1, "dot");
    assert!(can_minimax(&board_state));
    // the first eight moves share the highest value
    assert_eq!(minimax(&board_state), spot(Place::TopLeft, Place::TopLeft));
    let board_state = BoardState::dbg_from_matrix(NEARLY_FULL, -1, "dot");
    assert!(can_minimax(&board_state));
    assert_eq!(minimax(&board_state), spot(Place::TopLeft, Place::BotRight));
}

#[test]
fn minimax_takes_the_move_with_the_highest_value() {
    // Winning TopMid, MidMid or BotLeft is worth 2, any other move 1; the
    // first of the three is the one into TopMid.
    let board_state = BoardState::dbg_from_matrix(TWO_IN_A_ROW_THRICE, -1, "cross");
    assert!(can_minimax(&board_state));
    assert_eq!(minimax(&board_state), spot(Place::TopMid, Place::TopRight));
}

#[test]
fn minimax_finds_the_winning_move() {
    let board_state = BoardState::dbg_from_matrix(TWO_WON_ON_A_DIAGONAL, 4, "cross");
    assert!(can_minimax(&board_state));
    assert_eq!(minimax(&board_state), spot(Place::MidMid, Place::TopLeft));
}

#[test]
fn search_is_not_defined_where_a_position_offers_no_move() {
    let board_state = BoardState::dbg_from_matrix(ONE_SQUARE_LEFT, 0, "cross");
    assert!(can_search(&board_state, 0));
    assert!(can_search(&board_state, 1));
    assert!(can_search(&board_state, 2));
    assert!(!can_search(&board_state, 3));
    assert!(!can_minimax(&board_state));
    assert_eq!(minimax_inner(&board_state, 1, true), 1);
    assert_eq!(minimax_inner(&board_state, 2, true), 1);
    assert_eq!(minimax_inner(&board_state, 2, false), -1);
    let stuck = BoardState::dbg_from_matrix(
        [
            "X O X.     .     ",
            "X O O.     .     ",
            "O X O.     .     ",
            "     .     .     ",
            "     .     .     ",
            "     .     .     ",
            "     .     .     ",
            "     .     .     ",
            "     .     .     ",
        ],
        0,
        "cross",
    );
    assert!(can_search(&stuck, 0));
    assert!(!can_search(&stuck, 1));
    assert!(!can_minimax(&stuck));
}
