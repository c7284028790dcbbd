use rustbot::utils::board_state::BoardState;
use rustbot::utils::pattern::{Pattern, PatternState};
use rustbot::utils::raw::{RawActiveSubBoard, RawBoardState, RawPiece, RawTurn};
use rustbot::utils::{Move, Piece, Place, Player, Spot, Subboard};

const TEST_BOARD: [[&str; 3]; 9] = [
    [
        "    X",
        "  O X",
        "O    ",
    ],
    [
        "X   X",
        "  O X",
        "O    ",
    ],
    [
        "    X",
        "    X",
        "O   X",
    ],
    [
        "     ",
        "  O X",
        "O    ",
    ],
    [
        "  X X",
        "  O O",
        "O    ",
    ],
    [
        "    X",
        "  O X",
        "O X  ",
    ],
    [
        "    X",
        "O O O",
        "     ",
    ],
    [
        "O   X",
        "  O X",
        "X   O",
    ],
    [
        "    X",
        "X    ",
        "O    ",
    ],
];

fn test_board() -> [[RawPiece; 9]; 9] {
    TEST_BOARD.map(|subboard| {
        subboard
            .iter()
            .map(|row| {
                row
                   .chars()
                   .step_by(2)
                   .collect::<Vec<_>>()
            })
            .flatten()
            .map(|piece| RawPiece::dbg_from_character(&piece.to_string()))
            .collect::<Vec<_>>()
            .try_into()
            .unwrap()
    })
}

fn test_state(active_subboard: RawActiveSubBoard, turn: RawTurn) -> BoardState {
    BoardState::from_raw(RawBoardState {
        active_subboard,
        turn,
        board: test_board(),
    })
}

fn spot(subboard: Place, square: Place) -> Move<'static> {
    Move::new(Spot { subboard, square })
}

#[test]
fn from_raw_turn_subboard() {
    let winners = [
        None,
        None,
        Some(Player::Cross),
        None,
        None,
        None,
        Some(Player::Dot),
        Some(Player::Dot),
        None,
    ];

    let raw_board_state = RawBoardState {
        active_subboard: RawActiveSubBoard::MidMid,
        turn: RawTurn::Cross,
        board: test_board(),
    };

    let board_state = BoardState::from_raw(raw_board_state);

    assert_eq!(board_state.turn(), Player::Cross);

    for i in 0..9 {
        let subboard = board_state.subboard(Place::from_index(i));
        match subboard {
            Subboard::Active(pattern) => {
                for j in 0..9 {
                    let piece = pattern.piece(Place::from_index(j));
                    let test_pattern = Pattern::dbg_from_matrix(TEST_BOARD[i]);
                    assert_eq!(piece, test_pattern.piece(Place::from_index(j)));
                }
            },
            Subboard::Inactive(pattern) => {
                for j in 0..9 {
                    let piece = pattern.piece(Place::from_index(j));
                    let test_pattern = Pattern::dbg_from_matrix(TEST_BOARD[i]);
                    assert_eq!(piece, test_pattern.piece(Place::from_index(j)));
                }
            },
            Subboard::Won(player) => {
                let winner = winners[i];
                if let Some(winner) = winner {
                    assert_eq!(player, winner);
                } else {
                    panic!();
                }
            }
        }
    }
}

#[test]
fn from_raw_marks_the_selected_subboard_active() {
    let one = test_state(RawActiveSubBoard::BotRight, RawTurn::Dot);
    assert_eq!(one.turn(), Player::Dot);
    for i in 0..9 {
        let pattern = Pattern::dbg_from_matrix(TEST_BOARD[i]);
        let expected = match i {
            2 => Subboard::Won(Player::Cross),
            6 | 7 => Subboard::Won(Player::Dot),
            8 => Subboard::Active(pattern),
            _ => Subboard::Inactive(pattern),
        };
        assert_eq!(one.subboard(Place::from_index(i)), expected);
    }
    let all = test_state(RawActiveSubBoard::All, RawTurn::Cross);
    for i in 0..9 {
        let pattern = Pattern::dbg_from_matrix(TEST_BOARD[i]);
        let expected = match i {
            2 => Subboard::Won(Player::Cross),
            6 | 7 => Subboard::Won(Player::Dot),
            _ => Subboard::Active(pattern),
        };
        assert_eq!(all.subboard(Place::from_index(i)), expected);
    }
    // a selector that points to a won subboard leaves no subboard active
    let won = test_state(RawActiveSubBoard::TopRight, RawTurn::Cross);
    assert!(won.eligible_moves().is_empty());
}

#[test]
fn pattern_if_active() {
    let raw_board_state = RawBoardState {
        active_subboard: RawActiveSubBoard::MidMid,
        turn: RawTurn::Cross,
        board: test_board(),
    };

    let board_state = BoardState::from_raw(raw_board_state);

    let pattern = Pattern::dbg_from_matrix([
        "  X X",
        "  O O",
        "O    ",
    ]);

    assert!(matches!(board_state.pattern_if_active(Place::MidMid), Some(active_pattern) if active_pattern == pattern));

    for i in 0..9 {
        if i == 4 {
            continue;
        }
        let place = Place::from_index(i);
        assert!(matches!(board_state.pattern_if_active(place), None));
    }
}

#[test]
fn subboard_pattern() {
    let raw_board_state = RawBoardState {
        active_subboard: RawActiveSubBoard::MidMid,
        turn: RawTurn::Cross,
        board: test_board(),
    };

    let board_state = BoardState::from_raw(raw_board_state);

    let pattern = Pattern::dbg_from_matrix([
        "    X",
        "     ",
        "O O  ",
    ]);

    assert_eq!(pattern, board_state.subboard_pattern());
}

#[test]
fn state_is_that_of_the_subboard_pattern() {
    let undecided = test_state(RawActiveSubBoard::MidMid, RawTurn::Cross);
    assert_eq!(undecided.state(), PatternState::Undecided);
    assert_eq!(undecided.state(), undecided.subboard_pattern().state());
    let won = BoardState::dbg_from_matrix(
        [
            "O O O.     .X X X",
            "     .  X  .     ",
            "     .     .     ",
            "     .O    .     ",
            "     .  O  .     ",
            "     .    O.     ",
            "     .     .    O",
            "X X  .     .  O  ",
            "     .     .O    ",
        ],
        -1,
        "cross",
    );
    assert_eq!(
        won.subboard_pattern(),
        Pattern::dbg_from_matrix(["O   X", "  O  ", "    O"])
    );
    assert_eq!(won.state(), PatternState::Won(Player::Dot));
}

#[test]
fn board_state_enumerate() {
    let raw_board_state = RawBoardState {
        active_subboard: RawActiveSubBoard::All,
        turn: RawTurn::Cross,
        board: test_board(),
    };

    let board_state = BoardState::from_raw(raw_board_state);

    let manual = TEST_BOARD
        .iter()
        .enumerate()
        .map(|(index, matrix)| (
            Place::from_index(index),
            Subboard::from_pattern(Pattern::dbg_from_matrix(*matrix), true))
        )
        .collect::<Vec<_>>();

    let mut subboards = board_state.enumerate();
    let mut seen = 0;
    while let Some((place, subboard)) = subboards.next() {
        let index = place.to_index();
        assert_eq!(index, seen);
        assert!(
            place == manual[index].0 &&
            *subboard == manual[index].1
        );
        seen += 1;
    }
    assert_eq!(seen, 9);
    assert!(subboards.next().is_none());
}

#[test]
fn do_move() {
    let raw_board_state = RawBoardState {
        active_subboard: RawActiveSubBoard::MidMid,
        turn: RawTurn::Cross,
        board: test_board(),
    };

    let board_state = BoardState::from_raw(raw_board_state);

    // into a won subboard: not offered
    let move_ = Move::new(Spot {
        subboard: Place::BotLeft,
        square: Place::TopLeft,
    });
    assert!(!board_state.eligible_moves().contains(&move_));

    // into an inactive subboard: not offered
    let move_ = Move::new(Spot {
        subboard: Place::MidLeft,
        square: Place::BotMid,
    });
    assert!(!board_state.eligible_moves().contains(&move_));

    // onto a square that is taken: not offered
    let move_ = Move::new(Spot {
        subboard: Place::MidMid,
        square: Place::MidRight,
    });
    assert!(!board_state.eligible_moves().contains(&move_));

    let move_ = Move::new(Spot {
        subboard: Place::MidMid,
        square: Place::TopLeft,
    });
    assert!(board_state.eligible_moves().contains(&move_));
    let new_board_state = board_state.do_move(move_);
    assert_eq!(new_board_state.turn(), Player::Dot);
    let mut subboards = new_board_state.enumerate();
    while let Some((place, subboard)) = subboards.next() {
        if place == Place::MidMid {
            assert_eq!(new_board_state.subboard(Place::MidMid), Subboard::Won(Player::Cross));
            continue;
        }
        if place == Place::TopLeft {
            assert!(matches!(subboard, Subboard::Active(_)));
            continue;
        }
        assert!(matches!(subboard, Subboard::Inactive(_) | Subboard::Won(_)));
    }
}

#[test]
fn do_move_passes_the_turn_and_leaves_the_state_alone() {
    for turn in [RawTurn::Cross, RawTurn::Dot] {
        let board_state = test_state(RawActiveSubBoard::All, turn);
        let snapshot = board_state;
        let moves = board_state.eligible_moves();
        assert!(!moves.is_empty());
        for move_ in moves.iter() {
            let next = board_state.do_move(*move_);
            assert_eq!(next.turn(), board_state.turn().opposite());
            assert_eq!(board_state, snapshot);
        }
    }
}

#[test]
fn do_move_places_the_piece() {
    let board_state = test_state(RawActiveSubBoard::All, RawTurn::Dot);
    let next = board_state.do_move(spot(Place::TopLeft, Place::MidLeft));
    let mut expected = Pattern::dbg_from_matrix(TEST_BOARD[0]);
    *expected.piece_mut(Place::MidLeft) = Piece::Dot;
    assert_eq!(next.subboard(Place::TopLeft), Subboard::Active(expected));
    for i in 1..9 {
        let place = Place::from_index(i);
        assert_eq!(next.subboard(place), board_state.subboard(place));
    }
}

#[test]
fn do_move_activates_the_subboard_that_the_square_points_to() {
    let board_state = test_state(RawActiveSubBoard::MidMid, RawTurn::Dot);
    // Dot on MidMid/MidLeft completes its middle row: MidMid is won, and
    // MidLeft, which was inactive, becomes active.
    let next = board_state.do_move(spot(Place::MidMid, Place::MidLeft));
    assert_eq!(next.subboard(Place::MidMid), Subboard::Won(Player::Dot));
    assert_eq!(
        next.subboard(Place::MidLeft),
        Subboard::Active(Pattern::dbg_from_matrix(TEST_BOARD[3]))
    );
    for i in [0, 1, 5, 8] {
        assert_eq!(
            next.subboard(Place::from_index(i)),
            Subboard::Inactive(Pattern::dbg_from_matrix(TEST_BOARD[i]))
        );
    }
    // A square that points to the subboard played in, still undecided:
    // nothing else changes.
    let board_state = test_state(RawActiveSubBoard::BotRight, RawTurn::Cross);
    let next = board_state.do_move(spot(Place::BotRight, Place::BotRight));
    let mut expected = Pattern::dbg_from_matrix(TEST_BOARD[8]);
    *expected.piece_mut(Place::BotRight) = Piece::Cross;
    assert_eq!(next.subboard(Place::BotRight), Subboard::Active(expected));
    for i in 0..8 {
        let place = Place::from_index(i);
        assert_eq!(next.subboard(place), board_state.subboard(place));
    }
    assert_eq!(next.eligible_moves().len(), 5);
}

#[test]
fn do_move_to_a_won_subboard_lets_play_anywhere() {
    let board_state = test_state(RawActiveSubBoard::MidMid, RawTurn::Cross);
    // BotMid is won by Dot already.
    assert_eq!(board_state.subboard(Place::BotMid), Subboard::Won(Player::Dot));
    let next = board_state.do_move(spot(Place::MidMid, Place::BotMid));
    for i in 0..9 {
        let place = Place::from_index(i);
        match board_state.subboard(place) {
            Subboard::Inactive(pattern) => {
                assert_eq!(next.subboard(place), Subboard::Active(pattern));
            },
            Subboard::Won(player) => {
                assert_eq!(next.subboard(place), Subboard::Won(player));
            },
            Subboard::Active(_) => {
                assert_eq!(place, Place::MidMid);
                assert!(matches!(next.subboard(place), Subboard::Active(_)));
            },
        }
    }
    assert_eq!(next.turn(), Player::Dot);
}

#[test]
fn do_move_that_wins_the_subboard_it_points_to_lets_play_anywhere() {
    let board_state = BoardState::dbg_from_matrix(
        [
            "     .     .     ",
            "     .     .     ",
            "     .     .     ",
            "     .X    .     ",
            "     .     .     ",
            "     .    X.     ",
            "     .     .     ",
            "     .     .     ",
            "  O  .     .     ",
        ],
        4,
        "cross",
    );
    let next = board_state.do_move(spot(Place::MidMid, Place::MidMid));
    assert_eq!(next.subboard(Place::MidMid), Subboard::Won(Player::Cross));
    for i in 0..9 {
        if i == 4 {
            continue;
        }
        let place = Place::from_index(i);
        match board_state.subboard(place) {
            Subboard::Inactive(pattern) => {
                assert_eq!(next.subboard(place), Subboard::Active(pattern));
            },
            _ => panic!(),
        }
    }
    assert_eq!(next.eligible_moves().len(), 71);
}

#[test]
fn eligible_moves() {
    let raw_board_state = RawBoardState {
        active_subboard: RawActiveSubBoard::MidMid,
        turn: RawTurn::Cross,
        board: test_board(),
    };

    let board_state = BoardState::from_raw(raw_board_state);

    let eligible_moves = vec![
        Move::new(Spot { subboard: Place::MidMid, square: Place::TopLeft  }),
        Move::new(Spot { subboard: Place::MidMid, square: Place::MidLeft  }),
        Move::new(Spot { subboard: Place::MidMid, square: Place::BotMid   }),
        Move::new(Spot { subboard: Place::MidMid, square: Place::BotRight }),
    ];

    assert_eq!(*board_state.eligible_moves(), *eligible_moves);
}

#[test]
fn eligible_moves_twice_gives_the_same() {
    for active in [RawActiveSubBoard::All, RawActiveSubBoard::MidMid, RawActiveSubBoard::TopRight] {
        let board_state = test_state(active, RawTurn::Cross);
        let first = board_state.eligible_moves();
        let second = board_state.eligible_moves();
        assert_eq!(first, second);
    }
}

#[test]
fn eligible_moves_go_by_subboard_then_square() {
    let board_state = test_state(RawActiveSubBoard::All, RawTurn::Cross);
    let moves = board_state.eligible_moves();
    // the free cells of the six undecided subboards
    assert_eq!(moves.len(), 5 + 4 + 6 + 4 + 4 + 6);
    for pair in moves.windows(2) {
        let a = (pair[0].subboard().to_index(), pair[0].square().to_index());
        let b = (pair[1].subboard().to_index(), pair[1].square().to_index());
        assert!(a < b);
    }
    for move_ in moves.iter() {
        match board_state.subboard(move_.subboard()) {
            Subboard::Active(pattern) => {
                assert_eq!(*pattern.piece(move_.square()), Piece::Empty);
            },
            _ => panic!(),
        }
    }
    assert_eq!(moves[0], spot(Place::TopLeft, Place::TopLeft));
    assert_eq!(moves[4], spot(Place::TopLeft, Place::BotRight));
    assert_eq!(moves[5], spot(Place::TopMid, Place::TopMid));
    assert_eq!(moves[moves.len() - 1], spot(Place::BotRight, Place::BotRight));
}

#[test]
fn a_full_undecided_board_offers_no_move() {
    let board_state = BoardState::dbg_from_matrix(
        [
            "X O X.     .     ",
            "X O O.     .     ",
            "O X O.     .     ",
            "     .     .     ",
            "     .     .     ",
            "     .     .     ",
            "     .     .     ",
            "     .     .     ",
            "     .     .     ",
        ],
        0,
        "cross",
    );
    assert!(board_state.eligible_moves().is_empty());
    assert_eq!(board_state.state(), PatternState::Undecided);
}

#[test]
fn is_draw_where_nobody_has_won_and_no_move_is_left() {
    let stuck = BoardState::dbg_from_matrix(
        [
            "X O X.     .     ",
            "X O O.     .     ",
            "O X O.     .     ",
            "     .     .     ",
            "     .     .     ",
            "     .     .     ",
            "     .     .     ",
            "     .     .     ",
            "     .     .     ",
        ],
        0,
        "cross",
    );
    assert!(stuck.is_draw());
    let open = test_state(RawActiveSubBoard::MidMid, RawTurn::Cross);
    assert!(!open.is_draw());
    let won = BoardState::dbg_from_matrix(
        [
            "O O O.     .X X X",
            "     .  X  .     ",
            "     .     .     ",
            "     .O    .     ",
            "     .  O  .     ",
            "     .    O.     ",
            "     .     .    O",
            "X X  .     .  O  ",
            "     .     .O    ",
        ],
        2,
        "cross",
    );
    assert!(won.eligible_moves().is_empty());
    assert!(!won.is_draw());
}
