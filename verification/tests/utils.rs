use rustbot::utils::pattern::Pattern;
use rustbot::utils::raw::{RawPlace, RawTurn};
use rustbot::utils::{Centeredness, Move, Piece, Place, Player, Spot, Subboard};

const PLACES: [Place; 9] = [
    Place::TopLeft,
    Place::TopMid,
    Place::TopRight,
    Place::MidLeft,
    Place::MidMid,
    Place::MidRight,
    Place::BotLeft,
    Place::BotMid,
    Place::BotRight,
];

#[test]
fn to_from_index() {
    for i in 0..9 {
        assert_eq!(i, Place::from_index(i).to_index());
    }
}

#[test]
fn place_index_is_a_bijection() {
    for (index, place) in PLACES.iter().enumerate() {
        assert_eq!(place.to_index(), index);
        assert_eq!(Place::from_index(index), *place);
        assert_eq!(Place::from_index(place.to_index()), *place);
    }
    for a in PLACES {
        for b in PLACES {
            assert_eq!(a.to_index() == b.to_index(), a == b);
        }
    }
}

#[test]
fn to_raw() {
    for i in 0..9 {
        let place = Place::from_index(i);
        assert_eq!(i as i32, place.to_raw() as i32);
    }
}

#[test]
fn to_raw_keeps_the_name() {
    assert_eq!(Place::TopLeft.to_raw(), RawPlace::TopLeft);
    assert_eq!(Place::TopMid.to_raw(), RawPlace::TopMid);
    assert_eq!(Place::TopRight.to_raw(), RawPlace::TopRight);
    assert_eq!(Place::MidLeft.to_raw(), RawPlace::MidLeft);
    assert_eq!(Place::MidMid.to_raw(), RawPlace::MidMid);
    assert_eq!(Place::MidRight.to_raw(), RawPlace::MidRight);
    assert_eq!(Place::BotLeft.to_raw(), RawPlace::BotLeft);
    assert_eq!(Place::BotMid.to_raw(), RawPlace::BotMid);
    assert_eq!(Place::BotRight.to_raw(), RawPlace::BotRight);
}

#[test]
fn centeredness() {
    for i in 0..9 {
        let centeredness = match i {
            4 => Centeredness::Center,
            _ if i % 2 == 0 => Centeredness::Corner,
            _ => Centeredness::Edge,
        };
        assert_eq!(centeredness, Place::from_index(i).centeredness());
    }
}

#[test]
fn to_piece_opposite_from_raw() {
    let player = Player::Cross;
    assert_eq!(player.to_piece(), Piece::Cross);
    assert_eq!(player, Player::from_raw(RawTurn::Cross));
    let opposite = player.opposite();
    assert_eq!(opposite.to_piece(), Piece::Dot);
    assert_eq!(opposite, Player::from_raw(RawTurn::Dot));
}

#[test]
fn opposite_is_an_involution() {
    assert_eq!(Player::Cross.opposite(), Player::Dot);
    assert_eq!(Player::Dot.opposite(), Player::Cross);
    assert_eq!(Player::Cross.opposite().opposite(), Player::Cross);
    assert_eq!(Player::Dot.to_piece(), Piece::Dot);
}

#[test]
fn from_pattern() {
    let won_pattern = Pattern::dbg_from_matrix([
        "X X X",
        "  O  ",
        "O   O",
    ]);
    let won_subboard = Subboard::from_pattern(won_pattern, true);
    assert_eq!(Subboard::Won(Player::Cross), won_subboard);
    let undecided_pattern = Pattern::dbg_from_matrix([
        "X O  ",
        "O X  ",
        "    O",
    ]);
    let active_subboard = Subboard::from_pattern(undecided_pattern, true);
    assert!(matches!(active_subboard, Subboard::Active(_)));
    let inactive_subboard = Subboard::from_pattern(undecided_pattern, false);
    assert!(matches!(inactive_subboard, Subboard::Inactive(_)));
}

#[test]
fn from_pattern_keeps_the_cells() {
    let pattern = Pattern::dbg_from_matrix([
        "X O  ",
        "O X  ",
        "    O",
    ]);
    assert_eq!(Subboard::from_pattern(pattern, true), Subboard::Active(pattern));
    assert_eq!(Subboard::from_pattern(pattern, false), Subboard::Inactive(pattern));
    let won_by_dot = Pattern::dbg_from_matrix([
        "O X X",
        "X O  ",
        "    O",
    ]);
    assert_eq!(Subboard::from_pattern(won_by_dot, false), Subboard::Won(Player::Dot));
}

#[test]
fn subboard_square_to_raw() {
    let move_ = Move::new(Spot {
        subboard: Place::TopLeft,
        square:   Place::BotRight,
    });
    assert_eq!(move_.subboard(), Place::TopLeft);
    assert_eq!(move_.square(),   Place::BotRight);
    let raw_move = move_.to_raw();
    assert_eq!(raw_move.subboard, RawPlace::TopLeft);
    assert_eq!(raw_move.square,   RawPlace::BotRight);
}
