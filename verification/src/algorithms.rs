//! Move selection: a greedy chooser and a depth-bounded search.

pub mod greedy;

pub mod minimax;

use vstd::prelude::*;

use crate::utils::Spot;

verus! {

/// Whether `moves[i]` is the pick among `moves`: it is kept, no kept move
/// has a higher key, and every kept move before it has a lower key. So the
/// pick is the first of the kept moves with the highest key.
pub open spec fn is_pick(
    moves: Seq<Spot>,
    keep: spec_fn(Spot) -> bool,
    key: spec_fn(Spot) -> int,
    i: int,
) -> bool {
    &&& 0 <= i < moves.len()
    &&& keep(moves[i])
    &&& forall|j: int| 0 <= j < moves.len() && keep(#[trigger] moves[j]) ==> key(moves[j]) <= key(moves[i])
    &&& forall|j: int| 0 <= j < i && keep(#[trigger] moves[j]) ==> key(moves[j]) < key(moves[i])
}

/// The first of the kept moves with the highest key, or `None` where no
/// move is kept.
pub open spec fn pick(
    moves: Seq<Spot>,
    keep: spec_fn(Spot) -> bool,
    key: spec_fn(Spot) -> int,
) -> Option<Spot> {
    if exists|i: int| is_pick(moves, keep, key, i) {
        Some(moves[choose|i: int| is_pick(moves, keep, key, i)])
    } else {
        None
    }
}

/// Keeps every move.
pub open spec fn any_move() -> spec_fn(Spot) -> bool {
    |spot: Spot| true
}

/// At most one index is the pick.
pub proof fn lemma_pick_unique(
    moves: Seq<Spot>,
    keep: spec_fn(Spot) -> bool,
    key: spec_fn(Spot) -> int,
    i: int,
    j: int,
)
    requires
        is_pick(moves, keep, key, i),
        is_pick(moves, keep, key, j),
    ensures
        i == j,
{
    if i < j {
        assert(keep(moves[i]));
        assert(key(moves[i]) < key(moves[j]));
        assert(key(moves[j]) <= key(moves[i]));
    } else if j < i {
        assert(keep(moves[j]));
        assert(key(moves[j]) < key(moves[i]));
        assert(key(moves[i]) <= key(moves[j]));
    }
}

/// The move at the index that is the pick is what `pick` gives.
pub proof fn lemma_pick_at(
    moves: Seq<Spot>,
    keep: spec_fn(Spot) -> bool,
    key: spec_fn(Spot) -> int,
    i: int,
)
    requires
        is_pick(moves, keep, key, i),
    ensures
        pick(moves, keep, key) == Some(moves[i]),
{
    let chosen = choose|i: int| is_pick(moves, keep, key, i);
    lemma_pick_unique(moves, keep, key, i, chosen);
}

/// Where no move is kept, there is no pick.
pub proof fn lemma_pick_none(
    moves: Seq<Spot>,
    keep: spec_fn(Spot) -> bool,
    key: spec_fn(Spot) -> int,
)
    requires
        forall|j: int| 0 <= j < moves.len() ==> !keep(#[trigger] moves[j]),
    ensures
        pick(moves, keep, key) is None,
{
}

} // verus!
