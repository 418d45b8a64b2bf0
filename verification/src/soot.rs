//! The agents that move on the grid.

use crate::grid::AnimateTranslation;
use crate::grid::GridLocation;
use crate::grid::Position;
use crate::grid::ANIMATION_NANOS;
use crate::inventory::Inventory;
use vstd::prelude::*;

verus! {

/// An agent: the live one of the current loop (`loop_number == 0`) or the echo
/// that replays the loop before (`loop_number == 1`).
#[derive(Clone, Copy, Debug, PartialEq, Eq, Structural)]
pub struct Soot {
    /// The identity of the agent.
    pub entity: u64,
    /// The loop that the agent belongs to; also its place in the order of turns.
    pub loop_number: i32,
    /// The cell that the agent occupies.
    pub location: GridLocation,
    /// What the agent carries.
    pub inventory: Inventory,
    /// The glide of the agent towards the center of its cell.
    pub animation: AnimateTranslation,
}

impl Soot {
    /// An agent as it enters a level: on the start cell, with nothing in its
    /// inventory, and at rest.
    pub open spec fn fresh(entity: u64, loop_number: i32) -> Soot {
        Soot {
            entity,
            loop_number,
            location: GridLocation::start(),
            inventory: Inventory { candies: 0, fuel: 0 },
            animation: AnimateTranslation {
                end: Position { x: 0, y: 0 },
                elapsed: ANIMATION_NANOS,
                duration: ANIMATION_NANOS,
                finished: true,
            },
        }
    }

    /// The agent rests on the goal cell or glides towards it.
    pub open spec fn at_goal(self) -> bool {
        self.location == GridLocation::goal()
    }
}

/// `i` is the place of the first agent in `soots` whose identity is `entity`.
pub open spec fn is_first_with(soots: Seq<Soot>, entity: u64, i: int) -> bool {
    &&& 0 <= i < soots.len()
    &&& soots[i].entity == entity
    &&& forall|j: int| 0 <= j < i ==> (#[trigger] soots[j]).entity != entity
}

/// The place of the agent with identity `entity`: that of the first one, if
/// there are several; `None` if there is none.
pub open spec fn index_of(soots: Seq<Soot>, entity: u64) -> Option<int> {
    if exists|i: int| is_first_with(soots, entity, i) {
        Some(choose|i: int| is_first_with(soots, entity, i))
    } else {
        None
    }
}

/// `i` is the place of the only agent in `soots` that belongs to `loop_number`.
pub open spec fn is_sole_in_loop(soots: Seq<Soot>, loop_number: i32, i: int) -> bool {
    &&& 0 <= i < soots.len()
    &&& soots[i].loop_number == loop_number
    &&& forall|j: int|
        0 <= j < soots.len() && (#[trigger] soots[j]).loop_number == loop_number ==> j == i
}

/// The place of the agent of `loop_number`, if exactly one agent belongs to
/// that loop; `None` if none does or more than one.
pub open spec fn sole_in_loop(soots: Seq<Soot>, loop_number: i32) -> Option<int> {
    if exists|i: int| is_sole_in_loop(soots, loop_number, i) {
        Some(choose|i: int| is_sole_in_loop(soots, loop_number, i))
    } else {
        None
    }
}

/// Two lists of agents hold the same identities and loops, place by place.
pub open spec fn same_agents(a: Seq<Soot>, b: Seq<Soot>) -> bool {
    &&& a.len() == b.len()
    &&& forall|i: int|
        0 <= i < a.len() ==> (#[trigger] a[i]).entity == b[i].entity && a[i].loop_number
            == b[i].loop_number
}

/// Looking an agent up depends only on the identities, place by place.
pub proof fn lemma_same_agents(a: Seq<Soot>, b: Seq<Soot>, entity: u64, loop_number: i32)
    requires
        same_agents(a, b),
    ensures
        index_of(a, entity) == index_of(b, entity),
        sole_in_loop(a, loop_number) == sole_in_loop(b, loop_number),
{
    assert forall|i: int| is_first_with(a, entity, i) == is_first_with(b, entity, i) by {
        if is_first_with(a, entity, i) {
            assert(b[i].entity == a[i].entity);
            assert forall|j: int| 0 <= j < i implies (#[trigger] b[j]).entity != entity by {
                assert(a[j].entity == b[j].entity);
            }
        }
        if is_first_with(b, entity, i) {
            assert(b[i].entity == a[i].entity);
        }
    }
    assert forall|i: int|
        is_sole_in_loop(a, loop_number, i) == is_sole_in_loop(b, loop_number, i) by {
        if is_sole_in_loop(a, loop_number, i) {
            assert(b[i].loop_number == a[i].loop_number);
            assert forall|j: int|
                0 <= j < b.len() && (#[trigger] b[j]).loop_number == loop_number implies j == i by {
                assert(a[j].loop_number == b[j].loop_number);
            }
        }
        if is_sole_in_loop(b, loop_number, i) {
            assert(b[i].loop_number == a[i].loop_number);
        }
    }
}

/// Looks up the agent with identity `entity`.
pub fn find_soot(soots: &Vec<Soot>, entity: u64) -> (found: Option<usize>)
    ensures
        match found {
            Some(i) => index_of(soots@, entity) == Some(i as int) && i < soots@.len()
                && soots@[i as int].entity == entity,
            None => index_of(soots@, entity) is None,
        },
{
    let mut i: usize = 0;
    while i < soots.len()
        invariant
            i <= soots.len(),
            forall|j: int| 0 <= j < i ==> (#[trigger] soots@[j]).entity != entity,
        decreases soots.len() - i,
    {
        if soots[i].entity == entity {
            assert(is_first_with(soots@, entity, i as int));
            return Some(i);
        }
        i += 1;
    }
    None
}

/// Looks up the one agent that belongs to `loop_number`.
pub fn find_sole_in_loop(soots: &Vec<Soot>, loop_number: i32) -> (found: Option<usize>)
    ensures
        match found {
            Some(i) => sole_in_loop(soots@, loop_number) == Some(i as int) && i < soots@.len()
                && soots@[i as int].loop_number == loop_number,
            None => sole_in_loop(soots@, loop_number) is None,
        },
{
    let mut first: Option<usize> = None;
    let mut i: usize = 0;
    while i < soots.len()
        invariant
            i <= soots.len(),
            match first {
                Some(k) => k < i && soots@[k as int].loop_number == loop_number && forall|j: int|
                    0 <= j < i && (#[trigger] soots@[j]).loop_number == loop_number ==> j == k,
                None => forall|j: int| 0 <= j < i ==> (#[trigger] soots@[j]).loop_number != loop_number,
            },
        decreases soots.len() - i,
    {
        if soots[i].loop_number == loop_number {
            match first {
                Some(k) => {
                    assert forall|m: int| !is_sole_in_loop(soots@, loop_number, m) by {
                        if is_sole_in_loop(soots@, loop_number, m) {
                            assert(soots@[k as int].loop_number == loop_number);
                            assert(soots@[i as int].loop_number == loop_number);
                        }
                    }
                    return None;
                },
                None => {
                    first = Some(i);
                },
            }
        }
        i += 1;
    }
    match first {
        Some(k) => {
            assert(is_sole_in_loop(soots@, loop_number, k as int));
        },
        None => {},
    }
    first
}

} // verus!
