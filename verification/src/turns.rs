//! Whose turn it is, which loop is running, and when an episode is over.

use crate::fault::Fault;
use crate::grid::GridLocation;
use crate::grid::MovementComplete;
use crate::soot::find_soot;
use crate::soot::index_of;
use crate::soot::Soot;
use vstd::prelude::*;

verus! {

/// Which traversal of the level is running: `0` is the one that is recorded,
/// `1` the one in which the echo replays it.
#[derive(Clone, Copy, Debug, PartialEq, Eq, Structural)]
pub struct LoopCounter(pub i32);

/// The loop number of the agent whose move requests are accepted now.
#[derive(Clone, Copy, Debug, PartialEq, Eq, Structural)]
pub struct TurnCounter(pub i32);

impl LoopCounter {
    /// The counter is `0` or `1`.
    pub open spec fn wf(self) -> bool {
        0 <= self.0 <= 1
    }

    /// How many agents are active in this loop: one more than the counter.
    pub open spec fn agents(self) -> int {
        self.0 + 1
    }
}

impl TurnCounter {
    /// The turn belongs to one of the agents that are active in `loop_counter`.
    pub open spec fn wf(self, loop_counter: LoopCounter) -> bool {
        0 <= self.0 < loop_counter.agents()
    }
}

/// Whether the agents of `loop_number` can still move: none of them occupies
/// the goal cell.
pub open spec fn can_move(soots: Seq<Soot>, loop_number: int) -> bool {
    forall|i: int|
        0 <= i < soots.len() && (#[trigger] soots[i]).loop_number == loop_number
            ==> !soots[i].at_goal()
}

/// The turn that follows `turn` among `agents` agents, looking from the
/// `delta`-th place after it onwards: the first place, in round-robin order,
/// whose agent can still move; `0` if there is none up to and including
/// `turn` itself.
pub open spec fn next_mover(soots: Seq<Soot>, turn: int, agents: int, delta: int) -> int
    decreases agents + 1 - delta,
{
    if delta < 1 || delta > agents {
        0
    } else if can_move(soots, (turn + delta) % agents) {
        (turn + delta) % agents
    } else {
        next_mover(soots, turn, agents, delta + 1)
    }
}

/// The turn counter after the events of one tick, and the fault that they
/// show, if any.
pub open spec fn turn_after(
    turn: TurnCounter,
    loop_counter: LoopCounter,
    soots: Seq<Soot>,
    events: Seq<MovementComplete>,
) -> Result<TurnCounter, Fault> {
    if events.len() == 0 {
        Ok(turn)
    } else if events.len() > 1 {
        Err(Fault::MultipleMovementEvents)
    } else {
        match index_of(soots, events[0].entity) {
            None => Err(Fault::MissingAgent),
            Some(i) => if soots[i].loop_number != turn.0 {
                Err(Fault::WrongMover)
            } else {
                Ok(TurnCounter(next_mover(soots, turn.0 as int, loop_counter.agents(), 1) as i32))
            },
        }
    }
}

/// Whether any agent of `loop_number` occupies the goal cell.
fn reached_goal(soots: &Vec<Soot>, loop_number: i32) -> (reached: bool)
    ensures
        reached == !can_move(soots@, loop_number as int),
{
    let goal = GridLocation::goal();
    let mut i: usize = 0;
    while i < soots.len()
        invariant
            i <= soots.len(),
            goal == GridLocation::goal(),
            forall|j: int|
                0 <= j < i && (#[trigger] soots@[j]).loop_number == loop_number
                    ==> !soots@[j].at_goal(),
        decreases soots.len() - i,
    {
        if soots[i].loop_number == loop_number && soots[i].location == goal {
            return true;
        }
        i += 1;
    }
    false
}

/// Every place in `0..agents` is looked at when the search for the next mover
/// starts right after `turn`; so if it falls back to `0` without a mover,
/// nobody can move.
pub proof fn lemma_next_mover(soots: Seq<Soot>, turn: int, agents: int, delta: int)
    requires
        1 <= agents,
        0 <= turn < agents,
        1 <= delta <= agents + 1,
    ensures
        0 <= next_mover(soots, turn, agents, delta) < agents,
        can_move(soots, next_mover(soots, turn, agents, delta)) || (next_mover(
            soots,
            turn,
            agents,
            delta,
        ) == 0 && forall|d: int| delta <= d <= agents ==> !can_move(soots, #[trigger] ((turn + d) % agents))),
    decreases agents + 1 - delta,
{
    if delta <= agents {
        lemma_next_mover(soots, turn, agents, delta + 1);
    }
}

/// Counted from `turn`, the places `turn + 1, ..., turn + agents` are, modulo
/// `agents`, all of `0..agents`.
pub proof fn lemma_round_covers(turn: int, agents: int, place: int)
    requires
        1 <= agents,
        0 <= turn < agents,
        0 <= place < agents,
    ensures
        exists|d: int| 1 <= d <= agents && #[trigger] ((turn + d) % agents) == place,
{
    let d = if place > turn {
        place - turn
    } else {
        place - turn + agents
    };
    assert((turn + d) % agents == place) by {
        if place > turn {
            assert(turn + d == place);
            vstd::arithmetic::div_mod::lemma_small_mod(place as nat, agents as nat);
        } else {
            assert(turn + d == place + agents);
            vstd::arithmetic::div_mod::lemma_mod_add_multiples_vanish(place, agents);
            vstd::arithmetic::div_mod::lemma_small_mod(place as nat, agents as nat);
        }
    }
}

/// Searches the agents in round-robin order, starting right after `turn`, for
/// the first one that can still move.
fn rotate(soots: &Vec<Soot>, turn: i32, num_loops: i32) -> (next: i32)
    requires
        1 <= num_loops,
        0 <= turn < num_loops,
    ensures
        next == next_mover(soots@, turn as int, num_loops as int, 1),
{
    let mut turn_increment: i64 = 1;
    while turn_increment <= num_loops as i64
        invariant
            1 <= num_loops,
            0 <= turn < num_loops,
            1 <= turn_increment <= num_loops + 1,
            next_mover(soots@, turn as int, num_loops as int, 1) == next_mover(
                soots@,
                turn as int,
                num_loops as int,
                turn_increment as int,
            ),
        decreases num_loops + 1 - turn_increment,
    {
        let next: i32 = ((turn as i64 + turn_increment) % (num_loops as i64)) as i32;
        if !reached_goal(soots, next) {
            return next;
        }
        turn_increment += 1;
    }
    0
}

/// Passes the turn on when an agent has ended its glide.
///
/// Without an event nothing changes. With one event, of the agent whose turn
/// it is, the turn goes to the next agent in round-robin order that can still
/// move, and to `0` if nobody can. Anything else is a fault, and the turn
/// stays as it is.
pub fn next_turn(
    turn_counter: &mut TurnCounter,
    loop_counter: &LoopCounter,
    soots: &Vec<Soot>,
    movement_events: &Vec<MovementComplete>,
) -> (result: Result<(), Fault>)
    requires
        0 <= loop_counter.0 < i32::MAX,
        old(turn_counter).wf(*loop_counter),
    ensures
        match turn_after(*old(turn_counter), *loop_counter, soots@, movement_events@) {
            Ok(turn) => result is Ok && *final(turn_counter) == turn,
            Err(fault) => result == Err::<(), Fault>(fault) && *final(turn_counter) == *old(
                turn_counter,
            ),
        },
        final(turn_counter).wf(*loop_counter),
        result is Ok && movement_events@.len() == 1 ==> can_move(soots@, final(turn_counter).0 as int)
            || (final(turn_counter).0 == 0 && forall|n: int|
            0 <= n < loop_counter.agents() ==> !can_move(soots@, n)),
{
    if movement_events.len() == 0 {
        return Ok(());
    }
    if movement_events.len() > 1 {
        return Err(Fault::MultipleMovementEvents);
    }
    let mover = match find_soot(soots, movement_events[0].entity) {
        Some(i) => soots[i],
        None => {
            return Err(Fault::MissingAgent);
        },
    };
    if mover.loop_number != turn_counter.0 {
        return Err(Fault::WrongMover);
    }
    let num_loops: i32 = loop_counter.0 + 1;
    proof {
        let turn = turn_counter.0 as int;
        lemma_next_mover(soots@, turn, num_loops as int, 1);
        assert forall|n: int|
            0 <= n < num_loops && (forall|d: int|
                1 <= d <= num_loops ==> !can_move(
                    soots@,
                    #[trigger] ((turn + d) % (num_loops as int)),
                )) implies !can_move(soots@, n) by {
            lemma_round_covers(turn, num_loops as int, n);
        }
    }
    turn_counter.0 = rotate(soots, turn_counter.0, num_loops);
    Ok(())
}

/// Every agent rests on the goal cell.
pub open spec fn all_settled_at_goal(soots: Seq<Soot>) -> bool {
    forall|i: int|
        0 <= i < soots.len() ==> (#[trigger] soots[i]).animation.finished && soots[i].at_goal()
}

/// Whether the episode is over: it is exactly when every agent is at rest and
/// on the goal cell. An agent that is still gliding keeps the episode going,
/// also when its cell is already the goal.
pub fn detect_game_over(soots: &Vec<Soot>) -> (over: bool)
    ensures
        over == all_settled_at_goal(soots@),
        (exists|i: int| 0 <= i < soots@.len() && !(#[trigger] soots@[i]).animation.finished)
            ==> !over,
        (exists|i: int| 0 <= i < soots@.len() && !(#[trigger] soots@[i]).at_goal()) ==> !over,
{
    let goal = GridLocation::goal();
    let mut i: usize = 0;
    while i < soots.len()
        invariant
            i <= soots.len(),
            goal == GridLocation::goal(),
            forall|j: int|
                0 <= j < i ==> (#[trigger] soots@[j]).animation.finished && soots@[j].at_goal(),
        decreases soots.len() - i,
    {
        if !soots[i].animation.finished {
            return false;
        }
        if soots[i].location != goal {
            return false;
        }
        i += 1;
    }
    true
}

} // verus!
