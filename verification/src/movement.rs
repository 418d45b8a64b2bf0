//! Move requests: what they cost, when they are accepted, and what an
//! accepted move does to the agent.

use crate::fault::Fault;
use crate::grid::on_grid;
use crate::grid::GridLocation;
use crate::grid::Offset;
use crate::grid::MAX_X;
use crate::grid::MAX_Y;
use crate::inventory::Inventory;
use crate::soot::find_soot;
use crate::soot::index_of;
use crate::soot::is_first_with;
use crate::soot::Soot;
use vstd::prelude::*;

verus! {

/// An agent asks to move by `offset`.
#[derive(Clone, Copy, Debug, PartialEq, Eq, Structural)]
pub struct MoveAttempt {
    pub mover: u64,
    pub offset: Offset,
}

/// An accepted move: the agent goes by `offset` and pays `fuel_cost`.
#[derive(Clone, Copy, Debug, PartialEq, Eq, Structural)]
pub struct Move {
    pub mover: u64,
    pub offset: Offset,
    pub fuel_cost: i32,
}

/// What a move by `offset` costs: one unit of fuel if it goes left, and one
/// if it goes up. Right and down are free.
pub open spec fn fuel_cost_of(offset: Offset) -> int {
    (if offset.x < 0 {
        1int
    } else {
        0int
    }) + (if offset.y > 0 {
        1int
    } else {
        0int
    })
}

/// What a move by `offset` costs.
pub fn fuel_cost(offset: &Offset) -> (cost: i32)
    ensures
        cost == fuel_cost_of(*offset),
        offset.x < 0 || offset.y > 0 ==> cost >= 1,
        offset.x >= 0 && offset.y <= 0 ==> cost == 0,
{
    let mut cost: i32 = 0;
    if offset.x < 0 {
        cost += 1;
    }
    if offset.y > 0 {
        cost += 1;
    }
    cost
}

impl Soot {
    /// The agent has the fuel that a move by `offset` costs.
    pub open spec fn affords(self, offset: Offset) -> bool {
        fuel_cost_of(offset) <= self.inventory.fuel
    }

    /// A move by `offset` ends on a cell of the grid.
    pub open spec fn stays_on_grid(self, offset: Offset) -> bool {
        on_grid(self.location.x + offset.x, self.location.y + offset.y)
    }

    /// A move by `offset` is accepted: the agent can pay for it and it ends on
    /// the grid.
    pub open spec fn admits(self, offset: Offset) -> bool {
        self.affords(offset) && self.stays_on_grid(offset)
    }

    /// The move that is granted to the agent when it asks to go by `offset`.
    pub open spec fn granted(self, offset: Offset) -> Move {
        Move { mover: self.entity, offset, fuel_cost: fuel_cost_of(offset) as i32 }
    }

    /// The agent is a replay of an earlier loop, not the live agent.
    pub open spec fn is_echo(self) -> bool {
        self.loop_number != 0
    }

    /// Cell and fuel after `step` stay within the machine's integers.
    pub open spec fn fits(self, step: Move) -> bool {
        &&& i32::MIN <= self.location.x + step.offset.x <= i32::MAX
        &&& i32::MIN <= self.location.y + step.offset.y <= i32::MAX
        &&& step.fuel_cost > 0 ==> i32::MIN <= self.inventory.fuel - step.fuel_cost
    }

    /// The agent after `step`: it stands on the cell that the offset leads
    /// to and has paid the fuel. Nothing else about it changes.
    pub open spec fn moved(self, step: Move) -> Soot {
        Soot {
            location: GridLocation {
                x: (self.location.x + step.offset.x) as i32,
                y: (self.location.y + step.offset.y) as i32,
            },
            inventory: Inventory {
                fuel: if step.fuel_cost > 0 {
                    (self.inventory.fuel - step.fuel_cost) as i32
                } else {
                    self.inventory.fuel
                },
                ..self.inventory
            },
            ..self
        }
    }
}

/// The decision on the move attempts of one tick.
///
/// No attempt gives no move. One attempt is checked against the fuel and then
/// against the bounds of the grid: an accepted one gives the move with its
/// cost; a rejected one of the live agent is dropped; a rejected one of an
/// echo is a fault, as a recorded move must pass again. More than one
/// attempt, or one of an agent that does not exist, is a fault.
pub open spec fn validated(soots: Seq<Soot>, attempts: Seq<MoveAttempt>) -> Result<
    Option<Move>,
    Fault,
> {
    if attempts.len() == 0 {
        Ok(None)
    } else if attempts.len() > 1 {
        Err(Fault::MultipleMoveAttempts)
    } else {
        match index_of(soots, attempts[0].mover) {
            None => Err(Fault::MissingAgent),
            Some(i) => if soots[i].admits(attempts[0].offset) {
                Ok(Some(soots[i].granted(attempts[0].offset)))
            } else if soots[i].is_echo() {
                Err(Fault::ReplayRejected)
            } else {
                Ok(None)
            },
        }
    }
}

/// Decides on the move attempts of one tick.
pub fn validate_move(soots: &Vec<Soot>, attempts: &Vec<MoveAttempt>) -> (result: Result<
    Option<Move>,
    Fault,
>)
    ensures
        result == validated(soots@, attempts@),
{
    if attempts.len() == 0 {
        return Ok(None);
    }
    if attempts.len() > 1 {
        return Err(Fault::MultipleMoveAttempts);
    }
    let attempt = attempts[0];
    let soot = match find_soot(soots, attempt.mover) {
        Some(i) => soots[i],
        None => {
            return Err(Fault::MissingAgent);
        },
    };
    let offset = attempt.offset;
    let cost = fuel_cost(&offset);
    let next_x: i64 = soot.location.x as i64 + offset.x as i64;
    let next_y: i64 = soot.location.y as i64 + offset.y as i64;
    if cost > soot.inventory.fuel || next_x < 0 || next_x >= MAX_X as i64 || next_y < 0 || next_y
        >= MAX_Y as i64 {
        if soot.loop_number != 0 {
            return Err(Fault::ReplayRejected);
        }
        return Ok(None);
    }
    Ok(Some(Move { mover: soot.entity, offset, fuel_cost: cost }))
}

/// The agents after the validated moves of one tick.
///
/// Without a move they stay as they are. One move changes the agent that it
/// names, and no other. More than one move, or one of an agent that does not
/// exist, is a fault.
pub open spec fn applied(soots: Seq<Soot>, moves: Seq<Move>) -> Result<Seq<Soot>, Fault> {
    if moves.len() == 0 {
        Ok(soots)
    } else if moves.len() > 1 {
        Err(Fault::MultipleMoves)
    } else {
        match index_of(soots, moves[0].mover) {
            None => Err(Fault::MissingAgent),
            Some(i) => Ok(soots.update(i, soots[i].moved(moves[0]))),
        }
    }
}

/// The move of this tick, if it is one move of an agent that exists, keeps
/// that agent within the machine's integers.
pub open spec fn fits_mover(soots: Seq<Soot>, moves: Seq<Move>) -> bool {
    moves.len() == 1 ==> match index_of(soots, moves[0].mover) {
        Some(i) => soots[i].fits(moves[0]),
        None => true,
    }
}

/// Carries out the validated move of this tick: the mover goes to its new
/// cell and pays the fuel. On a fault nothing changes.
pub fn move_soot_on_grid(soots: &mut Vec<Soot>, moves: &Vec<Move>) -> (result: Result<(), Fault>)
    requires
        fits_mover(old(soots)@, moves@),
    ensures
        match applied(old(soots)@, moves@) {
            Ok(after) => result is Ok && final(soots)@ == after,
            Err(fault) => result == Err::<(), Fault>(fault) && final(soots)@ == old(soots)@,
        },
{
    if moves.len() == 0 {
        return Ok(());
    }
    if moves.len() > 1 {
        return Err(Fault::MultipleMoves);
    }
    let step = moves[0];
    match find_soot(soots, step.mover) {
        Some(i) => {
            let mut soot = soots[i];
            soot.location.x = soot.location.x + step.offset.x;
            soot.location.y = soot.location.y + step.offset.y;
            if step.fuel_cost > 0 {
                soot.inventory.fuel = soot.inventory.fuel - step.fuel_cost;
            }
            soots.set(i, soot);
            Ok(())
        },
        None => Err(Fault::MissingAgent),
    }
}

/// The moves that are pending after a decision: the accepted move, if there
/// is one.
pub open spec fn moves_of(decision: Result<Option<Move>, Fault>) -> Seq<Move> {
    match decision {
        Ok(Some(step)) => seq![step],
        _ => Seq::empty(),
    }
}

/// The agent after it has asked to go by each of `offsets` in turn: every
/// accepted move was carried out, every rejected one dropped.
pub open spec fn walked(soot: Soot, offsets: Seq<Offset>) -> Soot
    decreases offsets.len(),
{
    if offsets.len() == 0 {
        soot
    } else {
        let before = walked(soot, offsets.drop_last());
        if before.admits(offsets.last()) {
            before.moved(before.granted(offsets.last()))
        } else {
            before
        }
    }
}

/// The cells that the agent reaches while it asks to go by each of `offsets`
/// in turn: one for every accepted move, in their order.
pub open spec fn trail(soot: Soot, offsets: Seq<Offset>) -> Seq<GridLocation>
    decreases offsets.len(),
{
    if offsets.len() == 0 {
        Seq::empty()
    } else {
        let before = walked(soot, offsets.drop_last());
        if before.admits(offsets.last()) {
            trail(soot, offsets.drop_last()).push(walked(soot, offsets).location)
        } else {
            trail(soot, offsets.drop_last())
        }
    }
}

/// An accepted move can be carried out within the machine's integers. It
/// ends on the grid, takes exactly its cost from the fuel, and leaves the
/// fuel non-negative.
pub proof fn lemma_accepted_move(soot: Soot, offset: Offset)
    requires
        soot.admits(offset),
    ensures
        soot.fits(soot.granted(offset)),
        soot.moved(soot.granted(offset)).location.in_bounds(),
        soot.moved(soot.granted(offset)).location.x == soot.location.x + offset.x,
        soot.moved(soot.granted(offset)).location.y == soot.location.y + offset.y,
        soot.moved(soot.granted(offset)).inventory.fuel == soot.inventory.fuel - fuel_cost_of(
            offset,
        ),
        soot.moved(soot.granted(offset)).inventory.fuel >= 0,
        soot.moved(soot.granted(offset)).inventory.candies == soot.inventory.candies,
{
}

/// Fuel never goes negative: an agent whose fuel is not negative still has
/// non-negative fuel after any sequence of move requests, whichever of them
/// were accepted.
pub proof fn lemma_fuel_never_negative(soot: Soot, offsets: Seq<Offset>)
    requires
        soot.inventory.fuel >= 0,
    ensures
        walked(soot, offsets).inventory.fuel >= 0,
        walked(soot, offsets).inventory.fuel <= soot.inventory.fuel,
    decreases offsets.len(),
{
    if offsets.len() > 0 {
        lemma_fuel_never_negative(soot, offsets.drop_last());
        let before = walked(soot, offsets.drop_last());
        if before.admits(offsets.last()) {
            lemma_accepted_move(before, offsets.last());
        }
    }
}

/// Within one tick, too, fuel never goes negative: when no agent has negative
/// fuel, the move that validation accepts can be carried out, and afterwards
/// still no agent has negative fuel.
pub proof fn lemma_tick_keeps_fuel(soots: Seq<Soot>, attempts: Seq<MoveAttempt>)
    requires
        forall|i: int| 0 <= i < soots.len() ==> (#[trigger] soots[i]).inventory.fuel >= 0,
    ensures
        fits_mover(soots, moves_of(validated(soots, attempts))),
        applied(soots, moves_of(validated(soots, attempts))) matches Ok(after) && after.len()
            == soots.len() && forall|i: int|
            0 <= i < after.len() ==> (#[trigger] after[i]).inventory.fuel >= 0,
{
    let moves = moves_of(validated(soots, attempts));
    if moves.len() == 1 {
        let i = index_of(soots, attempts[0].mover)->0;
        assert(is_first_with(soots, attempts[0].mover, i));
        assert(moves[0] == soots[i].granted(attempts[0].offset));
        assert(moves[0].mover == attempts[0].mover);
        lemma_accepted_move(soots[i], attempts[0].offset);
    }
}

/// A move that would leave the grid is never accepted, whatever fuel the
/// agent has, and the agents stay where they are.
pub proof fn lemma_out_of_bounds_rejected(soots: Seq<Soot>, attempt: MoveAttempt)
    requires
        index_of(soots, attempt.mover) matches Some(i) && !soots[i].stays_on_grid(attempt.offset),
    ensures
        !(validated(soots, seq![attempt]) matches Ok(Some(_))),
        moves_of(validated(soots, seq![attempt])) == Seq::<Move>::empty(),
        applied(soots, moves_of(validated(soots, seq![attempt]))) == Ok::<Seq<Soot>, Fault>(soots),
{
}

/// A move that the agent cannot pay for is never accepted, and the agents
/// stay as they are.
pub proof fn lemma_unaffordable_rejected(soots: Seq<Soot>, attempt: MoveAttempt)
    requires
        index_of(soots, attempt.mover) matches Some(i) && !soots[i].affords(attempt.offset),
    ensures
        !(validated(soots, seq![attempt]) matches Ok(Some(_))),
        applied(soots, moves_of(validated(soots, seq![attempt]))) == Ok::<Seq<Soot>, Fault>(soots),
{
}

} // verus!
