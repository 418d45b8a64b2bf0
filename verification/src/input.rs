//! From pressed directions to the one move request that the live agent makes.

use crate::fault::Fault;
use crate::grid::Offset;
use crate::movement::MoveAttempt;
use crate::soot::find_sole_in_loop;
use crate::soot::sole_in_loop;
use crate::soot::Soot;
use crate::turns::TurnCounter;
use vstd::prelude::*;

verus! {

/// The single slot that holds the latest direction that was asked for and not
/// yet used. The zero offset stands for an empty slot.
#[derive(Clone, Copy, Debug, PartialEq, Eq, Structural)]
pub struct MoveBuffer {
    pub next_move: Offset,
}

impl MoveBuffer {
    /// The slot is empty or holds one step in a cardinal direction.
    pub open spec fn wf(self) -> bool {
        self.next_move.is_zero() || self.next_move.is_unit_step()
    }

    /// The offset that waits in the slot, if any.
    pub open spec fn pending(self) -> Option<Offset> {
        if self.next_move.is_zero() {
            None
        } else {
            Some(self.next_move)
        }
    }

    /// The empty slot.
    pub open spec fn cleared() -> MoveBuffer {
        MoveBuffer { next_move: Offset { x: 0, y: 0 } }
    }

    /// An empty slot.
    pub fn new() -> (buffer: MoveBuffer)
        ensures
            buffer == MoveBuffer::cleared(),
            buffer.pending() is None,
            buffer.wf(),
    {
        MoveBuffer { next_move: Offset { x: 0, y: 0 } }
    }

    /// Stores `offset` in place of what the slot held, if `offset` is one
    /// step in a cardinal direction; any other offset is ignored.
    pub fn record(&mut self, offset: Offset)
        ensures
            offset.is_unit_step() ==> final(self).next_move == offset,
            !offset.is_unit_step() ==> *final(self) == *old(self),
            old(self).wf() ==> final(self).wf(),
    {
        if offset.unit_step() {
            self.next_move = offset;
        }
    }

    /// Takes the waiting offset out of the slot, which is empty afterwards.
    pub fn consume(&mut self) -> (taken: Option<Offset>)
        ensures
            taken == old(self).pending(),
            *final(self) == MoveBuffer::cleared(),
    {
        let offset = self.next_move;
        self.next_move = Offset { x: 0, y: 0 };
        if offset.zero() {
            None
        } else {
            Some(offset)
        }
    }
}

impl Default for MoveBuffer {
    fn default() -> (buffer: MoveBuffer)
        ensures
            buffer == MoveBuffer::cleared(),
    {
        MoveBuffer::new()
    }
}

/// Empties the slot, as at the start of every episode.
pub fn reset_move_buffer(move_buffer: &mut MoveBuffer)
    ensures
        *final(move_buffer) == MoveBuffer::cleared(),
{
    move_buffer.next_move = Offset { x: 0, y: 0 };
}

/// The step that the directions pressed in one tick ask for: the unit step in
/// the one direction that was pressed, if exactly one of the four was; nothing
/// if none was pressed or more than one.
pub open spec fn pressed_step(right: bool, left: bool, down: bool, up: bool) -> Option<Offset> {
    if right && !left && !down && !up {
        Some(Offset { x: 1, y: 0 })
    } else if left && !right && !down && !up {
        Some(Offset { x: -1i32, y: 0 })
    } else if down && !right && !left && !up {
        Some(Offset { x: 0, y: -1i32 })
    } else if up && !right && !left && !down {
        Some(Offset { x: 0, y: 1 })
    } else {
        None
    }
}

/// Takes the directions that were pressed in this tick. If exactly one of the
/// four was pressed, the step in that direction replaces what the slot held.
/// Otherwise the slot stays as it is: nothing pressed, or several directions
/// at once, whether they oppose each other or not.
pub fn process_movement_input(
    right: bool,
    left: bool,
    down: bool,
    up: bool,
    move_buffer: &mut MoveBuffer,
)
    ensures
        match pressed_step(right, left, down, up) {
            Some(step) => final(move_buffer).next_move == step,
            None => *final(move_buffer) == *old(move_buffer),
        },
        old(move_buffer).wf() ==> final(move_buffer).wf(),
{
    let mut offset = Offset { x: 0, y: 0 };
    let mut pressed: u8 = 0;
    if right {
        offset.x += 1;
        pressed += 1;
    }
    if left {
        offset.x -= 1;
        pressed += 1;
    }
    if down {
        offset.y -= 1;
        pressed += 1;
    }
    if up {
        offset.y += 1;
        pressed += 1;
    }
    if pressed == 1 {
        move_buffer.record(offset);
    }
}

/// What the live agent asks for in this tick.
///
/// It asks for nothing unless it is its turn (turn `0`), it is at rest, and an
/// offset waits in the slot; then it asks to move by that offset. When it is
/// its turn, there must be exactly one live agent.
pub open spec fn debuffered(soots: Seq<Soot>, move_buffer: MoveBuffer, turn_counter: TurnCounter)
    -> Result<Option<MoveAttempt>, Fault> {
    if turn_counter.0 != 0 {
        Ok(None)
    } else {
        match sole_in_loop(soots, 0) {
            None => Err(Fault::MissingAgent),
            Some(i) => if !soots[i].animation.finished {
                Ok(None)
            } else {
                match move_buffer.pending() {
                    None => Ok(None),
                    Some(offset) => Ok(Some(MoveAttempt { mover: soots[i].entity, offset })),
                }
            },
        }
    }
}

/// Turns the waiting offset into the move attempt of the live agent. The slot
/// is emptied exactly when an attempt is made: an offset that arrives while
/// the agent glides, or while it is not its turn, stays in the slot.
pub fn debuffer_move_inputs(
    soots: &Vec<Soot>,
    move_buffer: &mut MoveBuffer,
    turn_counter: &TurnCounter,
) -> (result: Result<Option<MoveAttempt>, Fault>)
    ensures
        result == debuffered(soots@, *old(move_buffer), *turn_counter),
        result matches Ok(Some(_)) ==> *final(move_buffer) == MoveBuffer::cleared(),
        !(result matches Ok(Some(_))) ==> *final(move_buffer) == *old(move_buffer),
{
    if turn_counter.0 != 0 {
        return Ok(None);
    }
    let player = match find_sole_in_loop(soots, 0) {
        Some(i) => soots[i],
        None => {
            return Err(Fault::MissingAgent);
        },
    };
    if !player.animation.finished {
        return Ok(None);
    }
    let offset = move_buffer.next_move;
    if offset.zero() {
        return Ok(None);
    }
    move_buffer.next_move = Offset { x: 0, y: 0 };
    Ok(Some(MoveAttempt { mover: player.entity, offset }))
}

} // verus!
