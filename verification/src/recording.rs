//! The record of one loop, and its replay by the echo in the next.

use crate::fault::Fault;
use crate::grid::Offset;
use crate::input::debuffered;
use crate::input::MoveBuffer;
use crate::movement::Move;
use crate::movement::MoveAttempt;
use crate::movement::trail;
use crate::movement::walked;
use crate::soot::find_sole_in_loop;
use crate::soot::sole_in_loop;
use crate::soot::Soot;
use crate::turns::LoopCounter;
use crate::turns::TurnCounter;
use vstd::prelude::*;

verus! {

/// The offsets of the accepted moves of the recorded loop, oldest first. In
/// the loop after, it is the queue from which the echo takes its moves.
#[derive(Clone, Debug, PartialEq, Eq)]
pub struct TimeLoopRecording {
    pub moves: Vec<Offset>,
}

impl View for TimeLoopRecording {
    type V = Seq<Offset>;

    open spec fn view(&self) -> Seq<Offset> {
        self.moves@
    }
}

impl TimeLoopRecording {
    /// A recording without moves.
    pub fn new() -> (recording: TimeLoopRecording)
        ensures
            recording@ == Seq::<Offset>::empty(),
    {
        TimeLoopRecording { moves: Vec::new() }
    }
}

impl Default for TimeLoopRecording {
    fn default() -> (recording: TimeLoopRecording)
        ensures
            recording@ == Seq::<Offset>::empty(),
    {
        TimeLoopRecording::new()
    }
}

/// The offsets of `moves`, in their order.
pub open spec fn offsets_of(moves: Seq<Move>) -> Seq<Offset> {
    Seq::new(moves.len(), |i: int| moves[i].offset)
}

/// Appends the offsets of the accepted moves of this tick to the recording,
/// in their order. Only loop `0` is recorded: in any other loop the recording
/// stays as it is.
pub fn record_moves(
    recording: &mut TimeLoopRecording,
    moves: &Vec<Move>,
    loop_counter: &LoopCounter,
)
    ensures
        loop_counter.0 == 0 ==> final(recording)@ == old(recording)@ + offsets_of(moves@),
        loop_counter.0 != 0 ==> final(recording)@ == old(recording)@,
{
    if loop_counter.0 != 0 {
        return ;
    }
    let mut i: usize = 0;
    while i < moves.len()
        invariant
            i <= moves.len(),
            recording@ == old(recording)@ + offsets_of(moves@.take(i as int)),
        decreases moves.len() - i,
    {
        recording.moves.push(moves[i].offset);
        assert(offsets_of(moves@.take(i + 1)) == offsets_of(moves@.take(i as int)).push(
            moves@[i as int].offset,
        ));
        i += 1;
    }
    assert(moves@.take(moves.len() as int) == moves@);
}

/// What the echo asks for in this tick.
///
/// It asks for nothing unless it is its turn (turn `1`), it is at rest, and
/// the recording still holds a move; then it asks to move by the oldest
/// offset of the recording. When it is its turn, there must be exactly one
/// echo.
pub open spec fn replayed(soots: Seq<Soot>, recording: Seq<Offset>, turn_counter: TurnCounter)
    -> Result<Option<MoveAttempt>, Fault> {
    if turn_counter.0 != 1 {
        Ok(None)
    } else {
        match sole_in_loop(soots, 1) {
            None => Err(Fault::MissingAgent),
            Some(i) => if !soots[i].animation.finished || recording.len() == 0 {
                Ok(None)
            } else {
                Ok(Some(MoveAttempt { mover: soots[i].entity, offset: recording[0] }))
            },
        }
    }
}

/// Takes the next move of the echo from the front of the recording. The
/// recording loses its oldest offset exactly when an attempt is made.
pub fn replay_move_attempts(
    soots: &Vec<Soot>,
    recording: &mut TimeLoopRecording,
    turn_counter: &TurnCounter,
) -> (result: Result<Option<MoveAttempt>, Fault>)
    ensures
        result == replayed(soots@, old(recording)@, *turn_counter),
        result matches Ok(Some(_)) ==> final(recording)@ == old(recording)@.drop_first(),
        !(result matches Ok(Some(_))) ==> final(recording)@ == old(recording)@,
{
    if turn_counter.0 != 1 {
        return Ok(None);
    }
    let echo = match find_sole_in_loop(soots, 1) {
        Some(i) => soots[i],
        None => {
            return Err(Fault::MissingAgent);
        },
    };
    if !echo.animation.finished {
        return Ok(None);
    }
    if recording.moves.len() == 0 {
        return Ok(None);
    }
    let offset = recording.moves.remove(0);
    assert(recording@ == old(recording)@.drop_first());
    Ok(Some(MoveAttempt { mover: echo.entity, offset }))
}

/// At most one agent asks to move in one tick: the live agent and the echo
/// never both make an attempt, whatever the slot and the recording hold.
pub proof fn lemma_one_attempt_per_tick(
    soots: Seq<Soot>,
    move_buffer: MoveBuffer,
    recording: Seq<Offset>,
    turn_counter: TurnCounter,
)
    ensures
        !(debuffered(soots, move_buffer, turn_counter) matches Ok(Some(_)) && replayed(
            soots,
            recording,
            turn_counter,
        ) matches Ok(Some(_))),
{
}

/// Goes on to the next loop when an episode is left behind: from loop `0` to
/// loop `1`, which replays the recording; from any other loop back to loop
/// `0`, with an empty recording.
pub fn swap_loop(loop_counter: &mut LoopCounter, recording: &mut TimeLoopRecording)
    ensures
        old(loop_counter).0 == 0 ==> final(loop_counter).0 == 1 && final(recording)@ == old(
            recording,
        )@,
        old(loop_counter).0 != 0 ==> final(loop_counter).0 == 0 && final(recording)@
            == Seq::<Offset>::empty(),
        final(loop_counter).wf(),
{
    if loop_counter.0 == 0 {
        loop_counter.0 += 1;
        return ;
    }
    loop_counter.0 = 0;
    recording.moves.clear();
}

/// What loop `0` records while the live agent asks to go by each of
/// `requests` in turn: the offsets of the accepted moves, in their order.
pub open spec fn recorded(soot: Soot, requests: Seq<Offset>) -> Seq<Offset>
    decreases requests.len(),
{
    if requests.len() == 0 {
        Seq::empty()
    } else {
        let before = walked(soot, requests.drop_last());
        if before.admits(requests.last()) {
            recorded(soot, requests.drop_last()) + offsets_of(
                seq![before.granted(requests.last())],
            )
        } else {
            recorded(soot, requests.drop_last())
        }
    }
}

/// Every offset of `recording` is accepted when the agent asks for them in
/// turn.
pub open spec fn replays_cleanly(soot: Soot, recording: Seq<Offset>) -> bool {
    forall|k: int|
        0 <= k < recording.len() ==> walked(soot, recording.take(k)).admits(
            #[trigger] recording[k],
        )
}

/// Recording and replay agree. Let the live agent ask to go by `requests` in
/// loop `0`, and let an echo that starts on the same cell with the same fuel
/// replay what was recorded, with nothing else touching either agent. Then
/// every replayed move is accepted, the echo passes through the same cells in
/// the same order, and it ends on the same cell with the same fuel.
pub proof fn lemma_echo_retraces(live: Soot, echo: Soot, requests: Seq<Offset>)
    requires
        echo.location == live.location,
        echo.inventory.fuel == live.inventory.fuel,
    ensures
        replays_cleanly(echo, recorded(live, requests)),
        trail(echo, recorded(live, requests)) == trail(live, requests),
        walked(echo, recorded(live, requests)).location == walked(live, requests).location,
        walked(echo, recorded(live, requests)).inventory.fuel == walked(
            live,
            requests,
        ).inventory.fuel,
    decreases requests.len(),
{
    if requests.len() > 0 {
        let earlier = requests.drop_last();
        let request = requests.last();
        lemma_echo_retraces(live, echo, earlier);
        let tape = recorded(live, earlier);
        let before = walked(live, earlier);
        if before.admits(request) {
            let longer = recorded(live, requests);
            assert(offsets_of(seq![before.granted(request)]) == seq![request]);
            assert(longer == tape.push(request));
            assert(longer.drop_last() == tape);
            assert(longer.last() == request);
            assert(walked(echo, tape).admits(request));
            assert forall|k: int| 0 <= k < longer.len() implies walked(
                echo,
                longer.take(k),
            ).admits(#[trigger] longer[k]) by {
                if k < tape.len() {
                    assert(longer.take(k) == tape.take(k));
                    assert(longer[k] == tape[k]);
                } else {
                    assert(longer.take(k) == tape);
                }
            }
        }
    }
}

} // verus!
