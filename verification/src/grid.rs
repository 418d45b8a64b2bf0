//! The grid: cells, offsets between cells, where a cell lies in space, and the
//! timed glide of an entity from one cell center to the next.

use crate::soot::Soot;
use bevy::time::Timer;
use bevy::time::TimerMode;
use std::time::Duration;
use vstd::prelude::*;

verus! {

/// Number of columns; valid columns are `0..MAX_X`.
pub const MAX_X: i32 = 5;

/// Number of rows; valid rows are `0..MAX_Y`.
pub const MAX_Y: i32 = 5;

/// Distance in spatial units between the centers of two neighbouring cells.
pub const GRID_SPACING: i32 = 130;

/// How long a glide between two cells takes, in nanoseconds (200 ms).
pub const ANIMATION_NANOS: u64 = 200_000_000;

/// The cell that an entity occupies.
#[derive(Clone, Copy, Debug, PartialEq, Eq, Hash, Structural)]
pub struct GridLocation {
    pub x: i32,
    pub y: i32,
}

/// A step from one cell to another.
#[derive(Clone, Copy, Debug, PartialEq, Eq, Hash, Structural)]
pub struct Offset {
    pub x: i32,
    pub y: i32,
}

/// A point in space, in the units of `GRID_SPACING`.
#[derive(Clone, Copy, Debug, PartialEq, Eq, Hash, Structural)]
pub struct Position {
    pub x: i64,
    pub y: i64,
}

/// Column `x` and row `y` name a cell of the grid.
pub open spec fn on_grid(x: int, y: int) -> bool {
    0 <= x < MAX_X && 0 <= y < MAX_Y
}

impl GridLocation {
    /// The cell lies inside `[0, MAX_X) x [0, MAX_Y)`.
    pub open spec fn in_bounds(self) -> bool {
        on_grid(self.x as int, self.y as int)
    }

    /// The center of the cell: the location scaled by the grid spacing.
    pub open spec fn center(self) -> Position {
        Position { x: (self.x * GRID_SPACING) as i64, y: (self.y * GRID_SPACING) as i64 }
    }

    /// The cell where every agent starts: the first column of the last row.
    pub open spec fn spec_start() -> GridLocation {
        GridLocation { x: 0, y: (MAX_Y - 1) as i32 }
    }

    /// The goal cell: the last column of the first row.
    pub open spec fn spec_goal() -> GridLocation {
        GridLocation { x: (MAX_X - 1) as i32, y: 0 }
    }

    /// The cell where every agent starts.
    #[verifier::when_used_as_spec(spec_start)]
    pub fn start() -> (cell: GridLocation)
        ensures
            cell == GridLocation::spec_start(),
            cell.in_bounds(),
    {
        GridLocation { x: 0, y: MAX_Y - 1 }
    }

    /// The goal cell.
    #[verifier::when_used_as_spec(spec_goal)]
    pub fn goal() -> (cell: GridLocation)
        ensures
            cell == GridLocation::spec_goal(),
            cell.in_bounds(),
    {
        GridLocation { x: MAX_X - 1, y: 0 }
    }
}

impl Offset {
    /// The offset that moves nowhere; it stands for "no move".
    pub open spec fn is_zero(self) -> bool {
        self.x == 0 && self.y == 0
    }

    /// The squared Euclidean length.
    pub open spec fn length_squared(self) -> int {
        self.x * self.x + self.y * self.y
    }

    /// One step in exactly one of the four cardinal directions.
    pub open spec fn is_unit_step(self) -> bool {
        ||| (self.x == 1 && self.y == 0)
        ||| (self.x == -1 && self.y == 0)
        ||| (self.x == 0 && self.y == 1)
        ||| (self.x == 0 && self.y == -1)
    }

    /// Whether this is the zero offset.
    pub fn zero(&self) -> (b: bool)
        ensures
            b == self.is_zero(),
            b == (self.length_squared() == 0),
    {
        proof {
            lemma_length_squared(*self);
        }
        self.x == 0 && self.y == 0
    }

    /// Whether this is one step in exactly one cardinal direction, that is,
    /// whether its squared length is one.
    pub fn unit_step(&self) -> (b: bool)
        ensures
            b == self.is_unit_step(),
            b == (self.length_squared() == 1),
    {
        proof {
            lemma_length_squared(*self);
        }
        (self.y == 0 && (self.x == 1 || self.x == -1)) || (self.x == 0 && (self.y == 1 || self.y
            == -1))
    }
}

/// An offset has squared length zero exactly when it is the zero offset, and
/// squared length one exactly when it is a unit step along one axis.
pub proof fn lemma_length_squared(offset: Offset)
    ensures
        offset.length_squared() >= 0,
        offset.length_squared() == 0 <==> offset.is_zero(),
        offset.length_squared() == 1 <==> offset.is_unit_step(),
{
    let x = offset.x as int;
    let y = offset.y as int;
    assert(x * x >= 0 && (x * x == 0 <==> x == 0) && (x * x == 1 <==> (x == 1 || x == -1))
        && (x != 0 ==> x * x >= 1)) by (nonlinear_arith);
    assert(y * y >= 0 && (y * y == 0 <==> y == 0) && (y * y == 1 <==> (y == 1 || y == -1))
        && (y != 0 ==> y * y >= 1)) by (nonlinear_arith);
}

/// The center of `grid_location` in space.
pub fn center_of(grid_location: &GridLocation) -> (position: Position)
    ensures
        position == grid_location.center(),
        position.x == grid_location.x * GRID_SPACING,
        position.y == grid_location.y * GRID_SPACING,
{
    let spacing: i64 = GRID_SPACING as i64;
    assert(spacing == 130);
    Position { x: grid_location.x as i64 * spacing, y: grid_location.y as i64 * spacing }
}

/// Every cell of the grid in the order in which the board is laid out: column
/// by column, and within a column from row `0` upwards.
pub fn grid_cells() -> (cells: Vec<GridLocation>)
    ensures
        cells@.len() == MAX_X * MAX_Y,
        forall|x: int, y: int|
            on_grid(x, y) ==> #[trigger] cells@[x * MAX_Y + y] == (GridLocation {
                x: x as i32,
                y: y as i32,
            }),
{
    let mut cells: Vec<GridLocation> = Vec::new();
    let mut x: i32 = 0;
    while x < MAX_X
        invariant
            0 <= x <= MAX_X,
            cells@.len() == x * MAX_Y,
            forall|a: int, b: int|
                0 <= a < x && 0 <= b < MAX_Y ==> #[trigger] cells@[a * MAX_Y + b] == (GridLocation {
                    x: a as i32,
                    y: b as i32,
                }),
        decreases MAX_X - x,
    {
        let mut y: i32 = 0;
        while y < MAX_Y
            invariant
                0 <= x < MAX_X,
                0 <= y <= MAX_Y,
                cells@.len() == x * MAX_Y + y,
                forall|a: int, b: int|
                    (0 <= a < x && 0 <= b < MAX_Y) || (a == x && 0 <= b < y) ==> #[trigger] cells@[a
                        * MAX_Y + b] == (GridLocation { x: a as i32, y: b as i32 }),
            decreases MAX_Y - y,
        {
            cells.push(GridLocation { x, y });
            y = y + 1;
        }
        x = x + 1;
    }
    cells
}

/// Where an entity stands among the entities that share its cell.
#[derive(Clone, Copy, Debug, PartialEq, Eq, Structural)]
pub struct StackSlot {
    /// How many entities on the same cell come before this one.
    pub index: usize,
    /// How many entities lie on the cell, this one included.
    pub count: usize,
}

/// How many of `locations` are the cell `cell`.
pub open spec fn count_on(locations: Seq<GridLocation>, cell: GridLocation) -> nat
    decreases locations.len(),
{
    if locations.len() == 0 {
        0
    } else {
        count_on(locations.drop_last(), cell) + if locations.last() == cell {
            1nat
        } else {
            0nat
        }
    }
}

/// Counts how many of `locations` are the cell `cell`.
fn count_cell(locations: &Vec<GridLocation>, upto: usize, cell: GridLocation) -> (count: usize)
    requires
        upto <= locations@.len(),
    ensures
        count == count_on(locations@.take(upto as int), cell),
{
    let mut count: usize = 0;
    let mut j: usize = 0;
    while j < upto
        invariant
            j <= upto <= locations@.len(),
            count == count_on(locations@.take(j as int), cell),
            count <= j,
        decreases upto - j,
    {
        assert(locations@.take(j + 1).drop_last() == locations@.take(j as int));
        if locations[j] == cell {
            count += 1;
        }
        j += 1;
    }
    count
}

/// Groups entities by their cell, so that those which share a cell can be
/// laid out around its center: for each entity, in the order given, its place
/// among the entities on its cell and the number of entities there.
pub fn distribute_on_grid(locations: &Vec<GridLocation>) -> (slots: Vec<StackSlot>)
    ensures
        slots@.len() == locations@.len(),
        forall|i: int|
            0 <= i < locations@.len() ==> (#[trigger] slots@[i]).index == count_on(
                locations@.take(i),
                locations@[i],
            ) && slots@[i].count == count_on(locations@, locations@[i]),
{
    let mut slots: Vec<StackSlot> = Vec::new();
    let mut i: usize = 0;
    while i < locations.len()
        invariant
            i <= locations@.len(),
            slots@.len() == i,
            forall|k: int|
                0 <= k < i ==> (#[trigger] slots@[k]).index == count_on(
                    locations@.take(k),
                    locations@[k],
                ) && slots@[k].count == count_on(locations@, locations@[k]),
        decreases locations.len() - i,
    {
        let cell = locations[i];
        let index = count_cell(locations, i, cell);
        let count = count_cell(locations, locations.len(), cell);
        assert(locations@.take(locations@.len() as int) == locations@);
        slots.push(StackSlot { index, count });
        i += 1;
    }
    slots
}

/// An entity has ended its glide and rests on its cell.
#[derive(Clone, Copy, Debug, PartialEq, Eq, Structural)]
pub struct MovementComplete {
    pub entity: u64,
}

/// What one tick did to the glide of an entity.
#[derive(Clone, Copy, Debug, PartialEq, Eq, Structural)]
pub enum AnimationStep {
    /// The entity was already at rest; nothing moved.
    Idle,
    /// The glide goes on; `elapsed` of `duration` nanoseconds are behind it.
    Moving { elapsed: u64, duration: u64 },
    /// The glide ended in this tick: the entity now rests exactly at `position`.
    Arrived { position: Position },
}

/// The glide of an entity towards the center of its cell.
///
/// While `finished` is false the entity is on its way to `end` and `elapsed`
/// nanoseconds of `duration` have passed; once `finished` is true it rests.
#[derive(Clone, Copy, Debug, PartialEq, Eq, Structural)]
pub struct AnimateTranslation {
    pub end: Position,
    pub elapsed: u64,
    pub duration: u64,
    pub finished: bool,
}

/// Runs a one-shot `bevy::time::Timer` of length `duration`, with `elapsed`
/// already behind it, for `delta` more through `Timer::tick`, and reads the
/// timer back; all times are in nanoseconds.
///
/// Claimed of `Timer::tick` on a one-shot timer that is neither paused nor
/// finished: the timer finishes in this tick exactly when the time behind it
/// reaches its duration; a finished timer stands at its duration, an
/// unfinished one at the sum.
#[verifier::external_body]
fn tick_timer(duration: u64, elapsed: u64, delta: u64) -> (r: (u64, bool))
    ensures
        r.1 == (elapsed + delta >= duration),
        r.0 == if r.1 { duration as int } else { elapsed + delta },
{
    let mut timer = Timer::new(Duration::from_nanos(duration), TimerMode::Once);
    timer.set_elapsed(Duration::from_nanos(elapsed));
    timer.tick(Duration::from_nanos(delta));
    (timer.elapsed().as_nanos() as u64, timer.just_finished())
}

impl AnimateTranslation {
    /// The entity is at rest.
    pub open spec fn is_idle(self) -> bool {
        self.finished
    }

    /// A tick of `delta` nanoseconds ends the glide.
    pub open spec fn arrives_within(self, delta: u64) -> bool {
        !self.finished && self.elapsed + delta >= self.duration
    }

    /// The glide after a tick of `delta` nanoseconds.
    pub open spec fn ticked(self, delta: u64) -> AnimateTranslation {
        if self.finished {
            self
        } else if self.elapsed + delta >= self.duration {
            AnimateTranslation { elapsed: self.duration, finished: true, ..self }
        } else {
            AnimateTranslation { elapsed: (self.elapsed + delta) as u64, ..self }
        }
    }

    /// What a tick of `delta` nanoseconds reports.
    pub open spec fn step(self, delta: u64) -> AnimationStep {
        if self.finished {
            AnimationStep::Idle
        } else if self.elapsed + delta >= self.duration {
            AnimationStep::Arrived { position: self.end }
        } else {
            AnimationStep::Moving { elapsed: (self.elapsed + delta) as u64, duration: self.duration }
        }
    }

    /// The glide as it is after a restart towards `end`.
    pub open spec fn restarted(self, end: Position) -> AnimateTranslation {
        AnimateTranslation { end, elapsed: 0, finished: false, ..self }
    }

    /// A glide of `duration` nanoseconds that has already run out, so that the
    /// entity counts as at rest from the start.
    pub fn settled(duration: u64) -> (animation: AnimateTranslation)
        ensures
            animation == (AnimateTranslation {
                end: Position { x: 0, y: 0 },
                elapsed: duration,
                duration,
                finished: true,
            }),
    {
        let (elapsed, finished) = tick_timer(duration, 0, duration);
        AnimateTranslation { end: Position { x: 0, y: 0 }, elapsed, duration, finished }
    }

    /// Starts a glide towards `end` from the beginning.
    pub fn restart(&mut self, end: Position)
        ensures
            *final(self) == old(self).restarted(end),
    {
        self.end = end;
        self.elapsed = 0;
        self.finished = false;
    }

    /// Lets `delta` nanoseconds pass. A glide at rest stays as it is; a running
    /// one advances, and ends in the tick in which its time runs out.
    pub fn tick(&mut self, delta: u64) -> (step: AnimationStep)
        ensures
            *final(self) == old(self).ticked(delta),
            step == old(self).step(delta),
    {
        if self.finished {
            return AnimationStep::Idle;
        }
        let (elapsed, finished) = tick_timer(self.duration, self.elapsed, delta);
        self.elapsed = elapsed;
        self.finished = finished;
        if finished {
            AnimationStep::Arrived { position: self.end }
        } else {
            AnimationStep::Moving { elapsed, duration: self.duration }
        }
    }
}

/// The agents after a tick of `delta` nanoseconds: each glide has advanced,
/// and nothing else has changed.
pub open spec fn glided(soots: Seq<Soot>, delta: u64) -> Seq<Soot> {
    Seq::new(soots.len(), |i: int| Soot { animation: soots[i].animation.ticked(delta), ..soots[i] })
}

/// What a tick of `delta` nanoseconds reports of each agent, place by place.
pub open spec fn steps_of(soots: Seq<Soot>, delta: u64) -> Seq<AnimationStep> {
    Seq::new(soots.len(), |i: int| soots[i].animation.step(delta))
}

/// The agents whose glide ends within a tick of `delta` nanoseconds, in the
/// order of `soots`.
pub open spec fn arrivals(soots: Seq<Soot>, delta: u64) -> Seq<MovementComplete>
    decreases soots.len(),
{
    if soots.len() == 0 {
        Seq::empty()
    } else {
        let before = arrivals(soots.drop_last(), delta);
        if soots.last().animation.arrives_within(delta) {
            before.push(MovementComplete { entity: soots.last().entity })
        } else {
            before
        }
    }
}

/// Lets `delta` nanoseconds pass for every agent.
///
/// Returns what happened to each agent, place by place, and one event for
/// each agent whose glide ended in this tick.
pub fn animate_translation(soots: &mut Vec<Soot>, delta: u64) -> (report: (
    Vec<AnimationStep>,
    Vec<MovementComplete>,
))
    ensures
        final(soots)@ == glided(old(soots)@, delta),
        report.0@ == steps_of(old(soots)@, delta),
        report.1@ == arrivals(old(soots)@, delta),
{
    let mut steps: Vec<AnimationStep> = Vec::new();
    let mut events: Vec<MovementComplete> = Vec::new();
    let mut i: usize = 0;
    while i < soots.len()
        invariant
            i <= soots.len(),
            soots@.len() == old(soots)@.len(),
            forall|j: int| 0 <= j < i ==> #[trigger] soots@[j] == glided(old(soots)@, delta)[j],
            forall|j: int| i <= j < soots@.len() ==> #[trigger] soots@[j] == old(soots)@[j],
            steps@ == steps_of(old(soots)@.take(i as int), delta),
            events@ == arrivals(old(soots)@.take(i as int), delta),
        decreases soots.len() - i,
    {
        let mut soot = soots[i];
        let step = soot.animation.tick(delta);
        soots.set(i, soot);
        steps.push(step);
        if let AnimationStep::Arrived { .. } = step {
            events.push(MovementComplete { entity: soot.entity });
        }
        proof {
            assert(old(soots)@.take(i + 1).drop_last() == old(soots)@.take(i as int));
            assert(steps@ == steps_of(old(soots)@.take(i + 1), delta));
        }
        i += 1;
    }
    proof {
        assert(old(soots)@.take(soots.len() as int) == old(soots)@);
        assert(soots@ == glided(old(soots)@, delta));
    }
    (steps, events)
}

/// Reacts to a changed cell of an entity: a newly placed entity, and one
/// without a glide, jumps to the center of its cell at once; any other starts
/// to glide there.
///
/// Returns the position to jump to, if the entity jumps.
pub fn snap_to_grid(
    grid_location: &GridLocation,
    is_added: bool,
    animation: &mut Option<AnimateTranslation>,
) -> (jump: Option<Position>)
    ensures
        is_added || *old(animation) is None ==> jump == Some(grid_location.center())
            && *final(animation) == *old(animation),
        !is_added && *old(animation) is Some ==> jump is None && *final(animation) == Some(
            (*old(animation))->0.restarted(grid_location.center()),
        ),
{
    let destination = center_of(grid_location);
    if is_added {
        return Some(destination);
    }
    match animation {
        Some(glide) => {
            glide.restart(destination);
            None
        },
        None => Some(destination),
    }
}

} // verus!
