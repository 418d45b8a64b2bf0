//! What a level is populated with: the agents, and the items that are placed
//! at random.

use crate::grid::AnimateTranslation;
use crate::grid::GridLocation;
use crate::grid::ANIMATION_NANOS;
use crate::grid::MAX_X;
use crate::grid::MAX_Y;
use crate::inventory::Inventory;
use crate::inventory::Item;
use crate::soot::Soot;
use crate::turns::LoopCounter;
use rand::Rng;
use vstd::prelude::*;

verus! {

/// How many candies a level holds.
pub const NUM_CANDIES: usize = 10;

/// How many units of fuel lie in a level.
pub const NUM_FUEL: usize = 2;

/// How many cells can hold an item: all but the start and the goal cell.
pub const FREE_CELLS: i32 = MAX_X * MAX_Y - 2;

/// The looks of a candy. They make no difference to the rules.
#[derive(Clone, Copy, Debug, PartialEq, Eq, Structural)]
pub enum CandyColor {
    Red,
    Green,
    Yellow,
}

/// An item that waits to be put on the grid.
#[derive(Clone, Copy, Debug, PartialEq, Eq, Structural)]
pub enum SpawnRequest {
    Candy { location: GridLocation, color: CandyColor },
    Fuel { location: GridLocation },
}

/// The items of a level. They are drawn once, for loop `0`, and put on the
/// grid again unchanged for the loop after it.
#[derive(Clone, Debug, PartialEq, Eq)]
pub struct Level {
    pub spawn: Vec<SpawnRequest>,
}

impl View for Level {
    type V = Seq<SpawnRequest>;

    open spec fn view(&self) -> Seq<SpawnRequest> {
        self.spawn@
    }
}

impl SpawnRequest {
    /// The cell on which the item will lie.
    pub open spec fn spec_location(self) -> GridLocation {
        match self {
            SpawnRequest::Candy { location, .. } => location,
            SpawnRequest::Fuel { location } => location,
        }
    }

    /// The kind of the item.
    pub open spec fn spec_item(self) -> Item {
        match self {
            SpawnRequest::Candy { .. } => Item::Candy,
            SpawnRequest::Fuel { .. } => Item::Fuel,
        }
    }

    /// The cell on which the item will lie.
    #[verifier::when_used_as_spec(spec_location)]
    pub fn location(self) -> (cell: GridLocation)
        ensures
            cell == self.spec_location(),
    {
        match self {
            SpawnRequest::Candy { location, .. } => location,
            SpawnRequest::Fuel { location } => location,
        }
    }

    /// The kind of the item.
    #[verifier::when_used_as_spec(spec_item)]
    pub fn item(self) -> (item: Item)
        ensures
            item == self.spec_item(),
    {
        match self {
            SpawnRequest::Candy { .. } => Item::Candy,
            SpawnRequest::Fuel { .. } => Item::Fuel,
        }
    }
}

impl Level {
    /// A level without items.
    pub fn new() -> (level: Level)
        ensures
            level@ == Seq::<SpawnRequest>::empty(),
    {
        Level { spawn: Vec::new() }
    }
}

impl Default for Level {
    fn default() -> (level: Level)
        ensures
            level@ == Seq::<SpawnRequest>::empty(),
    {
        Level::new()
    }
}

/// A cell that may hold an item: any cell of the grid but the start cell,
/// where the agents appear, and the goal cell, where the episode ends before
/// an item could be used.
pub open spec fn is_free_cell(cell: GridLocation) -> bool {
    cell.in_bounds() && cell != GridLocation::start() && cell != GridLocation::goal()
}

/// The place of the `k`-th free cell among all cells, which are counted
/// column by column and within a column from row `0` upwards: the places of
/// the start and of the goal cell are passed over.
pub open spec fn free_place(k: int) -> int {
    if k < MAX_Y - 1 {
        k
    } else if k + 1 < (MAX_X - 1) * MAX_Y {
        k + 1
    } else {
        k + 2
    }
}

/// The `k`-th free cell.
pub open spec fn nth_free_cell(k: int) -> GridLocation {
    GridLocation { x: (free_place(k) / MAX_Y as int) as i32, y: (free_place(k) % MAX_Y as int) as i32 }
}

/// The `FREE_CELLS` free cells are told apart by their numbers, and every
/// free cell has one.
pub proof fn lemma_free_cells(j: int, k: int, cell: GridLocation)
    requires
        0 <= j < FREE_CELLS,
        0 <= k < FREE_CELLS,
    ensures
        is_free_cell(nth_free_cell(k)),
        j != k ==> nth_free_cell(j) != nth_free_cell(k),
        is_free_cell(cell) ==> exists|n: int| 0 <= n < FREE_CELLS && #[trigger] nth_free_cell(n) == cell,
{
    if is_free_cell(cell) {
        let place = cell.x * MAX_Y + cell.y;
        let n = if place < MAX_Y - 1 {
            place
        } else if place < (MAX_X - 1) * MAX_Y {
            place - 1
        } else {
            place - 2
        };
        assert(free_place(n) == place);
        assert(nth_free_cell(n) == cell);
    }
}

/// The `k`-th free cell.
pub fn free_cell(k: i32) -> (cell: GridLocation)
    requires
        0 <= k < FREE_CELLS,
    ensures
        cell == nth_free_cell(k as int),
        is_free_cell(cell),
{
    let place: i32 = if k < MAX_Y - 1 {
        k
    } else if k + 1 < (MAX_X - 1) * MAX_Y {
        k + 1
    } else {
        k + 2
    };
    GridLocation { x: place / MAX_Y, y: place % MAX_Y }
}

/// The looks of the candy with number `k`.
pub fn candy_color(k: i32) -> (color: CandyColor)
    requires
        0 <= k < 3,
    ensures
        color == match k {
            0 => CandyColor::Red,
            1 => CandyColor::Green,
            _ => CandyColor::Yellow,
        },
{
    if k == 0 {
        CandyColor::Red
    } else if k == 1 {
        CandyColor::Green
    } else {
        CandyColor::Yellow
    }
}

/// Draws a number below `bound` with `rand::Rng::gen_range`, on the generator
/// that `rand::thread_rng` hands out.
///
/// Claimed of `gen_range(0..bound)`: it returns a number of the range, which
/// is not empty as `bound` is positive. Which one is left open.
#[verifier::external_body]
fn random_below(bound: i32) -> (drawn: i32)
    requires
        bound > 0,
    ensures
        0 <= drawn < bound,
{
    rand::thread_rng().gen_range(0..bound)
}

/// Draws the candies of a new level, each on a free cell chosen at random,
/// and adds them to what the level holds. Only loop `0` draws: in any other
/// loop the level stays as it is.
pub fn add_candies_to_level(level: &mut Level, loop_counter: &LoopCounter)
    ensures
        loop_counter.0 != 0 ==> final(level)@ == old(level)@,
        loop_counter.0 == 0 ==> {
            &&& final(level)@.len() == old(level)@.len() + NUM_CANDIES
            &&& final(level)@.take(old(level)@.len() as int) == old(level)@
            &&& forall|i: int|
                old(level)@.len() <= i < final(level)@.len() ==> (#[trigger] final(level)@[i])
                    is Candy && is_free_cell(final(level)@[i].location())
        },
{
    if loop_counter.0 != 0 {
        return ;
    }
    let mut n: usize = 0;
    while n < NUM_CANDIES
        invariant
            n <= NUM_CANDIES,
            level@.len() == old(level)@.len() + n,
            level@.take(old(level)@.len() as int) == old(level)@,
            forall|i: int|
                old(level)@.len() <= i < level@.len() ==> (#[trigger] level@[i]) is Candy
                    && is_free_cell(level@[i].location()),
        decreases NUM_CANDIES - n,
    {
        let color = candy_color(random_below(3));
        let location = free_cell(random_below(FREE_CELLS));
        level.spawn.push(SpawnRequest::Candy { location, color });
        n += 1;
    }
}

/// Draws the fuel of a new level, each unit on a free cell chosen at random,
/// and adds it to what the level holds. Only loop `0` draws: in any other
/// loop the level stays as it is.
pub fn add_fuel_to_level(level: &mut Level, loop_counter: &LoopCounter)
    ensures
        loop_counter.0 != 0 ==> final(level)@ == old(level)@,
        loop_counter.0 == 0 ==> {
            &&& final(level)@.len() == old(level)@.len() + NUM_FUEL
            &&& final(level)@.take(old(level)@.len() as int) == old(level)@
            &&& forall|i: int|
                old(level)@.len() <= i < final(level)@.len() ==> (#[trigger] final(level)@[i])
                    is Fuel && is_free_cell(final(level)@[i].location())
        },
{
    if loop_counter.0 != 0 {
        return ;
    }
    let mut n: usize = 0;
    while n < NUM_FUEL
        invariant
            n <= NUM_FUEL,
            level@.len() == old(level)@.len() + n,
            level@.take(old(level)@.len() as int) == old(level)@,
            forall|i: int|
                old(level)@.len() <= i < level@.len() ==> (#[trigger] level@[i]) is Fuel
                    && is_free_cell(level@[i].location()),
        decreases NUM_FUEL - n,
    {
        let location = free_cell(random_below(FREE_CELLS));
        level.spawn.push(SpawnRequest::Fuel { location });
        n += 1;
    }
}

/// Forgets the items of the level before a new one is drawn. Only loop `0`
/// starts a new level: in any other loop the level stays as it is.
pub fn reset_level(level: &mut Level, loop_counter: &LoopCounter)
    ensures
        loop_counter.0 == 0 ==> final(level)@ == Seq::<SpawnRequest>::empty(),
        loop_counter.0 != 0 ==> final(level)@ == old(level)@,
{
    if loop_counter.0 != 0 {
        return ;
    }
    level.spawn.clear();
}

/// The live agent as it enters a level: on the start cell, empty-handed and
/// at rest.
pub fn spawn_player(entity: u64) -> (soot: Soot)
    ensures
        soot == Soot::fresh(entity, 0),
{
    Soot {
        entity,
        loop_number: 0,
        location: GridLocation::start(),
        inventory: Inventory::empty(),
        animation: AnimateTranslation::settled(ANIMATION_NANOS),
    }
}

/// The echo as it enters a level, on the same cell and in the same state as
/// the live agent. There is an echo only in loop `1`.
pub fn spawn_past_self(entity: u64, loop_counter: &LoopCounter) -> (soot: Option<Soot>)
    ensures
        loop_counter.0 == 1 ==> soot == Some(Soot::fresh(entity, 1)),
        loop_counter.0 != 1 ==> soot is None,
{
    if loop_counter.0 != 1 {
        return None;
    }
    Some(
        Soot {
            entity,
            loop_number: 1,
            location: GridLocation::start(),
            inventory: Inventory::empty(),
            animation: AnimateTranslation::settled(ANIMATION_NANOS),
        },
    )
}

} // verus!
