//! What an agent carries, and how items on the grid get into it.

use crate::fault::Fault;
use crate::grid::GridLocation;
use crate::soot::find_soot;
use crate::soot::index_of;
use crate::soot::lemma_same_agents;
use crate::soot::same_agents;
use crate::soot::Soot;
use vstd::prelude::*;

verus! {

/// The kinds of item that lie on the grid.
#[derive(Clone, Copy, Debug, PartialEq, Eq, Structural)]
pub enum Item {
    Candy,
    Fuel,
}

/// The counters of one agent. Neither is ever negative.
#[derive(Clone, Copy, Debug, PartialEq, Eq, Structural)]
pub struct Inventory {
    pub candies: i32,
    pub fuel: i32,
}

/// An agent picked up an item.
#[derive(Clone, Copy, Debug, PartialEq, Eq, Structural)]
pub struct ItemGet {
    pub soot: u64,
    pub item: Item,
}

/// An item lying on a cell of the grid.
#[derive(Clone, Copy, Debug, PartialEq, Eq, Structural)]
pub struct GridItem {
    pub entity: u64,
    pub location: GridLocation,
    pub item: Item,
}

/// One pickup: the item entity that leaves the grid and the event that tells
/// who got what.
#[derive(Clone, Copy, Debug, PartialEq, Eq, Structural)]
pub struct PickUp {
    pub despawn: u64,
    pub event: ItemGet,
}

impl Inventory {
    /// Both counters are non-negative.
    pub open spec fn wf(self) -> bool {
        self.candies >= 0 && self.fuel >= 0
    }

    /// There is room for one more `item`.
    pub open spec fn has_room(self, item: Item) -> bool {
        match item {
            Item::Candy => self.candies < i32::MAX,
            Item::Fuel => self.fuel < i32::MAX,
        }
    }

    /// The inventory with one more `item`.
    pub open spec fn with(self, item: Item) -> Inventory {
        match item {
            Item::Candy => Inventory { candies: (self.candies + 1) as i32, ..self },
            Item::Fuel => Inventory { fuel: (self.fuel + 1) as i32, ..self },
        }
    }

    /// An inventory with nothing in it.
    pub fn empty() -> (inventory: Inventory)
        ensures
            inventory == (Inventory { candies: 0, fuel: 0 }),
            inventory.wf(),
    {
        Inventory { candies: 0, fuel: 0 }
    }

    /// Counts one more `item`.
    pub fn add(&mut self, item: Item)
        requires
            old(self).has_room(item),
        ensures
            *final(self) == old(self).with(item),
            old(self).wf() ==> final(self).wf(),
    {
        match item {
            Item::Candy => self.candies += 1,
            Item::Fuel => self.fuel += 1,
        }
    }
}

/// The pickups of one agent at rest on `location`: one for each item on that
/// cell, in the order of `items`.
pub open spec fn pickups_at(soot: u64, location: GridLocation, items: Seq<GridItem>) -> Seq<PickUp>
    decreases items.len(),
{
    if items.len() == 0 {
        Seq::empty()
    } else {
        let before = pickups_at(soot, location, items.drop_last());
        let last = items.last();
        if last.location == location {
            before.push(PickUp { despawn: last.entity, event: ItemGet { soot, item: last.item } })
        } else {
            before
        }
    }
}

/// All pickups of one tick: agent by agent in the order of `soots`, and for
/// each agent that is at rest the items on its cell. An agent that is still
/// gliding picks nothing up, so that it cannot collect an item in passing.
pub open spec fn pickups(soots: Seq<Soot>, items: Seq<GridItem>) -> Seq<PickUp>
    decreases soots.len(),
{
    if soots.len() == 0 {
        Seq::empty()
    } else {
        let before = pickups(soots.drop_last(), items);
        let last = soots.last();
        if last.animation.finished {
            before + pickups_at(last.entity, last.location, items)
        } else {
            before
        }
    }
}

/// Finds what the agents pick up in this tick.
pub fn pick_up_item(soots: &Vec<Soot>, items: &Vec<GridItem>) -> (found: Vec<PickUp>)
    ensures
        found@ == pickups(soots@, items@),
{
    let mut found: Vec<PickUp> = Vec::new();
    let mut i: usize = 0;
    while i < soots.len()
        invariant
            i <= soots.len(),
            found@ == pickups(soots@.take(i as int), items@),
        decreases soots.len() - i,
    {
        let soot = soots[i];
        assert(soots@.take(i + 1).drop_last() == soots@.take(i as int));
        if soot.animation.finished {
            let ghost before = found@;
            let mut j: usize = 0;
            while j < items.len()
                invariant
                    j <= items.len(),
                    found@ == before + pickups_at(soot.entity, soot.location, items@.take(j as int)),
                decreases items.len() - j,
            {
                let item = items[j];
                assert(items@.take(j + 1).drop_last() == items@.take(j as int));
                if soot.location == item.location {
                    found.push(
                        PickUp {
                            despawn: item.entity,
                            event: ItemGet { soot: soot.entity, item: item.item },
                        },
                    );
                }
                j += 1;
            }
            assert(items@.take(items.len() as int) == items@);
        }
        i += 1;
    }
    assert(soots@.take(soots.len() as int) == soots@);
    found
}

/// The agents after one pickup event has been counted: the agent that the
/// event names has one more of the item; if there is no such agent, nothing
/// changes.
pub open spec fn credited(soots: Seq<Soot>, event: ItemGet) -> Seq<Soot> {
    match index_of(soots, event.soot) {
        Some(i) => soots.update(
            i,
            Soot { inventory: soots[i].inventory.with(event.item), ..soots[i] },
        ),
        None => soots,
    }
}

/// The agents after `events` have been counted one after the other.
pub open spec fn collected(soots: Seq<Soot>, events: Seq<ItemGet>) -> Seq<Soot>
    decreases events.len(),
{
    if events.len() == 0 {
        soots
    } else {
        credited(collected(soots, events.drop_last()), events.last())
    }
}

/// Every event names an agent that exists.
pub open spec fn all_found(soots: Seq<Soot>, events: Seq<ItemGet>) -> bool {
    forall|k: int| 0 <= k < events.len() ==> index_of(soots, (#[trigger] events[k]).soot) is Some
}

/// The agent that `event` names, if it exists, has room for the item.
pub open spec fn room_for(soots: Seq<Soot>, event: ItemGet) -> bool {
    match index_of(soots, event.soot) {
        Some(i) => soots[i].inventory.has_room(event.item),
        None => true,
    }
}

/// Counting `events` one after the other never overflows a counter.
pub open spec fn room_for_all(soots: Seq<Soot>, events: Seq<ItemGet>) -> bool {
    forall|k: int|
        0 <= k < events.len() ==> room_for(collected(soots, events.take(k)), #[trigger] events[k])
}

/// Counting pickups changes inventories only: the agents keep their places,
/// identities and loops.
pub proof fn lemma_collected_same_agents(soots: Seq<Soot>, events: Seq<ItemGet>)
    ensures
        same_agents(soots, collected(soots, events)),
    decreases events.len(),
{
    if events.len() > 0 {
        lemma_collected_same_agents(soots, events.drop_last());
    }
}

/// Counts every pickup of this tick in the inventory of the agent that made
/// it. If an event names an agent that does not exist, nothing is counted.
pub fn add_item_to_inventory(soots: &mut Vec<Soot>, events: &Vec<ItemGet>) -> (result: Result<
    (),
    Fault,
>)
    requires
        all_found(old(soots)@, events@) ==> room_for_all(old(soots)@, events@),
    ensures
        result is Ok <==> all_found(old(soots)@, events@),
        result is Ok ==> final(soots)@ == collected(old(soots)@, events@),
        result is Err ==> result == Err::<(), Fault>(Fault::MissingAgent) && final(soots)@ == old(
            soots,
        )@,
{
    let mut k: usize = 0;
    while k < events.len()
        invariant
            k <= events.len(),
            soots@ == old(soots)@,
            all_found(soots@, events@.take(k as int)),
        decreases events.len() - k,
    {
        if find_soot(soots, events[k].soot).is_none() {
            return Err(Fault::MissingAgent);
        }
        assert forall|m: int| 0 <= m < k + 1 implies index_of(
            soots@,
            (#[trigger] events@.take(k + 1)[m]).soot,
        ) is Some by {
            if m < k {
                assert(events@.take(k as int)[m] == events@[m]);
            }
        }
        k += 1;
    }
    assert(events@.take(events.len() as int) == events@);
    let mut k: usize = 0;
    while k < events.len()
        invariant
            k <= events.len(),
            all_found(old(soots)@, events@),
            room_for_all(old(soots)@, events@),
            soots@ == collected(old(soots)@, events@.take(k as int)),
        decreases events.len() - k,
    {
        let event = events[k];
        proof {
            lemma_collected_same_agents(old(soots)@, events@.take(k as int));
            lemma_same_agents(old(soots)@, soots@, event.soot, 0);
            assert(events@.take(k + 1).drop_last() == events@.take(k as int));
        }
        match find_soot(soots, event.soot) {
            Some(i) => {
                let mut soot = soots[i];
                soot.inventory.add(event.item);
                soots.set(i, soot);
            },
            None => {},
        }
        k += 1;
    }
    assert(events@.take(events.len() as int) == events@);
    Ok(())
}

} // verus!
