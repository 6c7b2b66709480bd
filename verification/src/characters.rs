//! The characters that the bot plays, as the game describes them.

use vstd::prelude::*;
use crate::shared::Position;
use crate::time::Timestamp;

verus! {

/// A stack of items in an inventory.
#[derive(Debug)]
pub struct Slot {
    pub code: String,
    pub quantity: u32,
}

pub struct SlotView {
    pub code: Seq<char>,
    pub quantity: u32,
}

impl View for Slot {
    type V = SlotView;

    open spec fn view(&self) -> SlotView {
        SlotView { code: self.code@, quantity: self.quantity }
    }
}

impl Clone for Slot {
    fn clone(&self) -> (r: Self)
        ensures
            r@ == self@,
    {
        Slot { code: self.code.clone(), quantity: self.quantity }
    }
}

/// A character: where it stands, until when its last action keeps it busy,
/// and what it carries.
#[derive(Debug)]
pub struct Character {
    pub name: String,
    pub position: Position,
    pub cooldown_expiration: Timestamp,
    pub inventory_max_items: u32,
    pub inventory: Vec<Slot>,
}

pub struct CharacterView {
    pub name: Seq<char>,
    pub position: Position,
    pub cooldown_expiration: Timestamp,
    pub inventory_max_items: u32,
    pub inventory: Seq<SlotView>,
}

pub open spec fn slots_view(slots: Seq<Slot>) -> Seq<SlotView> {
    slots.map_values(|s: Slot| s@)
}

impl View for Character {
    type V = CharacterView;

    open spec fn view(&self) -> CharacterView {
        CharacterView {
            name: self.name@,
            position: self.position,
            cooldown_expiration: self.cooldown_expiration,
            inventory_max_items: self.inventory_max_items,
            inventory: slots_view(self.inventory@),
        }
    }
}

/// The number of items in the slots.
pub open spec fn total_quantity(slots: Seq<SlotView>) -> int
    decreases slots.len(),
{
    if slots.len() == 0 {
        0
    } else {
        total_quantity(slots.drop_last()) + slots.last().quantity
    }
}

/// The first slot that holds at least one item.
pub open spec fn first_stocked(slots: Seq<SlotView>) -> Option<SlotView>
    decreases slots.len(),
{
    if slots.len() == 0 {
        None
    } else if slots[0].quantity > 0 {
        Some(slots[0])
    } else {
        first_stocked(slots.drop_first())
    }
}

/// The first stocked slot holds items and is one of the slots.
pub proof fn lemma_first_stocked_is_stocked(slots: Seq<SlotView>)
    ensures
        first_stocked(slots) matches Some(s) ==> s.quantity > 0 && slots.contains(s),
    decreases slots.len(),
{
    if slots.len() > 0 && slots[0].quantity == 0 {
        lemma_first_stocked_is_stocked(slots.drop_first());
        if let Some(s) = first_stocked(slots) {
            let k = choose|k: int| 0 <= k < slots.drop_first().len() && slots.drop_first()[k] == s;
            assert(slots[k + 1] == s);
        }
    } else if slots.len() > 0 {
        assert(slots[0] == slots[0]);
    }
}

impl CharacterView {
    /// The inventory holds as many items as it can.
    pub open spec fn is_full_inventory(self) -> bool {
        total_quantity(self.inventory) >= self.inventory_max_items
    }

    pub open spec fn first_item(self) -> Option<SlotView> {
        first_stocked(self.inventory)
    }

    /// Whole seconds of cooldown left at `now`; negative once it has been
    /// over for a full second.
    pub open spec fn cooldown_at(self, now: Timestamp) -> int {
        self.cooldown_expiration.seconds_until_spec(now)
    }

    /// The cooldown is over at `now`.
    pub open spec fn ready_at(self, now: Timestamp) -> bool {
        self.cooldown_expiration.not_after(now)
    }
}

impl Clone for Character {
    fn clone(&self) -> (r: Self)
        ensures
            r@ == self@,
    {
        let mut inventory: Vec<Slot> = Vec::new();
        let mut i: usize = 0;
        while i < self.inventory.len()
            invariant
                i <= self.inventory.len(),
                inventory@.len() == i,
                slots_view(inventory@) == slots_view(self.inventory@).take(i as int),
            decreases self.inventory.len() - i,
        {
            let ghost before = inventory@;
            let slot = self.inventory[i].clone();
            inventory.push(slot);
            assert forall|k: int| 0 <= k < i + 1 implies #[trigger] slots_view(inventory@)[k]
                == slots_view(self.inventory@)[k] by {
                if k < i {
                    assert(inventory@[k] == before[k]);
                    assert(slots_view(before)[k] == slots_view(self.inventory@).take(i as int)[k]);
                }
            }
            i += 1;
            assert(slots_view(inventory@) =~= slots_view(self.inventory@).take(i as int));
        }
        assert(slots_view(self.inventory@).take(i as int) =~= slots_view(self.inventory@));
        Character {
            name: self.name.clone(),
            position: self.position,
            cooldown_expiration: self.cooldown_expiration,
            inventory_max_items: self.inventory_max_items,
            inventory,
        }
    }
}

impl Character {
    /// Whether the inventory holds as many items as it can.
    pub fn is_full_inventory(&self) -> (r: bool)
        ensures
            r == self@.is_full_inventory(),
    {
        let ghost slots = slots_view(self.inventory@);
        let mut current_quantity: u128 = 0;
        let mut i: usize = 0;
        while i < self.inventory.len()
            invariant
                slots == slots_view(self.inventory@),
                i <= self.inventory.len(),
                current_quantity == total_quantity(slots.take(i as int)),
                current_quantity <= i * 0xffff_ffff,
            decreases self.inventory.len() - i,
        {
            assert(slots.take(i as int + 1).drop_last() =~= slots.take(i as int));
            current_quantity = current_quantity + self.inventory[i].quantity as u128;
            i += 1;
        }
        assert(slots.take(i as int) =~= slots);
        current_quantity >= self.inventory_max_items as u128
    }

    /// The first slot that holds at least one item.
    pub fn get_first_item(&self) -> (r: Option<Slot>)
        ensures
            match r {
                Some(s) => self@.first_item() == Some(s@),
                None => self@.first_item() is None,
            },
    {
        let ghost slots = slots_view(self.inventory@);
        assert(slots.subrange(0, slots.len() as int) =~= slots);
        let mut i: usize = 0;
        while i < self.inventory.len()
            invariant
                slots == slots_view(self.inventory@),
                i <= self.inventory.len(),
                first_stocked(slots) == first_stocked(slots.subrange(i as int, slots.len() as int)),
            decreases self.inventory.len() - i,
        {
            let ghost rest = slots.subrange(i as int, slots.len() as int);
            if self.inventory[i].quantity > 0 {
                return Some(self.inventory[i].clone());
            }
            assert(rest.drop_first() =~= slots.subrange(i as int + 1, slots.len() as int));
            i += 1;
        }
        None
    }

    /// Whole seconds of cooldown left at `now`, rounded toward zero.
    pub fn cooldown_sec_at(&self, now: &Timestamp) -> (r: i64)
        ensures
            r == self@.cooldown_at(*now),
    {
        self.cooldown_expiration.seconds_until(now)
    }

    /// Whole seconds of cooldown left now, by the system clock (which never
    /// reads inside a leap second).
    pub fn cooldown_sec(&self) -> (r: i64)
        ensures
            exists|now: Timestamp| !now.in_leap_second() && r == self@.cooldown_at(now),
    {
        let now = Timestamp::now();
        self.cooldown_sec_at(&now)
    }

    /// Whether the cooldown is over at `now`.
    pub fn is_ready_at(&self, now: &Timestamp) -> (r: bool)
        ensures
            r == self@.ready_at(*now),
    {
        self.cooldown_expiration.is_not_after(now)
    }
}

/// The smallest cooldown left at `now` among the characters.
pub open spec fn lowest_cooldown_spec(players: Seq<CharacterView>, now: Timestamp) -> Option<int>
    decreases players.len(),
{
    if players.len() == 0 {
        None
    } else {
        let c = players.last().cooldown_at(now);
        match lowest_cooldown_spec(players.drop_last(), now) {
            None => Some(c),
            Some(m) => Some(if c < m { c } else { m }),
        }
    }
}

pub open spec fn characters_view(players: Seq<Character>) -> Seq<CharacterView> {
    players.map_values(|c: Character| c@)
}

/// The smallest cooldown left at `now` among the characters, in whole
/// seconds; 1 when there is no character.
pub fn lowest_cooldown(players: &Vec<Character>, now: &Timestamp) -> (r: i64)
    ensures
        r == match lowest_cooldown_spec(characters_view(players@), *now) {
            Some(m) => m,
            None => 1,
        },
{
    let ghost all = characters_view(players@);
    let mut lowest: Option<i64> = None;
    let mut i: usize = 0;
    while i < players.len()
        invariant
            all == characters_view(players@),
            i <= players.len(),
            match lowest {
                Some(m) => lowest_cooldown_spec(all.take(i as int), *now) == Some(m as int),
                None => lowest_cooldown_spec(all.take(i as int), *now) is None,
            },
        decreases players.len() - i,
    {
        assert(all.take(i as int + 1).drop_last() =~= all.take(i as int));
        let c = players[i].cooldown_sec_at(now);
        lowest = match lowest {
            None => Some(c),
            Some(m) => Some(if c < m { c } else { m }),
        };
        i += 1;
    }
    assert(all.take(i as int) =~= all);
    match lowest {
        Some(m) => m,
        None => 1,
    }
}

/// The index of the first character with the given name.
pub fn find_character(players: &Vec<Character>, name: &String) -> (r: Option<usize>)
    ensures
        match r {
            Some(i) => i < players.len() && players@[i as int].name@ == name@ && forall|j: int|
                0 <= j < i ==> players@[j].name@ != name@,
            None => forall|j: int| 0 <= j < players.len() ==> players@[j].name@ != name@,
        },
{
    let mut i: usize = 0;
    while i < players.len()
        invariant
            i <= players.len(),
            forall|j: int| 0 <= j < i ==> players@[j].name@ != name@,
        decreases players.len() - i,
    {
        if players[i].name == *name {
            return Some(i);
        }
        i += 1;
    }
    None
}

} // verus!
