//! The shapes of the game API's answers, and how they become the model.

use vstd::prelude::*;
use crate::characters::{Character, CharacterView, Slot, SlotView};
use crate::effects::items_view;
use crate::shared::Position;
use crate::time::Timestamp;

verus! {

/// A stack of items in the bank.
#[derive(Clone, Debug)]
pub struct ItemApi {
    pub code: String,
    pub quantity: u32,
}

/// A stack of items in a character's inventory, as the API gives it.
#[derive(Clone, Debug)]
pub struct SlotApi {
    pub code: String,
    pub quantity: i32,
}

/// A character, as the API gives it.
#[derive(Clone, Debug)]
pub struct CharacterApi {
    pub name: String,
    pub x: i32,
    pub y: i32,
    pub cooldown_expiration: Timestamp,
    pub inventory_max_items: i32,
    pub inventory: Vec<SlotApi>,
}

/// A cell of the map.
#[derive(Clone, Debug)]
pub struct GameMapApi {
    pub name: String,
    pub skin: String,
    pub x: i32,
    pub y: i32,
    pub content: Option<Content>,
}

/// What stands on a cell: its kind (`type` in the API) and its code.
#[derive(Clone, Debug)]
pub struct Content {
    pub content_type: String,
    pub code: String,
}

/// The slot that an API slot describes; the quantity is converted as
/// `i32 as u32` converts it.
pub open spec fn slot_of(s: SlotApi) -> SlotView {
    SlotView { code: s.code@, quantity: s.quantity as u32 }
}

/// The character that an API character describes.
pub open spec fn character_of(c: CharacterApi) -> CharacterView {
    CharacterView {
        name: c.name@,
        position: Position { x: c.x, y: c.y },
        cooldown_expiration: c.cooldown_expiration,
        inventory_max_items: c.inventory_max_items as u32,
        inventory: c.inventory@.map_values(|s: SlotApi| slot_of(s)),
    }
}

/// The bank's items as code and quantity.
pub open spec fn bank_table(items: Seq<ItemApi>) -> Seq<(Seq<char>, u32)> {
    items.map_values(|i: ItemApi| (i.code@, i.quantity))
}

/// `key=value` pairs joined by `&`.
pub open spec fn joined_params(params: Seq<(Seq<char>, Seq<char>)>) -> Seq<char>
    decreases params.len(),
{
    if params.len() == 0 {
        Seq::empty()
    } else {
        let pair = params.last().0 + "="@ + params.last().1;
        if params.len() == 1 {
            pair
        } else {
            joined_params(params.drop_last()) + "&"@ + pair
        }
    }
}

/// The query part of a map search: `?` and the joined parameters, or
/// nothing without parameters.
pub open spec fn maps_query_spec(params: Option<Seq<(Seq<char>, Seq<char>)>>) -> Seq<char> {
    match params {
        Some(ps) => "?"@ + joined_params(ps),
        None => Seq::empty(),
    }
}

pub open spec fn params_view(params: Seq<(String, String)>) -> Seq<(Seq<char>, Seq<char>)> {
    params.map_values(|p: (String, String)| (p.0@, p.1@))
}

impl Slot {
    pub fn from_api(value: SlotApi) -> (r: Slot)
        ensures
            r@ == slot_of(value),
    {
        Slot { code: value.code, quantity: value.quantity as u32 }
    }
}

impl Character {
    pub fn from_api(value: CharacterApi) -> (r: Character)
        ensures
            r@ == character_of(value),
    {
        let ghost source = value.inventory@;
        let CharacterApi { name, x, y, cooldown_expiration, inventory_max_items, inventory: api_inventory } = value;
        let mut inventory: Vec<Slot> = Vec::new();
        let mut i: usize = 0;
        while i < api_inventory.len()
            invariant
                source == api_inventory@,
                i <= api_inventory.len(),
                inventory@.len() == i,
                forall|k: int| 0 <= k < i ==> (#[trigger] inventory@[k])@ == slot_of(source[k]),
            decreases api_inventory.len() - i,
        {
            let slot = Slot { code: api_inventory[i].code.clone(), quantity: api_inventory[i].quantity as u32 };
            inventory.push(slot);
            i += 1;
        }
        let r = Character {
            name,
            position: Position { x, y },
            cooldown_expiration,
            inventory_max_items: inventory_max_items as u32,
            inventory,
        };
        assert(r@.inventory =~= source.map_values(|s: SlotApi| slot_of(s)));
        r
    }
}

impl GameMapApi {
    pub fn get_position(&self) -> (p: Position)
        ensures
            p == (Position { x: self.x, y: self.y }),
    {
        Position::new(self.x, self.y)
    }
}

/// The bank's items as code and quantity, in order.
pub fn bank_items(items: &Vec<ItemApi>) -> (r: Vec<(String, u32)>)
    ensures
        items_view(r@) == bank_table(items@),
{
    let mut table: Vec<(String, u32)> = Vec::new();
    let mut i: usize = 0;
    while i < items.len()
        invariant
            i <= items.len(),
            table@.len() == i,
            forall|k: int| 0 <= k < i ==> (#[trigger] table@[k]).0@ == items@[k].code@ && table@[k].1 == items@[k].quantity,
        decreases items.len() - i,
    {
        table.push((items[i].code.clone(), items[i].quantity));
        i += 1;
    }
    assert(items_view(table@) =~= bank_table(items@));
    table
}

/// The query part of a map search: `?k1=v1&k2=v2`, or nothing without
/// parameters.
pub fn maps_query(params: &Option<Vec<(String, String)>>) -> (r: String)
    ensures
        r@ == maps_query_spec(match params {
            Some(ps) => Some(params_view(ps@)),
            None => None,
        }),
{
    match params {
        None => String::new(),
        Some(ps) => {
            let ghost pv = params_view(ps@);
            let mut query = String::from_str("?");
            let mut i: usize = 0;
            while i < ps.len()
                invariant
                    pv == params_view(ps@),
                    i <= ps.len(),
                    query@ == "?"@ + joined_params(pv.take(i as int)),
                decreases ps.len() - i,
            {
                let ghost prev = pv.take(i as int);
                assert(pv.take(i as int + 1).drop_last() =~= prev);
                if i > 0 {
                    query.append("&");
                }
                query.append(ps[i].0.as_str());
                query.append("=");
                query.append(ps[i].1.as_str());
                i += 1;
                proof {
                    let cur = pv.take(i as int);
                    assert(cur.last() == pv[i - 1]);
                    if i == 1 {
                        assert(prev =~= Seq::<(Seq<char>, Seq<char>)>::empty());
                        assert(joined_params(prev) =~= Seq::<char>::empty());
                    }
                }
                assert(query@ =~= "?"@ + joined_params(pv.take(i as int)));
            }
            assert(pv.take(i as int) =~= pv);
            query
        },
    }
}

} // verus!
