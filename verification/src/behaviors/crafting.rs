//! Going to a workshop and crafting an item.

use vstd::prelude::*;
use crate::behaviors::moving::{MovingBehavior, MovingState};
use crate::characters::{Character, CharacterView, Slot, SlotView, slots_view};
use crate::effects::{Action, ActionView, Reply, ReplyView, Step, StepView, items_view, replies_view};
use crate::errors::{Error, invalid_transition};
use crate::shared::Position;
use crate::time::Timestamp;

verus! {

/// The HTTP status with which the game refuses a craft because the
/// inventory is full.
pub const STATUS_CRAFT_INVENTORY_FULL: i32 = 478;

/// The item codes of a recipe's costs.
pub open spec fn cost_codes(costs: Seq<(Seq<char>, u32)>) -> Seq<Seq<char>> {
    costs.map_values(|c: (Seq<char>, u32)| c.0)
}

/// The slots whose item is among `codes`, in inventory order.
pub open spec fn slots_with_codes(slots: Seq<SlotView>, codes: Seq<Seq<char>>) -> Seq<SlotView>
    decreases slots.len(),
{
    if slots.len() == 0 {
        Seq::empty()
    } else {
        let rest = slots_with_codes(slots.drop_last(), codes);
        if codes.contains(slots.last().code) {
            rest.push(slots.last())
        } else {
            rest
        }
    }
}

/// The quantity in the first slot that holds `code`.
pub open spec fn first_quantity_of(slots: Seq<SlotView>, code: Seq<char>) -> Option<u32>
    decreases slots.len(),
{
    if slots.len() == 0 {
        None
    } else if slots[0].code == code {
        Some(slots[0].quantity)
    } else {
        first_quantity_of(slots.drop_first(), code)
    }
}

/// How many times the slots pay for one cost of the recipe.
pub open spec fn batches_for(slots: Seq<SlotView>, cost: (Seq<char>, u32)) -> u32 {
    match first_quantity_of(slots, cost.0) {
        Some(q) => q / cost.1,
        None => 0,
    }
}

/// The smallest number of batches over the costs, if there is a cost.
pub open spec fn fewest_batches(slots: Seq<SlotView>, costs: Seq<(Seq<char>, u32)>) -> Option<u32>
    decreases costs.len(),
{
    if costs.len() == 0 {
        None
    } else {
        let v = batches_for(slots, costs.last());
        match fewest_batches(slots, costs.drop_last()) {
            None => Some(v),
            Some(m) => Some(if v < m { v } else { m }),
        }
    }
}

/// Every cost whose item the slots hold asks for a positive quantity, so
/// that the number of batches is defined.
pub open spec fn batches_defined(slots: Seq<SlotView>, costs: Seq<(Seq<char>, u32)>) -> bool {
    forall|i: int|
        0 <= i < costs.len() && first_quantity_of(slots, #[trigger] costs[i].0) is Some
            ==> costs[i].1 > 0
}

/// `j` is the first slot of `slots` that holds `code`.
pub open spec fn is_first_stack(slots: Seq<SlotView>, code: Seq<char>, j: int) -> bool {
    &&& 0 <= j < slots.len()
    &&& slots[j].code == code
    &&& forall|k: int| 0 <= k < j ==> slots[k].code != code
}

/// `q` is what the first stack of the cost's item pays for, or 0 without
/// a stack.
pub open spec fn batches_of_first_stack(slots: Seq<SlotView>, cost: (Seq<char>, u32), q: u32) -> bool {
    ||| exists|j: int| is_first_stack(slots, cost.0, j) && q == slots[j].quantity / cost.1
    ||| !has_stack(slots, cost.0) && q == 0
}

/// Some slot of `slots` holds `code`.
pub open spec fn has_stack(slots: Seq<SlotView>, code: Seq<char>) -> bool {
    exists|j: int| 0 <= j < slots.len() && slots[j].code == code
}

proof fn lemma_first_quantity_index(slots: Seq<SlotView>, code: Seq<char>)
    ensures
        first_quantity_of(slots, code) matches Some(q) ==> exists|j: int|
            is_first_stack(slots, code, j) && slots[j].quantity == q,
        first_quantity_of(slots, code) is None ==> !has_stack(slots, code),
    decreases slots.len(),
{
    if slots.len() > 0 && slots[0].code != code {
        let rest = slots.drop_first();
        lemma_first_quantity_index(rest, code);
        if let Some(q) = first_quantity_of(rest, code) {
            let j = choose|j: int| is_first_stack(rest, code, j) && rest[j].quantity == q;
            assert(is_first_stack(slots, code, j + 1) && slots[j + 1].quantity == q) by {
                assert forall|k: int| 0 <= k < j + 1 implies slots[k].code != code by {
                    if k > 0 {
                        assert(slots[k] == rest[k - 1]);
                    }
                }
            }
        } else {
            assert forall|j: int| 0 <= j < slots.len() implies slots[j].code != code by {
                if j > 0 {
                    assert(slots[j] == rest[j - 1]);
                }
            }
        }
    } else if slots.len() > 0 {
        assert(is_first_stack(slots, code, 0));
    }
}

/// The first stack of a code, looked for from the end of the slots.
proof fn lemma_first_quantity_from_end(slots: Seq<SlotView>, code: Seq<char>)
    requires
        slots.len() > 0,
    ensures
        first_quantity_of(slots, code) == match first_quantity_of(slots.drop_last(), code) {
            Some(q) => Some(q),
            None => if slots.last().code == code {
                Some(slots.last().quantity)
            } else {
                None
            },
        },
    decreases slots.len(),
{
    reveal_with_fuel(first_quantity_of, 2);
    if slots.len() > 1 {
        assert(slots.drop_last()[0] == slots[0]);
        if slots[0].code != code {
            lemma_first_quantity_from_end(slots.drop_first(), code);
            assert(slots.drop_first().drop_last() =~= slots.drop_last().drop_first());
            assert(slots.drop_first().last() == slots.last());
        }
    }
}

/// Keeping the slots of some codes keeps the first stack of each of them.
proof fn lemma_first_quantity_kept(slots: Seq<SlotView>, codes: Seq<Seq<char>>, code: Seq<char>)
    requires
        codes.contains(code),
    ensures
        first_quantity_of(slots_with_codes(slots, codes), code) == first_quantity_of(slots, code),
    decreases slots.len(),
{
    if slots.len() > 0 {
        let rest = slots.drop_last();
        lemma_first_quantity_kept(rest, codes, code);
        lemma_first_quantity_from_end(slots, code);
        if codes.contains(slots.last().code) {
            let kept = slots_with_codes(slots, codes);
            assert(kept.drop_last() =~= slots_with_codes(rest, codes));
            lemma_first_quantity_from_end(kept, code);
        }
    }
}

/// The fewest batches over non-empty costs is at most each cost's batches
/// and equal to one of them.
proof fn lemma_fewest_batches_is_min(slots: Seq<SlotView>, costs: Seq<(Seq<char>, u32)>)
    ensures
        costs.len() == 0 ==> fewest_batches(slots, costs) is None,
        costs.len() > 0 ==> (fewest_batches(slots, costs) matches Some(m) && (forall|i: int|
            0 <= i < costs.len() ==> m <= batches_for(slots, #[trigger] costs[i])) && exists|i: int|
            0 <= i < costs.len() && m == batches_for(slots, costs[i])),
    decreases costs.len(),
{
    if costs.len() > 0 {
        let rest = costs.drop_last();
        lemma_fewest_batches_is_min(slots, rest);
        let v = batches_for(slots, costs.last());
        if let Some(m) = fewest_batches(slots, rest) {
            let i0 = choose|i: int| 0 <= i < rest.len() && m == batches_for(slots, rest[i]);
            assert(costs[i0] == rest[i0]);
            assert forall|i: int| 0 <= i < costs.len() implies fewest_batches(slots, costs)->0 <= batches_for(
                slots,
                #[trigger] costs[i],
            ) by {
                if i < costs.len() - 1 {
                    assert(costs[i] == rest[i]);
                }
            }
        }
    }
}

#[derive(Clone, Copy, Debug, PartialEq, Eq, Structural)]
pub enum CraftingState {
    Empty,
    InCraftPosition,
    Finish,
}

/// Walks to a workshop, crafts an item there, then finishes.
#[derive(Clone, Copy, Debug, PartialEq, Eq, Structural)]
pub struct CraftingBehavior {
    pub current_state: CraftingState,
    pub moving_behavior: MovingBehavior,
}

impl View for CraftingBehavior {
    type V = CraftingBehavior;

    open spec fn view(&self) -> CraftingBehavior {
        *self
    }
}

impl CraftingBehavior {
    pub open spec fn initial(moving_behavior: MovingBehavior) -> CraftingBehavior {
        CraftingBehavior { current_state: CraftingState::Empty, moving_behavior }
    }

    pub open spec fn restarted(self) -> CraftingBehavior {
        CraftingBehavior { current_state: CraftingState::Empty, ..self }
    }

    pub open spec fn after_walk(self, m: MovingBehavior) -> CraftingBehavior {
        if m.current_state == MovingState::Finish {
            CraftingBehavior {
                current_state: CraftingState::InCraftPosition,
                moving_behavior: self.moving_behavior.restarted(),
            }
        } else {
            CraftingBehavior { moving_behavior: m, ..self }
        }
    }

    pub open spec fn finished(self) -> CraftingBehavior {
        CraftingBehavior { current_state: CraftingState::Finish, ..self }
    }

    /// Crafting `quantity` of `code`: finished when it succeeded or when the
    /// game refused it for a full inventory; tried again otherwise.
    pub open spec fn craft_step(self, code: Seq<char>, quantity: u32, replies: Seq<ReplyView>) -> StepView<CraftingBehavior> {
        if replies.len() == 0 {
            StepView::Perform(ActionView::Craft(code, quantity))
        } else if replies[0].succeeded() || replies[0].failed_with_status(STATUS_CRAFT_INVENTORY_FULL) {
            StepView::Next(Ok(self.finished()))
        } else {
            StepView::Next(Ok(self))
        }
    }

    /// The inventory slots that hold an ingredient of the recipe.
    pub open spec fn ingredients_in(character: CharacterView, costs: Seq<(Seq<char>, u32)>) -> Seq<SlotView> {
        slots_with_codes(character.inventory, cost_codes(costs))
    }

    /// The step computes the quantity to craft from the inventory.
    pub open spec fn computes_quantity(
        self,
        character: CharacterView,
        costs: Seq<(Seq<char>, u32)>,
        maybe_quantity: Option<u32>,
        now: Timestamp,
    ) -> bool {
        &&& character.cooldown_at(now) < 0
        &&& self.current_state == CraftingState::InCraftPosition
        &&& maybe_quantity is None
        &&& costs.len() == Self::ingredients_in(character, costs).len()
    }

    /// One step: during a cooldown nothing changes. Otherwise the character
    /// walks to the workshop, then crafts there: the given quantity, or
    /// else as many as the first stack of each ingredient pays for (the
    /// craft finishes at once, with nothing crafted, when some ingredient
    /// has no stack).
    pub open spec fn step(
        self,
        character: CharacterView,
        craft_position: Position,
        costs: Seq<(Seq<char>, u32)>,
        code_item: Seq<char>,
        maybe_quantity: Option<u32>,
        now: Timestamp,
        replies: Seq<ReplyView>,
    ) -> StepView<CraftingBehavior> {
        if character.cooldown_at(now) >= 0 {
            StepView::Next(Ok(self))
        } else {
            match self.current_state {
                CraftingState::Empty => self.moving_behavior.step(
                    character,
                    craft_position,
                    now,
                    replies,
                ).map_next(|m: MovingBehavior| self.after_walk(m)),
                CraftingState::InCraftPosition => match maybe_quantity {
                    Some(quantity) => self.craft_step(code_item, quantity, replies),
                    None => {
                        let ingredients = Self::ingredients_in(character, costs);
                        if costs.len() != ingredients.len() {
                            StepView::Next(Ok(self.finished()))
                        } else {
                            self.craft_step(
                                code_item,
                                fewest_batches(ingredients, costs).unwrap_or(0),
                                replies,
                            )
                        }
                    },
                },
                CraftingState::Finish => StepView::Next(Err(invalid_transition())),
            }
        }
    }

    /// While the character is in cooldown, a step keeps the behavior as it
    /// is and asks for nothing.
    pub proof fn lemma_waits_during_cooldown(
        self,
        character: CharacterView,
        craft_position: Position,
        costs: Seq<(Seq<char>, u32)>,
        code_item: Seq<char>,
        maybe_quantity: Option<u32>,
        now: Timestamp,
        replies: Seq<ReplyView>,
    )
        requires
            character.cooldown_at(now) >= 0,
        ensures
            self.step(character, craft_position, costs, code_item, maybe_quantity, now, replies)
                == StepView::Next(Ok(self)),
    {
    }

    /// A step asks for at most one action: with one reply it is over, and
    /// it reads no reply beyond the first.
    pub proof fn lemma_one_action_per_step(
        self,
        character: CharacterView,
        craft_position: Position,
        costs: Seq<(Seq<char>, u32)>,
        code_item: Seq<char>,
        maybe_quantity: Option<u32>,
        now: Timestamp,
        replies: Seq<ReplyView>,
    )
        requires
            replies.len() >= 1,
        ensures
            self.step(character, craft_position, costs, code_item, maybe_quantity, now, replies).is_next(),
            self.step(character, craft_position, costs, code_item, maybe_quantity, now, replies) == self.step(
                character,
                craft_position,
                costs,
                code_item,
                maybe_quantity,
                now,
                replies.take(1),
            ),
    {
        self.moving_behavior.lemma_one_action_per_step(character, craft_position, now, replies);
    }

    /// When no quantity is given, the quantity asked for is the fewest
    /// batches that the recipe's costs allow: for each cost, at most the
    /// first inventory stack of its item divided by the cost (nothing when
    /// the item has no stack), and equal to one of these. The craft is asked
    /// for exactly when the inventory has as many stacks of the recipe's items
    /// as the recipe has costs.
    pub proof fn lemma_computed_quantity_is_fewest_batches(
        self,
        character: CharacterView,
        craft_position: Position,
        costs: Seq<(Seq<char>, u32)>,
        code_item: Seq<char>,
        now: Timestamp,
    )
        requires
            character.cooldown_at(now) < 0,
            self.current_state == CraftingState::InCraftPosition,
        ensures
            ({
                let st = self.step(character, craft_position, costs, code_item, None, now, Seq::empty());
                let inv = character.inventory;
                &&& st is Perform <==> costs.len() == Self::ingredients_in(character, costs).len()
                &&& st matches StepView::Perform(a) ==> (a matches ActionView::Craft(code, q) && code == code_item
                    && (forall|i: int, j: int|
                    0 <= i < costs.len() && is_first_stack(inv, #[trigger] costs[i].0, j) ==> q
                        <= #[trigger] inv[j].quantity / costs[i].1) && (forall|i: int|
                    0 <= i < costs.len() && !has_stack(inv, #[trigger] costs[i].0) ==> q == 0) && (costs.len()
                    == 0 ==> q == 0) && (costs.len() > 0 ==> exists|i: int|
                    0 <= i < costs.len() && batches_of_first_stack(inv, #[trigger] costs[i], q)))
            }),
    {
        let inv = character.inventory;
        let codes = cost_codes(costs);
        let items = Self::ingredients_in(character, costs);
        lemma_fewest_batches_is_min(items, costs);
        assert forall|i: int| 0 <= i < costs.len() implies batches_for(items, #[trigger] costs[i]) == (
        match first_quantity_of(inv, costs[i].0) {
            Some(q) => q / costs[i].1,
            None => 0u32,
        }) by {
            assert(codes[i] == costs[i].0);
            lemma_first_quantity_kept(inv, codes, costs[i].0);
        }
        assert forall|i: int, j: int|
            0 <= i < costs.len() && is_first_stack(inv, costs[i].0, j) implies first_quantity_of(
            inv,
            costs[i].0,
        ) == Some(inv[j].quantity) by {
            lemma_first_quantity_index(inv, costs[i].0);
            if let Some(q) = first_quantity_of(inv, costs[i].0) {
                let j2 = choose|j2: int| is_first_stack(inv, costs[i].0, j2) && inv[j2].quantity == q;
                assert(j2 == j);
            }
        }
        assert forall|i: int| 0 <= i < costs.len() && !has_stack(inv, costs[i].0) implies first_quantity_of(
            inv,
            costs[i].0,
        ) is None by {
            lemma_first_quantity_index(inv, costs[i].0);
        }
        assert forall|i: int| 0 <= i < costs.len() && has_stack(inv, costs[i].0) implies exists|j: int|
            is_first_stack(inv, costs[i].0, j) && first_quantity_of(inv, costs[i].0) == Some(inv[j].quantity) by {
            lemma_first_quantity_index(inv, costs[i].0);
        }
        if costs.len() > 0 && costs.len() == items.len() {
            let m = fewest_batches(items, costs)->0;
            let i0 = choose|i: int| 0 <= i < costs.len() && m == batches_for(items, costs[i]);
            lemma_first_quantity_index(inv, costs[i0].0);
            if has_stack(inv, costs[i0].0) {
                let j0 = choose|j: int| is_first_stack(inv, costs[i0].0, j) && first_quantity_of(inv, costs[i0].0)
                    == Some(inv[j].quantity);
                assert(is_first_stack(inv, costs[i0].0, j0) && m == inv[j0].quantity / costs[i0].1);
            } else {
                assert(!has_stack(inv, costs[i0].0) && m == 0);
            }
            assert(batches_of_first_stack(inv, costs[i0], m));
        }
    }

    /// A craft is asked for only at the workshop, and for the given quantity
    /// when one is given.
    pub proof fn lemma_crafts_at_workshop(
        self,
        character: CharacterView,
        craft_position: Position,
        costs: Seq<(Seq<char>, u32)>,
        code_item: Seq<char>,
        maybe_quantity: Option<u32>,
        now: Timestamp,
        replies: Seq<ReplyView>,
    )
        ensures
            self.step(character, craft_position, costs, code_item, maybe_quantity, now, replies) matches StepView::Perform(
                ActionView::Craft(code, quantity),
            ) ==> self.current_state == CraftingState::InCraftPosition && code == code_item && (
            maybe_quantity matches Some(q) ==> quantity == q),
    {
        self.moving_behavior.lemma_moves_only_elsewhere(character, craft_position, now, replies);
    }

    /// At the workshop, with a quantity given or every ingredient in the
    /// inventory, the behavior finishes exactly when the craft was answered
    /// with success or refused because the inventory is full, and stays as
    /// it was after any other failure. Without a quantity and with some
    /// ingredient missing, it finishes at once and asks for nothing.
    pub proof fn lemma_finishes_after_craft(
        self,
        character: CharacterView,
        craft_position: Position,
        costs: Seq<(Seq<char>, u32)>,
        code_item: Seq<char>,
        maybe_quantity: Option<u32>,
        now: Timestamp,
        replies: Seq<ReplyView>,
    )
        requires
            character.cooldown_at(now) < 0,
            self.current_state == CraftingState::InCraftPosition,
        ensures
            maybe_quantity is None && costs.len() != Self::ingredients_in(character, costs).len() ==> self.step(
                character,
                craft_position,
                costs,
                code_item,
                maybe_quantity,
                now,
                replies,
            ) == StepView::Next(Ok((CraftingBehavior { current_state: CraftingState::Finish, ..self }))),
            (maybe_quantity is Some || costs.len() == Self::ingredients_in(character, costs).len()) ==> (
            (self.step(character, craft_position, costs, code_item, maybe_quantity, now, replies) matches StepView::Next(
                Ok(b),
            ) && b.current_state == CraftingState::Finish) <==> (replies.len() >= 1 && (replies[0].succeeded()
                || replies[0].failed_with_status(STATUS_CRAFT_INVENTORY_FULL)))),
            (maybe_quantity is Some || costs.len() == Self::ingredients_in(character, costs).len()) && replies.len()
                >= 1 && !replies[0].succeeded() && !replies[0].failed_with_status(STATUS_CRAFT_INVENTORY_FULL)
                ==> self.step(character, craft_position, costs, code_item, maybe_quantity, now, replies)
                == StepView::Next(Ok(self)),
    {
    }

    /// The walk it holds has not finished: it is reset whenever it finishes.
    pub open spec fn well_formed(self) -> bool {
        self.moving_behavior.current_state == MovingState::Empty
    }

    /// Steps keep the behavior well formed, and a well-formed behavior
    /// stops on an error only when asked to go on after finishing.
    pub proof fn lemma_steps_keep_well_formed(self, character: CharacterView, craft_position: Position, costs: Seq<(Seq<char>, u32)>, code_item: Seq<char>, maybe_quantity: Option<u32>, now: Timestamp, replies: Seq<ReplyView>)
        requires
            self.well_formed(),
        ensures
            self.step(character, craft_position, costs, code_item, maybe_quantity, now, replies) matches StepView::Next(Ok(b)) ==> b.well_formed(),
            self.step(character, craft_position, costs, code_item, maybe_quantity, now, replies) matches StepView::Next(Err(e)) ==> e == invalid_transition()
                && self.current_state == CraftingState::Finish,
    {
    }

    pub fn new(moving_behavior: MovingBehavior) -> (r: Self)
        ensures
            r == Self::initial(moving_behavior),
    {
        CraftingBehavior { current_state: CraftingState::Empty, moving_behavior }
    }

    pub fn reset(&self) -> (r: Self)
        ensures
            r == self.restarted(),
    {
        CraftingBehavior { current_state: CraftingState::Empty, ..*self }
    }

    pub fn next_behavior(
        &self,
        character_info: &Character,
        craft_position: &Position,
        craft_costs: &Vec<(String, u32)>,
        code_item: &String,
        maybe_quantity: Option<u32>,
        now: &Timestamp,
        replies: &[Reply],
    ) -> (r: Step<CraftingBehavior>)
        requires
            self.computes_quantity(character_info@, items_view(craft_costs@), maybe_quantity, *now)
                ==> batches_defined(
                Self::ingredients_in(character_info@, items_view(craft_costs@)),
                items_view(craft_costs@),
            ),
        ensures
            r@ == self.step(
                character_info@,
                *craft_position,
                items_view(craft_costs@),
                code_item@,
                maybe_quantity,
                *now,
                replies_view(replies@),
            ),
    {
        let cooldown = character_info.cooldown_sec_at(now);
        if cooldown >= 0 {
            return Step::Next(Ok(*self));
        }
        match self.current_state {
            CraftingState::Empty => {
                match self.moving_behavior.next_behavior(character_info, craft_position, now, replies) {
                    Step::Perform(a) => Step::Perform(a),
                    Step::Next(Err(e)) => Step::Next(Err(e)),
                    Step::Next(Ok(new_moving_behavior)) => {
                        if new_moving_behavior.current_state == MovingState::Finish {
                            Step::Next(Ok(CraftingBehavior {
                                current_state: CraftingState::InCraftPosition,
                                moving_behavior: self.moving_behavior.reset(),
                            }))
                        } else {
                            Step::Next(Ok(CraftingBehavior { moving_behavior: new_moving_behavior, ..*self }))
                        }
                    },
                }
            },
            CraftingState::InCraftPosition => {
                match maybe_quantity {
                    Some(quantity) => self.crafting_from_quantity(code_item, quantity, replies),
                    None => {
                        let items_required_in_inventory = ingredients_in_inventory(
                            &character_info.inventory,
                            craft_costs,
                        );
                        if craft_costs.len() != items_required_in_inventory.len() {
                            Step::Next(Ok(CraftingBehavior { current_state: CraftingState::Finish, ..*self }))
                        } else {
                            let quantity_computed = match fewest_batches_exec(
                                &items_required_in_inventory,
                                craft_costs,
                            ) {
                                Some(q) => q,
                                None => 0,
                            };
                            self.crafting_from_quantity(code_item, quantity_computed, replies)
                        }
                    },
                }
            },
            CraftingState::Finish => Step::Next(Err(Error::invalid_transition())),
        }
    }

    fn crafting_from_quantity(&self, code_item: &String, quantity: u32, replies: &[Reply]) -> (r: Step<CraftingBehavior>)
        ensures
            r@ == self.craft_step(code_item@, quantity, replies_view(replies@)),
    {
        if replies.len() == 0 {
            Step::Perform(Action::Craft { code: code_item.clone(), quantity })
        } else if replies[0].succeeded() || replies[0].failed_with_status(STATUS_CRAFT_INVENTORY_FULL) {
            Step::Next(Ok(CraftingBehavior { current_state: CraftingState::Finish, ..*self }))
        } else {
            Step::Next(Ok(*self))
        }
    }
}

/// Whether `code` is the item of one of the costs.
fn is_cost_code(costs: &Vec<(String, u32)>, code: &String) -> (r: bool)
    ensures
        r == cost_codes(items_view(costs@)).contains(code@),
{
    let ghost codes = cost_codes(items_view(costs@));
    let mut j: usize = 0;
    while j < costs.len()
        invariant
            codes == cost_codes(items_view(costs@)),
            j <= costs.len(),
            forall|k: int| 0 <= k < j ==> codes[k] != code@,
        decreases costs.len() - j,
    {
        if costs[j].0 == *code {
            assert(codes[j as int] == code@);
            return true;
        }
        j += 1;
    }
    false
}

/// The slots of the inventory that hold an ingredient of the recipe, in
/// inventory order.
fn ingredients_in_inventory(inventory: &Vec<Slot>, costs: &Vec<(String, u32)>) -> (r: Vec<Slot>)
    ensures
        slots_view(r@) == slots_with_codes(slots_view(inventory@), cost_codes(items_view(costs@))),
{
    let ghost slots = slots_view(inventory@);
    let ghost codes = cost_codes(items_view(costs@));
    let mut found: Vec<Slot> = Vec::new();
    let mut i: usize = 0;
    while i < inventory.len()
        invariant
            slots == slots_view(inventory@),
            codes == cost_codes(items_view(costs@)),
            i <= inventory.len(),
            slots_view(found@) == slots_with_codes(slots.take(i as int), codes),
        decreases inventory.len() - i,
    {
        assert(slots.take(i as int + 1).drop_last() =~= slots.take(i as int));
        if is_cost_code(costs, &inventory[i].code) {
            let ghost before = found@;
            found.push(inventory[i].clone());
            assert(slots_view(found@) =~= slots_view(before).push(slots[i as int]));
        }
        i += 1;
    }
    assert(slots.take(i as int) =~= slots);
    found
}

/// The quantity in the first slot that holds `code`.
fn first_quantity_exec(slots: &Vec<Slot>, code: &String) -> (r: Option<u32>)
    ensures
        r == first_quantity_of(slots_view(slots@), code@),
{
    let ghost view = slots_view(slots@);
    assert(view.subrange(0, view.len() as int) =~= view);
    let mut i: usize = 0;
    while i < slots.len()
        invariant
            view == slots_view(slots@),
            i <= slots.len(),
            first_quantity_of(view, code@) == first_quantity_of(view.subrange(i as int, view.len() as int), code@),
        decreases slots.len() - i,
    {
        let ghost rest = view.subrange(i as int, view.len() as int);
        if slots[i].code == *code {
            return Some(slots[i].quantity);
        }
        assert(rest.drop_first() =~= view.subrange(i as int + 1, view.len() as int));
        i += 1;
    }
    None
}

/// The smallest number of batches over the costs, if there is a cost.
fn fewest_batches_exec(slots: &Vec<Slot>, costs: &Vec<(String, u32)>) -> (r: Option<u32>)
    requires
        batches_defined(slots_view(slots@), items_view(costs@)),
    ensures
        r == fewest_batches(slots_view(slots@), items_view(costs@)),
{
    let ghost view = slots_view(slots@);
    let ghost cs = items_view(costs@);
    let mut fewest: Option<u32> = None;
    let mut k: usize = 0;
    while k < costs.len()
        invariant
            view == slots_view(slots@),
            cs == items_view(costs@),
            batches_defined(view, cs),
            k <= costs.len(),
            fewest == fewest_batches(view, cs.take(k as int)),
        decreases costs.len() - k,
    {
        assert(cs.take(k as int + 1).drop_last() =~= cs.take(k as int));
        assert(cs.take(k as int + 1).last() == cs[k as int]);
        let batches = match first_quantity_exec(slots, &costs[k].0) {
            Some(q) => {
                assert(cs[k as int].0 == costs@[k as int].0@);
                q / costs[k].1
            },
            None => 0,
        };
        fewest = match fewest {
            None => Some(batches),
            Some(m) => Some(if batches < m { batches } else { m }),
        };
        k += 1;
    }
    assert(cs.take(k as int) =~= cs);
    fewest
}

} // verus!
