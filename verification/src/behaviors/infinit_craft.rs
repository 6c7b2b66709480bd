//! Crafting an item over and over, with ingredients taken from the bank.

use vstd::prelude::*;
use crate::behaviors::crafting::{CraftingBehavior, CraftingState, batches_defined};
use crate::behaviors::deposit_bank::{DepositBankBehavior, DepositState};
use crate::behaviors::moving::{MovingBehavior, MovingState};
use crate::behaviors::withdraw_bank::{WithdrawBankBehavior, WithdrawState};
use crate::characters::{Character, CharacterView, SlotView};
use crate::effects::{Action, ActionView, Reply, ReplyView, Step, StepView, items_view, replies_view};
use crate::errors::{Error, invalid_transition};
use crate::shared::Position;
use crate::time::Timestamp;

verus! {

/// The number of items that one craft of the recipe consumes.
pub open spec fn recipe_size(ingredients: Seq<(Seq<char>, u32)>) -> int
    decreases ingredients.len(),
{
    if ingredients.len() == 0 {
        0
    } else {
        recipe_size(ingredients.drop_last()) + ingredients.last().1
    }
}

/// The recipe can be scaled to an inventory of `max_items` in `u32`
/// arithmetic: a recipe with ingredients consumes something, and neither
/// its size nor any ingredient's share of the inventory exceeds `u32::MAX`.
pub open spec fn recipe_fits(ingredients: Seq<(Seq<char>, u32)>, max_items: u32) -> bool {
    &&& ingredients.len() > 0 ==> 0 < recipe_size(ingredients)
    &&& recipe_size(ingredients) <= u32::MAX
    &&& forall|i: int| 0 <= i < ingredients.len() ==> max_items * (#[trigger] ingredients[i]).1 <= u32::MAX
}

/// How much of each ingredient a full inventory should hold: its share of
/// `max_items` in the proportions of the recipe, rounded down.
pub open spec fn mandatories(ingredients: Seq<(Seq<char>, u32)>, max_items: u32) -> Seq<(Seq<char>, u32)> {
    ingredients.map_values(|c: (Seq<char>, u32)| (c.0, ((max_items * c.1) / recipe_size(ingredients)) as u32))
}

/// The first mandatory ingredient of which the inventory has no slot.
pub open spec fn first_missing(wanted: Seq<(Seq<char>, u32)>, inventory: Seq<SlotView>) -> Option<(Seq<char>, u32)>
    decreases wanted.len(),
{
    if wanted.len() == 0 {
        None
    } else if !inventory.map_values(|s: SlotView| s.code).contains(wanted[0].0) {
        Some(wanted[0])
    } else {
        first_missing(wanted.drop_first(), inventory)
    }
}

/// Each item of the bank is one of the mandatory ingredients, in at least
/// the mandatory quantity.
pub open spec fn bank_covers(bank: Seq<(Seq<char>, u32)>, wanted: Seq<(Seq<char>, u32)>) -> bool {
    forall|i: int| 0 <= i < bank.len() ==> covered_by(#[trigger] bank[i], wanted)
}

/// One of the mandatory ingredients is `item`'s, in at most its quantity.
pub open spec fn covered_by(item: (Seq<char>, u32), wanted: Seq<(Seq<char>, u32)>) -> bool {
    exists|j: int| 0 <= j < wanted.len() && wanted[j].0 == item.0 && wanted[j].1 <= item.1
}

/// What the bank's reply says of the ingredients: a failed lookup counts
/// as not enough.
pub open spec fn can_take(wanted: Seq<(Seq<char>, u32)>, reply: ReplyView) -> bool {
    match reply.bank_items() {
        Some(bank) => bank_covers(bank, wanted),
        None => false,
    }
}

proof fn lemma_mandatories_prefix(ingredients: Seq<(Seq<char>, u32)>, max_items: u32, k: int)
    requires
        recipe_fits(ingredients, max_items),
        0 <= k <= ingredients.len(),
    ensures
        recipe_size(ingredients) * recipe_size(mandatories(ingredients, max_items).take(k))
            <= max_items * recipe_size(ingredients.take(k)),
    decreases k,
{
    let total = recipe_size(ingredients);
    let wanted = mandatories(ingredients, max_items);
    if k == 0 {
        assert(wanted.take(0) =~= Seq::<(Seq<char>, u32)>::empty());
        assert(ingredients.take(0) =~= Seq::<(Seq<char>, u32)>::empty());
    } else {
        lemma_mandatories_prefix(ingredients, max_items, k - 1);
        assert(wanted.take(k).drop_last() =~= wanted.take(k - 1));
        assert(ingredients.take(k).drop_last() =~= ingredients.take(k - 1));
        let q = ingredients[k - 1].1;
        let share = (max_items * q) / total;
        assert(max_items * ingredients[k - 1].1 <= u32::MAX);
        assert(0 <= share <= max_items * q) by (nonlinear_arith)
            requires
                share == (max_items * q) / total,
                total > 0,
                max_items * q >= 0,
        ;
        assert(wanted[k - 1].1 == share);
        assert(total * share <= max_items * q) by (nonlinear_arith)
            requires
                share == (max_items * q) / total,
                total > 0,
                max_items * q >= 0,
        ;
        let a = recipe_size(wanted.take(k - 1));
        let b = recipe_size(ingredients.take(k - 1));
        assert(total * (a + share) <= max_items * (b + q)) by (nonlinear_arith)
            requires
                total * a <= max_items * b,
                total * share <= max_items * q,
        ;
    }
}

/// Scaled to an inventory of `max_items`, the mandatory ingredients fit in
/// it: their quantities add up to at most `max_items`.
pub proof fn lemma_mandatories_fit_inventory(ingredients: Seq<(Seq<char>, u32)>, max_items: u32)
    requires
        recipe_fits(ingredients, max_items),
    ensures
        recipe_size(mandatories(ingredients, max_items)) <= max_items,
{
    let total = recipe_size(ingredients);
    let wanted = mandatories(ingredients, max_items);
    if ingredients.len() == 0 {
        assert(wanted.len() == 0);
    } else {
        lemma_mandatories_prefix(ingredients, max_items, ingredients.len() as int);
        assert(wanted.take(ingredients.len() as int) =~= wanted);
        assert(ingredients.take(ingredients.len() as int) =~= ingredients);
        let r = recipe_size(wanted);
        assert(r <= max_items) by (nonlinear_arith)
            requires
                total * r <= max_items * total,
                total > 0,
        ;
    }
}

/// Some ingredient of the recipe is `item`'s, and `item` holds at least
/// that ingredient's share of an inventory of `max_items`: its quantity in
/// the recipe times `max_items`, divided by the recipe's size.
pub open spec fn holds_recipe_share(ingredients: Seq<(Seq<char>, u32)>, max_items: u32, item: (Seq<char>, u32)) -> bool {
    exists|j: int|
        0 <= j < ingredients.len() && ingredients[j].0 == item.0 && (max_items * ingredients[j].1) / recipe_size(
            ingredients,
        ) <= item.1
}

/// The inventory has a slot of the item `code`, empty or not.
pub open spec fn has_slot_of(inventory: Seq<SlotView>, code: Seq<char>) -> bool {
    exists|k: int| 0 <= k < inventory.len() && (#[trigger] inventory[k]).code == code
}

/// Each mandatory quantity is the ingredient's share of the inventory.
proof fn lemma_mandatory_shares(ingredients: Seq<(Seq<char>, u32)>, max_items: u32)
    requires
        recipe_fits(ingredients, max_items),
    ensures
        mandatories(ingredients, max_items).len() == ingredients.len(),
        forall|j: int|
            0 <= j < ingredients.len() ==> (#[trigger] mandatories(ingredients, max_items)[j]).1 == (max_items
                * ingredients[j].1) / recipe_size(ingredients) && mandatories(ingredients, max_items)[j].0
                == ingredients[j].0,
{
    let wanted = mandatories(ingredients, max_items);
    let size = recipe_size(ingredients);
    assert forall|j: int| 0 <= j < ingredients.len() implies #[trigger] wanted[j].1 == (max_items
        * ingredients[j].1) / size && wanted[j].0 == ingredients[j].0 by {
        let a = max_items * ingredients[j].1;
        assert(max_items * ingredients[j].1 <= u32::MAX);
        assert(0 <= a / size <= a) by (nonlinear_arith)
            requires
                size > 0,
                a >= 0,
        ;
    }
}

/// What `first_missing` picks is a wanted ingredient of which the inventory
/// has no slot, and every wanted ingredient before it has one; when it picks
/// nothing, the inventory has a slot of every wanted ingredient.
proof fn lemma_first_missing(wanted: Seq<(Seq<char>, u32)>, inventory: Seq<SlotView>)
    ensures
        first_missing(wanted, inventory) matches Some(m) ==> exists|j: int|
            0 <= j < wanted.len() && #[trigger] wanted[j] == m && !has_slot_of(inventory, m.0),
        first_missing(wanted, inventory) is None ==> forall|j: int|
            0 <= j < wanted.len() ==> has_slot_of(inventory, (#[trigger] wanted[j]).0),
    decreases wanted.len(),
{
    let codes = inventory.map_values(|s: SlotView| s.code);
    if wanted.len() > 0 {
        if codes.contains(wanted[0].0) {
            let k = choose|k: int| 0 <= k < codes.len() && codes[k] == wanted[0].0;
            assert(inventory[k].code == wanted[0].0);
        } else {
            assert forall|k: int| 0 <= k < inventory.len() implies (#[trigger] inventory[k]).code != wanted[0].0 by {
                assert(codes[k] == inventory[k].code);
            }
        }
        lemma_first_missing(wanted.drop_first(), inventory);
        if first_missing(wanted, inventory) is Some && codes.contains(wanted[0].0) {
            let m = first_missing(wanted, inventory)->0;
            let j = choose|j: int|
                0 <= j < wanted.drop_first().len() && #[trigger] wanted.drop_first()[j] == m && !has_slot_of(inventory, m.0);
            assert(wanted[j + 1] == m);
        }
        if first_missing(wanted, inventory) is None {
            assert forall|j: int| 0 <= j < wanted.len() implies has_slot_of(inventory, (#[trigger] wanted[j]).0) by {
                if j > 0 {
                    assert(wanted[j] == wanted.drop_first()[j - 1]);
                }
            }
        }
    }
}

proof fn lemma_covered_is_share(ingredients: Seq<(Seq<char>, u32)>, max_items: u32, item: (Seq<char>, u32))
    requires
        recipe_fits(ingredients, max_items),
    ensures
        covered_by(item, mandatories(ingredients, max_items)) <==> holds_recipe_share(ingredients, max_items, item),
{
    let wanted = mandatories(ingredients, max_items);
    let size = recipe_size(ingredients);
    lemma_mandatory_shares(ingredients, max_items);
    if covered_by(item, wanted) {
        let j = choose|j: int| 0 <= j < wanted.len() && wanted[j].0 == item.0 && wanted[j].1 <= item.1;
        assert(wanted[j].1 == (max_items * ingredients[j].1) / size);
    }
    if holds_recipe_share(ingredients, max_items, item) {
        let j = choose|j: int|
            0 <= j < ingredients.len() && ingredients[j].0 == item.0 && (max_items * ingredients[j].1) / size
                <= item.1;
        assert(wanted[j].1 == (max_items * ingredients[j].1) / size);
    }
}

#[derive(Clone, Copy, Debug, PartialEq, Eq, Structural)]
pub enum InfinitCraftState {
    Empty,
    InBank,
    DepositAll,
    WithdrawAll,
    Finish,
}

/// Goes to the bank, empties the inventory there, fills it with the
/// ingredients of a recipe, crafts as much as they allow, and starts over;
/// finishes when the bank no longer holds the ingredients.
#[derive(Clone, Copy, Debug, PartialEq, Eq, Structural)]
pub struct InfinitCraftBehavior {
    pub current_state: InfinitCraftState,
    pub moving_behavior: MovingBehavior,
    pub deposit_bank_behavior: DepositBankBehavior,
    pub withdraw_bank_behavior: WithdrawBankBehavior,
    pub crafting_behavior: CraftingBehavior,
}

impl View for InfinitCraftBehavior {
    type V = InfinitCraftBehavior;

    open spec fn view(&self) -> InfinitCraftBehavior {
        *self
    }
}

impl InfinitCraftBehavior {
    pub open spec fn initial(
        moving_behavior: MovingBehavior,
        deposit_bank_behavior: DepositBankBehavior,
        withdraw_bank_behavior: WithdrawBankBehavior,
        crafting_behavior: CraftingBehavior,
    ) -> InfinitCraftBehavior {
        InfinitCraftBehavior {
            current_state: InfinitCraftState::Empty,
            moving_behavior,
            deposit_bank_behavior,
            withdraw_bank_behavior,
            crafting_behavior,
        }
    }

    pub open spec fn restarted(self) -> InfinitCraftBehavior {
        InfinitCraftBehavior { current_state: InfinitCraftState::Empty, ..self }
    }

    pub open spec fn after_walk(self, m: MovingBehavior) -> InfinitCraftBehavior {
        if m.current_state == MovingState::Finish {
            InfinitCraftBehavior {
                current_state: InfinitCraftState::InBank,
                moving_behavior: self.moving_behavior.restarted(),
                ..self
            }
        } else {
            InfinitCraftBehavior { moving_behavior: m, ..self }
        }
    }

    pub open spec fn after_deposit(self, d: DepositBankBehavior) -> InfinitCraftBehavior {
        if d.current_state == DepositState::Finish {
            InfinitCraftBehavior {
                current_state: InfinitCraftState::DepositAll,
                deposit_bank_behavior: self.deposit_bank_behavior.restarted(),
                ..self
            }
        } else {
            InfinitCraftBehavior { deposit_bank_behavior: d, ..self }
        }
    }

    pub open spec fn after_withdraw(self, w: WithdrawBankBehavior) -> InfinitCraftBehavior {
        if w.current_state == WithdrawState::Finish {
            InfinitCraftBehavior {
                current_state: InfinitCraftState::DepositAll,
                withdraw_bank_behavior: self.withdraw_bank_behavior.restarted(),
                ..self
            }
        } else {
            InfinitCraftBehavior { withdraw_bank_behavior: w, ..self }
        }
    }

    pub open spec fn after_craft(self, c: CraftingBehavior) -> InfinitCraftBehavior {
        if c.current_state == CraftingState::Finish {
            InfinitCraftBehavior {
                current_state: InfinitCraftState::Empty,
                crafting_behavior: self.crafting_behavior.restarted(),
                ..self
            }
        } else {
            InfinitCraftBehavior { crafting_behavior: c, ..self }
        }
    }

    /// The step scales the recipe to the inventory.
    pub open spec fn scales_recipe(self, player: CharacterView, now: Timestamp) -> bool {
        player.cooldown_at(now) < 0 && self.current_state == InfinitCraftState::DepositAll
    }

    /// What the step asks of its arguments so that its arithmetic is defined.
    pub open spec fn arithmetic_defined(
        self,
        player: CharacterView,
        ingredients: Seq<(Seq<char>, u32)>,
        now: Timestamp,
    ) -> bool {
        &&& self.scales_recipe(player, now) ==> recipe_fits(ingredients, player.inventory_max_items)
        &&& (player.cooldown_at(now) < 0 && self.current_state == InfinitCraftState::WithdrawAll
            && self.crafting_behavior.computes_quantity(player, ingredients, None, now))
            ==> batches_defined(CraftingBehavior::ingredients_in(player, ingredients), ingredients)
    }

    /// One step: during a cooldown nothing changes. Otherwise:
    /// - `Empty`: walk to the bank, then `InBank`;
    /// - `InBank`: deposit the inventory, one stack per finished deposit,
    ///   then `DepositAll`;
    /// - `DepositAll`: ask the bank for its items; unless they cover the
    ///   mandatory ingredients, finish; withdraw the first mandatory
    ///   ingredient missing from the inventory (and stay, to look again);
    ///   once none is missing, `WithdrawAll`;
    /// - `WithdrawAll`: craft as much as the inventory allows at the
    ///   workshop, then start over.
    pub open spec fn step(
        self,
        player: CharacterView,
        bank_position: Position,
        craft_position: Position,
        ingredients: Seq<(Seq<char>, u32)>,
        craft_result_code: Seq<char>,
        now: Timestamp,
        replies: Seq<ReplyView>,
    ) -> StepView<InfinitCraftBehavior> {
        if player.cooldown_at(now) >= 0 {
            StepView::Next(Ok(self))
        } else {
            match self.current_state {
                InfinitCraftState::Empty => self.moving_behavior.step(
                    player,
                    bank_position,
                    now,
                    replies,
                ).map_next(|m: MovingBehavior| self.after_walk(m)),
                InfinitCraftState::InBank => self.deposit_bank_behavior.step(player, now, replies).map_next(
                    |d: DepositBankBehavior| self.after_deposit(d),
                ),
                InfinitCraftState::DepositAll => {
                    let wanted = mandatories(ingredients, player.inventory_max_items);
                    if replies.len() == 0 {
                        StepView::Perform(ActionView::GetBankItems)
                    } else if !can_take(wanted, replies[0]) {
                        StepView::Next(
                            Ok(
                                InfinitCraftBehavior {
                                    current_state: InfinitCraftState::Finish,
                                    withdraw_bank_behavior: self.withdraw_bank_behavior.restarted(),
                                    ..self
                                },
                            ),
                        )
                    } else {
                        match first_missing(wanted, player.inventory) {
                            Some(missing) => self.withdraw_bank_behavior.step(
                                player,
                                missing.0,
                                missing.1,
                                now,
                                replies.drop_first(),
                            ).map_next(|w: WithdrawBankBehavior| self.after_withdraw(w)),
                            None => StepView::Next(
                                Ok(
                                    InfinitCraftBehavior {
                                        current_state: InfinitCraftState::WithdrawAll,
                                        withdraw_bank_behavior: self.withdraw_bank_behavior.restarted(),
                                        ..self
                                    },
                                ),
                            ),
                        }
                    }
                },
                InfinitCraftState::WithdrawAll => self.crafting_behavior.step(
                    player,
                    craft_position,
                    ingredients,
                    craft_result_code,
                    None,
                    now,
                    replies,
                ).map_next(|c: CraftingBehavior| self.after_craft(c)),
                InfinitCraftState::Finish => StepView::Next(Err(invalid_transition())),
            }
        }
    }

    /// While the character is in cooldown, a step keeps the behavior as it
    /// is and asks for nothing.
    pub proof fn lemma_waits_during_cooldown(
        self,
        player: CharacterView,
        bank_position: Position,
        craft_position: Position,
        ingredients: Seq<(Seq<char>, u32)>,
        craft_result_code: Seq<char>,
        now: Timestamp,
        replies: Seq<ReplyView>,
    )
        requires
            player.cooldown_at(now) >= 0,
        ensures
            self.step(player, bank_position, craft_position, ingredients, craft_result_code, now, replies)
                == StepView::Next(Ok(self)),
    {
    }

    /// A step asks for at most two actions (a look at the bank, then a
    /// withdrawal or a move): with two replies it is over, and it reads no
    /// reply beyond the second.
    pub proof fn lemma_two_actions_per_step(
        self,
        player: CharacterView,
        bank_position: Position,
        craft_position: Position,
        ingredients: Seq<(Seq<char>, u32)>,
        craft_result_code: Seq<char>,
        now: Timestamp,
        replies: Seq<ReplyView>,
    )
        requires
            replies.len() >= 2,
        ensures
            self.step(player, bank_position, craft_position, ingredients, craft_result_code, now, replies).is_next(),
            self.step(player, bank_position, craft_position, ingredients, craft_result_code, now, replies)
                == self.step(
                player,
                bank_position,
                craft_position,
                ingredients,
                craft_result_code,
                now,
                replies.take(2),
            ),
    {
        let first_two = replies.take(2);
        assert(first_two.take(1) =~= replies.take(1));
        assert(first_two.drop_first().take(1) =~= replies.drop_first().take(1));
        self.moving_behavior.lemma_one_action_per_step(player, bank_position, now, first_two);
        self.deposit_bank_behavior.lemma_one_action_per_step(player, now, first_two);
        self.crafting_behavior.lemma_one_action_per_step(
            player,
            craft_position,
            ingredients,
            craft_result_code,
            None,
            now,
            first_two,
        );
        self.moving_behavior.lemma_one_action_per_step(player, bank_position, now, replies);
        self.deposit_bank_behavior.lemma_one_action_per_step(player, now, replies);
        self.crafting_behavior.lemma_one_action_per_step(
            player,
            craft_position,
            ingredients,
            craft_result_code,
            None,
            now,
            replies,
        );
        let wanted = mandatories(ingredients, player.inventory_max_items);
        if let Some(missing) = first_missing(wanted, player.inventory) {
            self.withdraw_bank_behavior.lemma_one_action_per_step(
                player,
                missing.0,
                missing.1,
                now,
                replies.drop_first(),
            );
            self.withdraw_bank_behavior.lemma_one_action_per_step(
                player,
                missing.0,
                missing.1,
                now,
                first_two.drop_first(),
            );
        }
    }

    /// After the bank's reply, the loop finishes exactly when the reply
    /// does not list the bank's items or some item of the bank is not one of
    /// the recipe's ingredients in at least its share of the inventory; it
    /// goes on (to a withdrawal, or to crafting) only when every item is.
    pub proof fn lemma_goes_on_only_when_bank_covers(
        self,
        player: CharacterView,
        bank_position: Position,
        craft_position: Position,
        ingredients: Seq<(Seq<char>, u32)>,
        craft_result_code: Seq<char>,
        now: Timestamp,
        replies: Seq<ReplyView>,
    )
        requires
            player.cooldown_at(now) < 0,
            self.current_state == InfinitCraftState::DepositAll,
            replies.len() >= 1,
            recipe_fits(ingredients, player.inventory_max_items),
        ensures
            (self.step(player, bank_position, craft_position, ingredients, craft_result_code, now, replies)
                matches StepView::Next(Ok(b)) && b.current_state == InfinitCraftState::Finish) <==> !(
            replies[0] matches ReplyView::BankItems(Ok(bank)) && forall|i: int|
                0 <= i < bank.len() ==> holds_recipe_share(
                    ingredients,
                    player.inventory_max_items,
                    #[trigger] bank[i],
                )),
    {
        self.lemma_finishes_without_ingredients(
            player,
            bank_position,
            craft_position,
            ingredients,
            craft_result_code,
            now,
            replies,
        );
        let wanted = mandatories(ingredients, player.inventory_max_items);
        if let ReplyView::BankItems(Ok(bank)) = replies[0] {
            assert forall|i: int| 0 <= i < bank.len() implies covered_by(#[trigger] bank[i], wanted)
                == holds_recipe_share(ingredients, player.inventory_max_items, bank[i]) by {
                lemma_covered_is_share(ingredients, player.inventory_max_items, bank[i]);
            }
        }
    }

    /// When the bank's reply covers the mandatory ingredients: with a slot
    /// of every ingredient in the inventory, the loop goes on to crafting
    /// (`WithdrawAll`); otherwise, a withdrawal it asks for is of an
    /// ingredient the inventory has no slot of, in that ingredient's share of
    /// the inventory.
    pub proof fn lemma_withdraws_missing_share(
        self,
        player: CharacterView,
        bank_position: Position,
        craft_position: Position,
        ingredients: Seq<(Seq<char>, u32)>,
        craft_result_code: Seq<char>,
        now: Timestamp,
        replies: Seq<ReplyView>,
    )
        requires
            player.cooldown_at(now) < 0,
            self.current_state == InfinitCraftState::DepositAll,
            replies.len() >= 1,
            recipe_fits(ingredients, player.inventory_max_items),
            can_take(mandatories(ingredients, player.inventory_max_items), replies[0]),
        ensures
            (forall|j: int| 0 <= j < ingredients.len() ==> has_slot_of(player.inventory, (#[trigger] ingredients[j]).0))
                ==> (self.step(player, bank_position, craft_position, ingredients, craft_result_code, now, replies)
                matches StepView::Next(Ok(b)) && b.current_state == InfinitCraftState::WithdrawAll),
            self.step(player, bank_position, craft_position, ingredients, craft_result_code, now, replies)
                matches StepView::Perform(ActionView::Withdraw(code, quantity)) ==> exists|j: int|
                0 <= j < ingredients.len() && (#[trigger] ingredients[j]).0 == code && quantity == (
                player.inventory_max_items * ingredients[j].1) / recipe_size(ingredients) && !has_slot_of(
                player.inventory,
                code,
            ),
    {
        let wanted = mandatories(ingredients, player.inventory_max_items);
        lemma_mandatory_shares(ingredients, player.inventory_max_items);
        lemma_first_missing(wanted, player.inventory);
        if let Some(m) = first_missing(wanted, player.inventory) {
            let j = choose|j: int| 0 <= j < wanted.len() && #[trigger] wanted[j] == m && !has_slot_of(player.inventory, m.0);
            assert(ingredients[j].0 == m.0);
            self.withdraw_bank_behavior.moving_behavior.lemma_moves_only_elsewhere(
                player,
                crate::behaviors::deposit_bank::bank_position(),
                now,
                replies.drop_first(),
            );
        }
    }

    /// Leaving the bank, the behavior finishes exactly when the bank's reply
    /// does not show the mandatory ingredients.
    pub proof fn lemma_finishes_without_ingredients(
        self,
        player: CharacterView,
        bank_position: Position,
        craft_position: Position,
        ingredients: Seq<(Seq<char>, u32)>,
        craft_result_code: Seq<char>,
        now: Timestamp,
        replies: Seq<ReplyView>,
    )
        requires
            player.cooldown_at(now) < 0,
            self.current_state == InfinitCraftState::DepositAll,
            replies.len() >= 1,
        ensures
            (self.step(player, bank_position, craft_position, ingredients, craft_result_code, now, replies)
                matches StepView::Next(Ok(b)) && b.current_state == InfinitCraftState::Finish)
                <==> !can_take(mandatories(ingredients, player.inventory_max_items), replies[0]),
    {
    }

    /// None of the behaviors it holds has finished, and neither has any walk
    /// they hold: each is reset whenever it finishes.
    pub open spec fn well_formed(self) -> bool {
        &&& self.moving_behavior.current_state == MovingState::Empty
        &&& self.deposit_bank_behavior.well_formed()
        &&& self.deposit_bank_behavior.current_state != DepositState::Finish
        &&& self.withdraw_bank_behavior.well_formed()
        &&& self.withdraw_bank_behavior.current_state != WithdrawState::Finish
        &&& self.crafting_behavior.well_formed()
        &&& self.crafting_behavior.current_state != CraftingState::Finish
    }

    /// Built from fresh parts, the loop is well formed.
    pub proof fn lemma_fresh_is_well_formed()
        ensures
            Self::initial(
                MovingBehavior::initial(),
                DepositBankBehavior::initial(MovingBehavior::initial()),
                WithdrawBankBehavior::initial(MovingBehavior::initial()),
                CraftingBehavior::initial(MovingBehavior::initial()),
            ).well_formed(),
    {
    }

    /// A well-formed craft loop stays well formed, and stops on an error
    /// only when asked to go on after it finished for want of ingredients.
    pub proof fn lemma_fails_only_when_finished(
        self,
        player: CharacterView,
        bank_position: Position,
        craft_position: Position,
        ingredients: Seq<(Seq<char>, u32)>,
        craft_result_code: Seq<char>,
        now: Timestamp,
        replies: Seq<ReplyView>,
    )
        requires
            self.well_formed(),
        ensures
            self.step(player, bank_position, craft_position, ingredients, craft_result_code, now, replies)
                matches StepView::Next(Ok(b)) ==> b.well_formed(),
            self.step(player, bank_position, craft_position, ingredients, craft_result_code, now, replies)
                matches StepView::Next(Err(e)) ==> e == invalid_transition()
                && self.current_state == InfinitCraftState::Finish,
    {
        self.moving_behavior.lemma_fails_only_when_finished(player, bank_position, now, replies);
        self.deposit_bank_behavior.lemma_steps_keep_well_formed(player, now, replies);
        self.crafting_behavior.lemma_steps_keep_well_formed(
            player,
            craft_position,
            ingredients,
            craft_result_code,
            None,
            now,
            replies,
        );
        let wanted = mandatories(ingredients, player.inventory_max_items);
        if let Some(missing) = first_missing(wanted, player.inventory) {
            self.withdraw_bank_behavior.lemma_steps_keep_well_formed(
                player,
                missing.0,
                missing.1,
                now,
                replies.drop_first(),
            );
        }
    }

    pub fn new(
        moving_behavior: MovingBehavior,
        deposit_bank_behavior: DepositBankBehavior,
        withdraw_bank_behavior: WithdrawBankBehavior,
        crafting_behavior: CraftingBehavior,
    ) -> (r: Self)
        ensures
            r == Self::initial(moving_behavior, deposit_bank_behavior, withdraw_bank_behavior, crafting_behavior),
    {
        InfinitCraftBehavior {
            current_state: InfinitCraftState::Empty,
            moving_behavior,
            deposit_bank_behavior,
            withdraw_bank_behavior,
            crafting_behavior,
        }
    }

    pub fn reset(&self) -> (r: Self)
        ensures
            r == self.restarted(),
    {
        InfinitCraftBehavior { current_state: InfinitCraftState::Empty, ..*self }
    }

    pub fn next_behavior(
        &self,
        player: &Character,
        bank_position: &Position,
        craft_position: &Position,
        ingredients: &Vec<(String, u32)>,
        craft_result_code: &String,
        now: &Timestamp,
        replies: &[Reply],
    ) -> (r: Step<InfinitCraftBehavior>)
        requires
            self.arithmetic_defined(player@, items_view(ingredients@), *now),
        ensures
            r@ == self.step(
                player@,
                *bank_position,
                *craft_position,
                items_view(ingredients@),
                craft_result_code@,
                *now,
                replies_view(replies@),
            ),
    {
        let cooldown_sec = player.cooldown_sec_at(now);
        if cooldown_sec >= 0 {
            return Step::Next(Ok(*self));
        }
        match self.current_state {
            InfinitCraftState::Empty => {
                match self.moving_behavior.next_behavior(player, bank_position, now, replies) {
                    Step::Perform(a) => Step::Perform(a),
                    Step::Next(Err(e)) => Step::Next(Err(e)),
                    Step::Next(Ok(next_moving_behavior)) => {
                        if next_moving_behavior.current_state == MovingState::Finish {
                            Step::Next(Ok(InfinitCraftBehavior {
                                current_state: InfinitCraftState::InBank,
                                moving_behavior: self.moving_behavior.reset(),
                                ..*self
                            }))
                        } else {
                            Step::Next(Ok(InfinitCraftBehavior { moving_behavior: next_moving_behavior, ..*self }))
                        }
                    },
                }
            },
            InfinitCraftState::InBank => {
                match self.deposit_bank_behavior.next_behavior(player, now, replies) {
                    Step::Perform(a) => Step::Perform(a),
                    Step::Next(Err(e)) => Step::Next(Err(e)),
                    Step::Next(Ok(next_deposit_all)) => {
                        if next_deposit_all.current_state == DepositState::Finish {
                            Step::Next(Ok(InfinitCraftBehavior {
                                current_state: InfinitCraftState::DepositAll,
                                deposit_bank_behavior: self.deposit_bank_behavior.reset(),
                                ..*self
                            }))
                        } else {
                            Step::Next(Ok(InfinitCraftBehavior { deposit_bank_behavior: next_deposit_all, ..*self }))
                        }
                    },
                }
            },
            InfinitCraftState::DepositAll => {
                let mandatories = mandatories_exec(ingredients, player.inventory_max_items);
                if replies.len() == 0 {
                    return Step::Perform(Action::GetBankItems);
                }
                let (first, rest) = replies.split_at(1);
                assert(replies_view(rest@) =~= replies_view(replies@).drop_first());
                if !self.can_take_in_bank(&mandatories, &first[0]) {
                    Step::Next(Ok(InfinitCraftBehavior {
                        current_state: InfinitCraftState::Finish,
                        withdraw_bank_behavior: self.withdraw_bank_behavior.reset(),
                        ..*self
                    }))
                } else {
                    match first_missing_exec(&mandatories, player) {
                        Some((code, quantity)) => {
                            match self.withdraw_bank_behavior.next_behavior(player, &code, quantity, now, rest) {
                                Step::Perform(a) => Step::Perform(a),
                                Step::Next(Err(e)) => Step::Next(Err(e)),
                                Step::Next(Ok(next_withdraw_item)) => {
                                    if next_withdraw_item.current_state == WithdrawState::Finish {
                                        Step::Next(Ok(InfinitCraftBehavior {
                                            current_state: InfinitCraftState::DepositAll,
                                            withdraw_bank_behavior: self.withdraw_bank_behavior.reset(),
                                            ..*self
                                        }))
                                    } else {
                                        Step::Next(Ok(InfinitCraftBehavior {
                                            withdraw_bank_behavior: next_withdraw_item,
                                            ..*self
                                        }))
                                    }
                                },
                            }
                        },
                        None => Step::Next(Ok(InfinitCraftBehavior {
                            current_state: InfinitCraftState::WithdrawAll,
                            withdraw_bank_behavior: self.withdraw_bank_behavior.reset(),
                            ..*self
                        })),
                    }
                }
            },
            InfinitCraftState::WithdrawAll => {
                match self.crafting_behavior.next_behavior(
                    player,
                    craft_position,
                    ingredients,
                    craft_result_code,
                    None,
                    now,
                    replies,
                ) {
                    Step::Perform(a) => Step::Perform(a),
                    Step::Next(Err(e)) => Step::Next(Err(e)),
                    Step::Next(Ok(next_crafting_behavior)) => {
                        if next_crafting_behavior.current_state == CraftingState::Finish {
                            Step::Next(Ok(InfinitCraftBehavior {
                                current_state: InfinitCraftState::Empty,
                                crafting_behavior: self.crafting_behavior.reset(),
                                ..*self
                            }))
                        } else {
                            Step::Next(Ok(InfinitCraftBehavior { crafting_behavior: next_crafting_behavior, ..*self }))
                        }
                    },
                }
            },
            InfinitCraftState::Finish => Step::Next(Err(Error::invalid_transition())),
        }
    }

    /// Whether the bank's reply shows that every item of the bank is one of
    /// the mandatory ingredients in at least the mandatory quantity (a
    /// failed lookup counts as no).
    pub fn can_take_in_bank(&self, mandatorie: &Vec<(String, u32)>, reply: &Reply) -> (r: bool)
        ensures
            r == can_take(items_view(mandatorie@), reply@),
    {
        match reply {
            Reply::BankItems(Ok(table)) => bank_covers_exec(table, mandatorie),
            _ => false,
        }
    }
}

/// The share of each ingredient in an inventory of `max_items`.
fn mandatories_exec(ingredients: &Vec<(String, u32)>, max_items: u32) -> (r: Vec<(String, u32)>)
    requires
        recipe_fits(items_view(ingredients@), max_items),
    ensures
        items_view(r@) == mandatories(items_view(ingredients@), max_items),
{
    let ghost ings = items_view(ingredients@);
    let mut total: u128 = 0;
    let mut i: usize = 0;
    while i < ingredients.len()
        invariant
            ings == items_view(ingredients@),
            i <= ingredients.len(),
            total == recipe_size(ings.take(i as int)),
            total <= i * 0xffff_ffff,
        decreases ingredients.len() - i,
    {
        assert(ings.take(i as int + 1).drop_last() =~= ings.take(i as int));
        total = total + ingredients[i].1 as u128;
        i += 1;
    }
    assert(ings.take(i as int) =~= ings);
    let global_quantity_for_one_recipe: u32 = total as u32;
    let mut out: Vec<(String, u32)> = Vec::new();
    let mut k: usize = 0;
    while k < ingredients.len()
        invariant
            ings == items_view(ingredients@),
            recipe_fits(ings, max_items),
            global_quantity_for_one_recipe == recipe_size(ings),
            k <= ingredients.len(),
            items_view(out@) == mandatories(ings, max_items).take(k as int),
        decreases ingredients.len() - k,
    {
        let (code, quantity) = (&ingredients[k].0, ingredients[k].1);
        assert(max_items * ings[k as int].1 <= u32::MAX);
        let share: u32 = max_items * quantity / global_quantity_for_one_recipe;
        let ghost before = out@;
        out.push((code.clone(), share));
        assert(items_view(out@) =~= items_view(before).push((code@, share)));
        k += 1;
        assert(mandatories(ings, max_items).take(k as int) =~= mandatories(ings, max_items).take(k as int - 1).push((code@, share)));
    }
    assert(mandatories(ings, max_items).take(k as int) =~= mandatories(ings, max_items));
    out
}

/// Whether some slot of the inventory holds `code`.
fn inventory_has_code(player: &Character, code: &String) -> (r: bool)
    ensures
        r == player@.inventory.map_values(|s: SlotView| s.code).contains(code@),
{
    let ghost codes = player@.inventory.map_values(|s: SlotView| s.code);
    let mut j: usize = 0;
    while j < player.inventory.len()
        invariant
            codes == player@.inventory.map_values(|s: SlotView| s.code),
            j <= player.inventory.len(),
            forall|k: int| 0 <= k < j ==> codes[k] != code@,
        decreases player.inventory.len() - j,
    {
        if player.inventory[j].code == *code {
            assert(codes[j as int] == code@);
            return true;
        }
        j += 1;
    }
    false
}

/// The first mandatory ingredient of which the inventory has no slot.
fn first_missing_exec(mandatories: &Vec<(String, u32)>, player: &Character) -> (r: Option<(String, u32)>)
    ensures
        match r {
            Some(p) => first_missing(items_view(mandatories@), player@.inventory) == Some((p.0@, p.1)),
            None => first_missing(items_view(mandatories@), player@.inventory) is None,
        },
{
    let ghost wanted = items_view(mandatories@);
    assert(wanted.subrange(0, wanted.len() as int) =~= wanted);
    let mut i: usize = 0;
    while i < mandatories.len()
        invariant
            wanted == items_view(mandatories@),
            i <= mandatories.len(),
            first_missing(wanted, player@.inventory) == first_missing(
                wanted.subrange(i as int, wanted.len() as int),
                player@.inventory,
            ),
        decreases mandatories.len() - i,
    {
        let ghost rest = wanted.subrange(i as int, wanted.len() as int);
        if !inventory_has_code(player, &mandatories[i].0) {
            return Some((mandatories[i].0.clone(), mandatories[i].1));
        }
        assert(rest.drop_first() =~= wanted.subrange(i as int + 1, wanted.len() as int));
        i += 1;
    }
    None
}

/// Whether each item of the bank is one of the mandatory ingredients in at
/// least the mandatory quantity.
fn bank_covers_exec(table: &Vec<(String, u32)>, mandatorie: &Vec<(String, u32)>) -> (r: bool)
    ensures
        r == bank_covers(items_view(table@), items_view(mandatorie@)),
{
    let ghost bank = items_view(table@);
    let ghost wanted = items_view(mandatorie@);
    assert(bank.len() == table.len() && wanted.len() == mandatorie.len());
    let mut i: usize = 0;
    while i < table.len()
        invariant
            bank == items_view(table@),
            wanted == items_view(mandatorie@),
            bank.len() == table.len(),
            wanted.len() == mandatorie.len(),
            i <= table.len(),
            forall|k: int| 0 <= k < i ==> covered_by(#[trigger] bank[k], wanted),
        decreases table.len() - i,
    {
        let mut found = false;
        let mut j: usize = 0;
        while j < mandatorie.len()
            invariant
                bank == items_view(table@),
                wanted == items_view(mandatorie@),
                bank.len() == table.len(),
                wanted.len() == mandatorie.len(),
                i < table.len(),
                j <= mandatorie.len(),
                !found ==> forall|l: int|
                    0 <= l < j ==> !(wanted[l].0 == bank[i as int].0 && wanted[l].1 <= bank[i as int].1),
                found ==> covered_by(bank[i as int], wanted),
            decreases mandatorie.len() - j,
        {
            if !found && mandatorie[j].0 == table[i].0 && mandatorie[j].1 <= table[i].1 {
                found = true;
                assert(wanted[j as int].0 == bank[i as int].0 && wanted[j as int].1 <= bank[i as int].1);
            }
            j += 1;
        }
        if !found {
            assert(!covered_by(bank[i as int], wanted));
            assert(!bank_covers(bank, wanted));
            return false;
        }
        i += 1;
    }
    assert(bank_covers(bank, wanted));
    true
}

} // verus!
