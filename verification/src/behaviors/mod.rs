//! The behaviors of a character, as state machines.

pub mod crafting;
pub mod deposit_bank;
pub mod fight;
pub mod gathering;
pub mod go_deposit_bank;
pub mod go_infinit_fight;
pub mod go_infinit_gathering;
pub mod infinit_craft;
pub mod infinit_fight;
pub mod infinit_gathering;
pub mod infinit_gathering_cooper;
pub mod moving;
pub mod withdraw_bank;

use vstd::prelude::*;
use crate::behaviors::go_deposit_bank::{GoDepositBankBehavior, GoDepositBankView};
use crate::behaviors::go_infinit_gathering::GoInfinitGateringBehavior;
use crate::characters::Character;
use crate::effects::{Reply, ReplyView, Step, StepView, replies_view};
use crate::time::Timestamp;

verus! {

/// A behavior that hands over the behavior that follows it.
#[derive(Debug)]
pub enum Behavior {
    GoDepositBankBehavior(GoDepositBankBehavior),
    GoInfinitGateringBehavior(GoInfinitGateringBehavior),
}

pub enum BehaviorView {
    GoDepositBankBehavior(GoDepositBankView),
    GoInfinitGateringBehavior(GoInfinitGateringBehavior),
}

impl View for Behavior {
    type V = BehaviorView;

    open spec fn view(&self) -> BehaviorView {
        match self {
            Behavior::GoDepositBankBehavior(b) => BehaviorView::GoDepositBankBehavior(b@),
            Behavior::GoInfinitGateringBehavior(b) => BehaviorView::GoInfinitGateringBehavior(*b),
        }
    }
}

impl Clone for Behavior {
    fn clone(&self) -> (r: Self)
        ensures
            r@ == self@,
    {
        match self {
            Behavior::GoDepositBankBehavior(b) => Behavior::GoDepositBankBehavior(b.clone()),
            Behavior::GoInfinitGateringBehavior(b) => Behavior::GoInfinitGateringBehavior(*b),
        }
    }
}

/// The view of a step that hands over an optional next behavior.
pub open spec fn option_step_view(s: Step<Option<Behavior>>) -> StepView<Option<BehaviorView>> {
    match s {
        Step::Next(Ok(Some(b))) => StepView::Next(Ok(Some(b@))),
        Step::Next(Ok(None)) => StepView::Next(Ok(None)),
        Step::Next(Err(e)) => StepView::Next(Err(e@)),
        Step::Perform(a) => StepView::Perform(a@),
    }
}

impl BehaviorView {
    /// One step of the behavior that is held; the gathering behavior plays
    /// `character`, while the trip to the bank plays its own snapshot.
    pub open spec fn step(
        self,
        character: crate::characters::CharacterView,
        now: crate::time::Timestamp,
        replies: Seq<ReplyView>,
    ) -> StepView<Option<BehaviorView>> {
        match self {
            BehaviorView::GoDepositBankBehavior(b) => b.step(replies),
            BehaviorView::GoInfinitGateringBehavior(b) => b.step(character, now, replies).map_next(
                |g: GoInfinitGateringBehavior| Some(BehaviorView::GoInfinitGateringBehavior(g)),
            ),
        }
    }
}

impl BehaviorView {
    /// A step asks for at most one action: with one reply it is over, and
    /// it reads no reply beyond the first.
    pub proof fn lemma_one_action_per_step(
        self,
        character: crate::characters::CharacterView,
        now: crate::time::Timestamp,
        replies: Seq<ReplyView>,
    )
        requires
            replies.len() >= 1,
        ensures
            self.step(character, now, replies).is_next(),
            self.step(character, now, replies) == self.step(character, now, replies.take(1)),
    {
        match self {
            BehaviorView::GoDepositBankBehavior(b) => b.lemma_one_action_and_no_failure(replies),
            BehaviorView::GoInfinitGateringBehavior(b) => b.lemma_one_action_per_step(character, now, replies),
        }
    }
}

impl Behavior {
    pub fn next_behavior(&self, character: &Character, now: &Timestamp, replies: &[Reply]) -> (r: Step<Option<Behavior>>)
        ensures
            option_step_view(r) == self@.step(character@, *now, replies_view(replies@)),
    {
        match self {
            Behavior::GoDepositBankBehavior(b) => b.next_behavior(replies),
            Behavior::GoInfinitGateringBehavior(b) => match b.next_behavior(character, now, replies) {
                Step::Perform(a) => Step::Perform(a),
                Step::Next(Err(e)) => Step::Next(Err(e)),
                Step::Next(Ok(g)) => Step::Next(Ok(Some(Behavior::GoInfinitGateringBehavior(g)))),
            },
        }
    }
}

} // verus!
