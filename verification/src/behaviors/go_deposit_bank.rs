//! A self-contained trip to the bank for a snapshot of a character.

use vstd::prelude::*;
use crate::behaviors::{Behavior, BehaviorView, option_step_view};
use crate::characters::{Character, CharacterView};
use crate::effects::{Action, ActionView, Reply, ReplyView, Step, StepView, replies_view};
use crate::shared::Position;

verus! {

#[derive(Clone, Copy, Debug, PartialEq, Eq, Structural)]
pub enum GoDepositState {
    Empty,
    InBank,
    Finish,
}

/// Moves its character to the bank and deposits the first stack of its
/// inventory; after finishing it starts over.
#[derive(Debug)]
pub struct GoDepositBankBehavior {
    pub character_info: Character,
    pub current_state: GoDepositState,
    pub bank_position: Position,
}

pub struct GoDepositBankView {
    pub character_info: CharacterView,
    pub current_state: GoDepositState,
    pub bank_position: Position,
}

impl View for GoDepositBankBehavior {
    type V = GoDepositBankView;

    open spec fn view(&self) -> GoDepositBankView {
        GoDepositBankView {
            character_info: self.character_info@,
            current_state: self.current_state,
            bank_position: self.bank_position,
        }
    }
}

impl Clone for GoDepositBankBehavior {
    fn clone(&self) -> (r: Self)
        ensures
            r@ == self@,
    {
        GoDepositBankBehavior {
            character_info: self.character_info.clone(),
            current_state: self.current_state,
            bank_position: self.bank_position,
        }
    }
}

impl GoDepositBankView {
    pub open spec fn with_state(self, current_state: GoDepositState) -> GoDepositBankView {
        GoDepositBankView { current_state, ..self }
    }

    /// The behavior that comes next, as the enclosing `Behavior`.
    pub open spec fn continue_as(self, current_state: GoDepositState) -> StepView<Option<BehaviorView>> {
        StepView::Next(Ok(Some(BehaviorView::GoDepositBankBehavior(self.with_state(current_state)))))
    }

    /// One step (no cooldown is looked at):
    /// - `Empty`: move to the bank unless already there, then `InBank`; a
    ///   failed move stays in `Empty`;
    /// - `InBank`: deposit the first non-empty stack, whole, then `Finish`
    ///   (at once if the inventory is empty); a failed deposit stays;
    /// - `Finish`: back to `Empty`.
    pub open spec fn step(self, replies: Seq<ReplyView>) -> StepView<Option<BehaviorView>> {
        match self.current_state {
            GoDepositState::Empty => if self.bank_position != self.character_info.position {
                if replies.len() == 0 {
                    StepView::Perform(ActionView::Move(self.bank_position))
                } else if replies[0].succeeded() {
                    self.continue_as(GoDepositState::InBank)
                } else {
                    self.continue_as(GoDepositState::Empty)
                }
            } else {
                self.continue_as(GoDepositState::InBank)
            },
            GoDepositState::InBank => match self.character_info.first_item() {
                Some(slot) => if replies.len() == 0 {
                    StepView::Perform(ActionView::Deposit(slot.code, slot.quantity))
                } else if replies[0].succeeded() {
                    self.continue_as(GoDepositState::Finish)
                } else {
                    self.continue_as(GoDepositState::InBank)
                },
                None => self.continue_as(GoDepositState::Finish),
            },
            GoDepositState::Finish => self.continue_as(GoDepositState::Empty),
        }
    }
}

impl GoDepositBankView {
    /// A step asks for at most one action (with one reply it is over, and it
    /// reads no reply beyond the first), never fails, and always hands over a
    /// trip to the bank for the same snapshot and bank.
    pub proof fn lemma_one_action_and_no_failure(self, replies: Seq<ReplyView>)
        ensures
            replies.len() >= 1 ==> self.step(replies).is_next() && self.step(replies) == self.step(
                replies.take(1),
            ),
            self.step(replies) matches StepView::Next(r) ==> r matches Ok(Some(
                BehaviorView::GoDepositBankBehavior(b),
            )) && b.character_info == self.character_info && b.bank_position == self.bank_position,
    {
    }

    /// At the bank with a stocked slot, the trip reaches `Finish` exactly
    /// when a deposit was answered with success; without a reply it asks to
    /// deposit that whole stack, and a failed deposit keeps it in `InBank`,
    /// so that the deposit is tried again.
    pub proof fn lemma_finishes_only_after_deposit(self, replies: Seq<ReplyView>)
        requires
            self.current_state == GoDepositState::InBank,
            self.character_info.first_item() is Some,
        ensures
            replies.len() == 0 ==> self.step(replies) == StepView::<Option<BehaviorView>>::Perform(
                ActionView::Deposit(
                    self.character_info.first_item()->0.code,
                    self.character_info.first_item()->0.quantity,
                ),
            ),
            (self.step(replies) matches StepView::Next(Ok(Some(BehaviorView::GoDepositBankBehavior(b))))
                && b.current_state == GoDepositState::Finish) <==> (replies.len() >= 1 && replies[0].succeeded()),
            replies.len() >= 1 && !replies[0].succeeded() ==> self.step(replies) == StepView::Next(
                Ok(Some(BehaviorView::GoDepositBankBehavior((GoDepositBankView { current_state: GoDepositState::InBank, ..self })))),
            ),
    {
    }

    /// Away from the bank, the trip enters `InBank` only after a successful
    /// move to the bank; a failed move keeps it in `Empty`.
    pub proof fn lemma_reaches_bank_only_after_move(self, replies: Seq<ReplyView>)
        requires
            self.current_state == GoDepositState::Empty,
            self.character_info.position != self.bank_position,
        ensures
            replies.len() == 0 ==> self.step(replies) == StepView::<Option<BehaviorView>>::Perform(
                ActionView::Move(self.bank_position),
            ),
            (self.step(replies) matches StepView::Next(Ok(Some(BehaviorView::GoDepositBankBehavior(b))))
                && b.current_state == GoDepositState::InBank) <==> (replies.len() >= 1 && replies[0].succeeded()),
            replies.len() >= 1 && !replies[0].succeeded() ==> self.step(replies) == StepView::Next(
                Ok(Some(BehaviorView::GoDepositBankBehavior(self))),
            ),
    {
    }
}

impl GoDepositBankBehavior {
    pub fn new(character_info: Character, bank_position: Position) -> (r: Self)
        ensures
            r@ == (GoDepositBankView {
                character_info: character_info@,
                current_state: GoDepositState::Empty,
                bank_position,
            }),
    {
        GoDepositBankBehavior { current_state: GoDepositState::Empty, character_info, bank_position }
    }

    fn continue_as(&self, current_state: GoDepositState) -> (r: Step<Option<Behavior>>)
        ensures
            option_step_view(r) == self@.continue_as(current_state),
    {
        Step::Next(Ok(Some(Behavior::GoDepositBankBehavior(GoDepositBankBehavior {
            character_info: self.character_info.clone(),
            current_state,
            bank_position: self.bank_position,
        }))))
    }

    pub fn next_behavior(&self, replies: &[Reply]) -> (r: Step<Option<Behavior>>)
        ensures
            option_step_view(r) == self@.step(replies_view(replies@)),
    {
        match self.current_state {
            GoDepositState::Empty => {
                if self.bank_position != self.character_info.position {
                    if replies.len() == 0 {
                        Step::Perform(Action::Move(self.bank_position))
                    } else if replies[0].succeeded() {
                        self.continue_as(GoDepositState::InBank)
                    } else {
                        self.continue_as(GoDepositState::Empty)
                    }
                } else {
                    self.continue_as(GoDepositState::InBank)
                }
            },
            GoDepositState::InBank => {
                match self.character_info.get_first_item() {
                    Some(slot) => {
                        if replies.len() == 0 {
                            Step::Perform(Action::Deposit { code: slot.code, quantity: slot.quantity })
                        } else if replies[0].succeeded() {
                            self.continue_as(GoDepositState::Finish)
                        } else {
                            self.continue_as(GoDepositState::InBank)
                        }
                    },
                    None => self.continue_as(GoDepositState::Finish),
                }
            },
            GoDepositState::Finish => self.continue_as(GoDepositState::Empty),
        }
    }
}

} // verus!
