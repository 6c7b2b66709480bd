//! Going to the bank and taking items out of it.

use vstd::prelude::*;
use crate::behaviors::deposit_bank::{bank_cell, bank_position};
use crate::behaviors::moving::{MovingBehavior, MovingState};
use crate::characters::{Character, CharacterView};
use crate::effects::{Action, ActionView, Reply, ReplyView, Step, StepView, replies_view};
use crate::errors::{Error, invalid_transition};
use crate::time::Timestamp;

verus! {

#[derive(Clone, Copy, Debug, PartialEq, Eq, Structural)]
pub enum WithdrawState {
    Empty,
    InBank,
    Finish,
}

/// Walks to the bank, withdraws a quantity of an item, then finishes.
#[derive(Clone, Copy, Debug, PartialEq, Eq, Structural)]
pub struct WithdrawBankBehavior {
    pub current_state: WithdrawState,
    pub moving_behavior: MovingBehavior,
}

impl View for WithdrawBankBehavior {
    type V = WithdrawBankBehavior;

    open spec fn view(&self) -> WithdrawBankBehavior {
        *self
    }
}

impl WithdrawBankBehavior {
    pub open spec fn initial(moving_behavior: MovingBehavior) -> WithdrawBankBehavior {
        WithdrawBankBehavior { current_state: WithdrawState::Empty, moving_behavior }
    }

    pub open spec fn restarted(self) -> WithdrawBankBehavior {
        WithdrawBankBehavior { current_state: WithdrawState::Empty, ..self }
    }

    pub open spec fn after_walk(self, m: MovingBehavior) -> WithdrawBankBehavior {
        if m.current_state == MovingState::Finish {
            WithdrawBankBehavior {
                current_state: WithdrawState::InBank,
                moving_behavior: self.moving_behavior.restarted(),
            }
        } else {
            WithdrawBankBehavior { moving_behavior: m, ..self }
        }
    }

    /// One step: during a cooldown nothing changes. Otherwise the character
    /// walks to the bank; there it withdraws `quantity` of the item `code`
    /// and the behavior finishes. A failed withdrawal is tried again at the
    /// next step.
    pub open spec fn step(
        self,
        character: CharacterView,
        code: Seq<char>,
        quantity: u32,
        now: Timestamp,
        replies: Seq<ReplyView>,
    ) -> StepView<WithdrawBankBehavior> {
        if character.cooldown_at(now) >= 0 {
            StepView::Next(Ok(self))
        } else {
            match self.current_state {
                WithdrawState::Empty => self.moving_behavior.step(
                    character,
                    bank_position(),
                    now,
                    replies,
                ).map_next(|m: MovingBehavior| self.after_walk(m)),
                WithdrawState::InBank => if replies.len() == 0 {
                    StepView::Perform(ActionView::Withdraw(code, quantity))
                } else if replies[0].succeeded() {
                    StepView::Next(Ok(WithdrawBankBehavior { current_state: WithdrawState::Finish, ..self }))
                } else {
                    StepView::Next(Ok(self))
                },
                WithdrawState::Finish => StepView::Next(Err(invalid_transition())),
            }
        }
    }

    /// While the character is in cooldown, a step keeps the behavior as it
    /// is and asks for nothing.
    pub proof fn lemma_waits_during_cooldown(
        self,
        character: CharacterView,
        code: Seq<char>,
        quantity: u32,
        now: Timestamp,
        replies: Seq<ReplyView>,
    )
        requires
            character.cooldown_at(now) >= 0,
        ensures
            self.step(character, code, quantity, now, replies) == StepView::Next(Ok(self)),
    {
    }

    /// A step asks for at most one action: with one reply it is over, and
    /// it reads no reply beyond the first.
    pub proof fn lemma_one_action_per_step(
        self,
        character: CharacterView,
        code: Seq<char>,
        quantity: u32,
        now: Timestamp,
        replies: Seq<ReplyView>,
    )
        requires
            replies.len() >= 1,
        ensures
            self.step(character, code, quantity, now, replies).is_next(),
            self.step(character, code, quantity, now, replies) == self.step(character, code, quantity, now, replies.take(1)),
    {
        self.moving_behavior.lemma_one_action_per_step(character, bank_position(), now, replies);
    }

    /// At the bank, the behavior asks to withdraw `quantity` of `code`, and
    /// finishes exactly when that withdrawal was answered with success; a
    /// failed withdrawal leaves the behavior as it was.
    pub proof fn lemma_finishes_only_after_withdrawal(
        self,
        character: CharacterView,
        code: Seq<char>,
        quantity: u32,
        now: Timestamp,
        replies: Seq<ReplyView>,
    )
        requires
            character.cooldown_at(now) < 0,
            self.current_state == WithdrawState::InBank,
        ensures
            replies.len() == 0 ==> self.step(character, code, quantity, now, replies) == StepView::<
                WithdrawBankBehavior,
            >::Perform(ActionView::Withdraw(code, quantity)),
            (self.step(character, code, quantity, now, replies) matches StepView::Next(Ok(w)) && w.current_state
                == WithdrawState::Finish) <==> (replies.len() >= 1 && replies[0].succeeded()),
            replies.len() >= 1 && !replies[0].succeeded() ==> self.step(character, code, quantity, now, replies)
                == StepView::Next(Ok(self)),
    {
    }

    /// The walk it holds has not finished: it is reset whenever it finishes.
    pub open spec fn well_formed(self) -> bool {
        self.moving_behavior.current_state == MovingState::Empty
    }

    /// Steps keep the behavior well formed, and a well-formed behavior
    /// stops on an error only when asked to go on after finishing.
    pub proof fn lemma_steps_keep_well_formed(self, character: CharacterView, code: Seq<char>, quantity: u32, now: Timestamp, replies: Seq<ReplyView>)
        requires
            self.well_formed(),
        ensures
            self.step(character, code, quantity, now, replies) matches StepView::Next(Ok(b)) ==> b.well_formed(),
            self.step(character, code, quantity, now, replies) matches StepView::Next(Err(e)) ==> e == invalid_transition()
                && self.current_state == WithdrawState::Finish,
    {
    }

    pub fn new(moving_behavior: MovingBehavior) -> (r: Self)
        ensures
            r == Self::initial(moving_behavior),
    {
        WithdrawBankBehavior { current_state: WithdrawState::Empty, moving_behavior }
    }

    pub fn reset(&self) -> (r: Self)
        ensures
            r == self.restarted(),
    {
        WithdrawBankBehavior { current_state: WithdrawState::Empty, ..*self }
    }

    pub fn next_behavior(
        &self,
        character_info: &Character,
        code: &String,
        quantity: u32,
        now: &Timestamp,
        replies: &[Reply],
    ) -> (r: Step<WithdrawBankBehavior>)
        ensures
            r@ == self.step(character_info@, code@, quantity, *now, replies_view(replies@)),
    {
        let cooldown = character_info.cooldown_sec_at(now);
        if cooldown >= 0 {
            return Step::Next(Ok(*self));
        }
        match self.current_state {
            WithdrawState::Empty => {
                let bank = bank_cell();
                match self.moving_behavior.next_behavior(character_info, &bank, now, replies) {
                    Step::Perform(a) => Step::Perform(a),
                    Step::Next(Err(e)) => Step::Next(Err(e)),
                    Step::Next(Ok(new_moving_behavior)) => {
                        if new_moving_behavior.current_state == MovingState::Finish {
                            Step::Next(Ok(WithdrawBankBehavior {
                                current_state: WithdrawState::InBank,
                                moving_behavior: self.moving_behavior.reset(),
                            }))
                        } else {
                            Step::Next(Ok(WithdrawBankBehavior { moving_behavior: new_moving_behavior, ..*self }))
                        }
                    },
                }
            },
            WithdrawState::InBank => {
                if replies.len() == 0 {
                    Step::Perform(Action::Withdraw { code: code.clone(), quantity })
                } else if replies[0].succeeded() {
                    Step::Next(Ok(WithdrawBankBehavior { current_state: WithdrawState::Finish, ..*self }))
                } else {
                    Step::Next(Ok(*self))
                }
            },
            WithdrawState::Finish => Step::Next(Err(Error::invalid_transition())),
        }
    }
}

} // verus!
