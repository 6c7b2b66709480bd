//! Going to the bank and depositing the first stack of the inventory.

use vstd::prelude::*;
use crate::behaviors::moving::{MovingBehavior, MovingState};
use crate::characters::{Character, CharacterView, SlotView, lemma_first_stocked_is_stocked};
use crate::effects::{Action, ActionView, Reply, ReplyView, Step, StepView, replies_view};
use crate::errors::{Error, invalid_transition};
use crate::shared::Position;
use crate::time::Timestamp;

verus! {

/// The cell of the bank.
pub open spec fn bank_position() -> Position {
    Position { x: 4, y: 1 }
}

pub fn bank_cell() -> (p: Position)
    ensures
        p == bank_position(),
{
    Position::new(4, 1)
}

#[derive(Clone, Copy, Debug, PartialEq, Eq, Structural)]
pub enum DepositState {
    Empty,
    InBank,
    Finish,
}

/// Walks to the bank, deposits the first stack of the inventory, then
/// finishes.
#[derive(Clone, Copy, Debug, PartialEq, Eq, Structural)]
pub struct DepositBankBehavior {
    pub current_state: DepositState,
    pub moving_behavior: MovingBehavior,
}

impl View for DepositBankBehavior {
    type V = DepositBankBehavior;

    open spec fn view(&self) -> DepositBankBehavior {
        *self
    }
}

impl DepositBankBehavior {
    pub open spec fn initial(moving_behavior: MovingBehavior) -> DepositBankBehavior {
        DepositBankBehavior { current_state: DepositState::Empty, moving_behavior }
    }

    pub open spec fn restarted(self) -> DepositBankBehavior {
        DepositBankBehavior { current_state: DepositState::Empty, ..self }
    }

    /// The state after the walk to the bank made a step.
    pub open spec fn after_walk(self, m: MovingBehavior) -> DepositBankBehavior {
        if m.current_state == MovingState::Finish {
            DepositBankBehavior {
                current_state: DepositState::InBank,
                moving_behavior: self.moving_behavior.restarted(),
            }
        } else {
            DepositBankBehavior { moving_behavior: m, ..self }
        }
    }

    /// One step: during a cooldown nothing changes. Otherwise the character
    /// walks to the bank; there it deposits its first non-empty stack, whole,
    /// and the behavior finishes (at once if the inventory is empty). A
    /// failed deposit is tried again at the next step.
    pub open spec fn step(self, character: CharacterView, now: Timestamp, replies: Seq<ReplyView>) -> StepView<DepositBankBehavior> {
        if character.cooldown_at(now) >= 0 {
            StepView::Next(Ok(self))
        } else {
            match self.current_state {
                DepositState::Empty => self.moving_behavior.step(
                    character,
                    bank_position(),
                    now,
                    replies,
                ).map_next(|m: MovingBehavior| self.after_walk(m)),
                DepositState::InBank => match character.first_item() {
                    Some(slot) => if replies.len() == 0 {
                        StepView::Perform(ActionView::Deposit(slot.code, slot.quantity))
                    } else if replies[0].succeeded() {
                        StepView::Next(Ok(DepositBankBehavior { current_state: DepositState::Finish, ..self }))
                    } else {
                        StepView::Next(Ok(self))
                    },
                    None => StepView::Next(Ok(DepositBankBehavior { current_state: DepositState::Finish, ..self })),
                },
                DepositState::Finish => StepView::Next(Err(invalid_transition())),
            }
        }
    }

    /// While the character is in cooldown, a step keeps the behavior as it
    /// is and asks for nothing.
    pub proof fn lemma_waits_during_cooldown(self, character: CharacterView, now: Timestamp, replies: Seq<ReplyView>)
        requires
            character.cooldown_at(now) >= 0,
        ensures
            self.step(character, now, replies) == StepView::Next(Ok(self)),
    {
    }

    /// A step asks for at most one action: with one reply it is over, and
    /// it reads no reply beyond the first.
    pub proof fn lemma_one_action_per_step(self, character: CharacterView, now: Timestamp, replies: Seq<ReplyView>)
        requires
            replies.len() >= 1,
        ensures
            self.step(character, now, replies).is_next(),
            self.step(character, now, replies) == self.step(character, now, replies.take(1)),
    {
        self.moving_behavior.lemma_one_action_per_step(character, bank_position(), now, replies);
    }

    /// At the bank, the behavior finishes exactly when the inventory holds
    /// nothing or a deposit was answered with success; a failed deposit
    /// leaves the behavior as it was, so that it is tried again.
    pub proof fn lemma_finishes_only_after_deposit(self, character: CharacterView, now: Timestamp, replies: Seq<ReplyView>)
        requires
            character.cooldown_at(now) < 0,
            self.current_state == DepositState::InBank,
        ensures
            (self.step(character, now, replies) matches StepView::Next(Ok(d)) && d.current_state
                == DepositState::Finish) <==> (character.first_item() is None || (replies.len() >= 1
                && replies[0].succeeded())),
            character.first_item() is Some && replies.len() >= 1 && !replies[0].succeeded() ==> self.step(
                character,
                now,
                replies,
            ) == StepView::Next(Ok(self)),
    {
    }

    /// What a step deposits is a whole stack of the inventory, and never an
    /// empty one; it only deposits in the bank, and only moves to the bank.
    pub proof fn lemma_deposits_whole_stacks(self, character: CharacterView, now: Timestamp, replies: Seq<ReplyView>)
        ensures
            self.step(character, now, replies) matches StepView::Perform(a) ==> match a {
                ActionView::Deposit(code, quantity) => self.current_state == DepositState::InBank && quantity > 0
                    && character.first_item() == Some(SlotView { code, quantity }),
                ActionView::Move(p) => p == bank_position() && p != character.position,
                _ => false,
            },
    {
        self.moving_behavior.lemma_moves_only_elsewhere(character, bank_position(), now, replies);
        if character.first_item() is Some {
            lemma_first_stocked_is_stocked(character.inventory);
        }
    }

    /// The walk it holds has not finished: it is reset whenever it finishes.
    pub open spec fn well_formed(self) -> bool {
        self.moving_behavior.current_state == MovingState::Empty
    }

    /// Steps keep the behavior well formed, and a well-formed behavior
    /// stops on an error only when asked to go on after finishing.
    pub proof fn lemma_steps_keep_well_formed(self, character: CharacterView, now: Timestamp, replies: Seq<ReplyView>)
        requires
            self.well_formed(),
        ensures
            self.step(character, now, replies) matches StepView::Next(Ok(b)) ==> b.well_formed(),
            self.step(character, now, replies) matches StepView::Next(Err(e)) ==> e == invalid_transition()
                && self.current_state == DepositState::Finish,
    {
    }

    pub fn new(moving_behavior: MovingBehavior) -> (r: Self)
        ensures
            r == Self::initial(moving_behavior),
    {
        DepositBankBehavior { current_state: DepositState::Empty, moving_behavior }
    }

    pub fn reset(&self) -> (r: Self)
        ensures
            r == self.restarted(),
    {
        DepositBankBehavior { current_state: DepositState::Empty, ..*self }
    }

    pub fn next_behavior(&self, character_info: &Character, now: &Timestamp, replies: &[Reply]) -> (r: Step<DepositBankBehavior>)
        ensures
            r@ == self.step(character_info@, *now, replies_view(replies@)),
    {
        let cooldown = character_info.cooldown_sec_at(now);
        if cooldown >= 0 {
            return Step::Next(Ok(*self));
        }
        match self.current_state {
            DepositState::Empty => {
                let bank = bank_cell();
                match self.moving_behavior.next_behavior(character_info, &bank, now, replies) {
                    Step::Perform(a) => Step::Perform(a),
                    Step::Next(Err(e)) => Step::Next(Err(e)),
                    Step::Next(Ok(new_moving_behavior)) => {
                        if new_moving_behavior.current_state == MovingState::Finish {
                            Step::Next(Ok(DepositBankBehavior {
                                current_state: DepositState::InBank,
                                moving_behavior: self.moving_behavior.reset(),
                            }))
                        } else {
                            Step::Next(Ok(DepositBankBehavior { moving_behavior: new_moving_behavior, ..*self }))
                        }
                    },
                }
            },
            DepositState::InBank => {
                match character_info.get_first_item() {
                    Some(slot) => {
                        if replies.len() == 0 {
                            Step::Perform(Action::Deposit { code: slot.code, quantity: slot.quantity })
                        } else if replies[0].succeeded() {
                            Step::Next(Ok(DepositBankBehavior { current_state: DepositState::Finish, ..*self }))
                        } else {
                            Step::Next(Ok(*self))
                        }
                    },
                    None => Step::Next(Ok(DepositBankBehavior { current_state: DepositState::Finish, ..*self })),
                }
            },
            DepositState::Finish => Step::Next(Err(Error::invalid_transition())),
        }
    }
}

} // verus!
