//! Gathering at one place forever, going to the bank when the inventory is
//! full.

use vstd::prelude::*;
use crate::behaviors::deposit_bank::{DepositBankBehavior, DepositState};
use crate::behaviors::gathering::STATUS_INVENTORY_FULL;
use crate::behaviors::moving::{MovingBehavior, MovingState};
use crate::characters::{Character, CharacterView};
use crate::effects::{Action, ActionView, Reply, ReplyView, Step, StepView, replies_view};
use crate::shared::Position;
use crate::time::Timestamp;

verus! {

#[derive(Clone, Copy, Debug, PartialEq, Eq, Structural)]
pub enum GoGatheringState {
    Empty,
    InGatheringZone,
}

/// Walks to a resource and gathers it again and again; whenever the
/// inventory is full, empties it at the bank first.
#[derive(Clone, Copy, Debug, PartialEq, Eq, Structural)]
pub struct GoInfinitGateringBehavior {
    pub current_state: GoGatheringState,
    pub gathering_position: Position,
    pub deposit_bank: DepositBankBehavior,
    pub moving_behavior: MovingBehavior,
}

impl View for GoInfinitGateringBehavior {
    type V = GoInfinitGateringBehavior;

    open spec fn view(&self) -> GoInfinitGateringBehavior {
        *self
    }
}

impl GoInfinitGateringBehavior {
    pub open spec fn after_deposit(self, d: DepositBankBehavior) -> GoInfinitGateringBehavior {
        if d.current_state == DepositState::Finish {
            GoInfinitGateringBehavior {
                current_state: GoGatheringState::Empty,
                deposit_bank: d.restarted(),
                ..self
            }
        } else {
            GoInfinitGateringBehavior { deposit_bank: d, ..self }
        }
    }

    pub open spec fn after_walk(self, m: MovingBehavior) -> GoInfinitGateringBehavior {
        if m.current_state == MovingState::Finish {
            GoInfinitGateringBehavior {
                current_state: GoGatheringState::InGatheringZone,
                moving_behavior: self.moving_behavior.restarted(),
                ..self
            }
        } else {
            GoInfinitGateringBehavior { moving_behavior: m, ..self }
        }
    }

    /// One step: during a cooldown nothing changes. With a full inventory
    /// the deposit behavior makes a step (and once it finishes, everything
    /// starts over). Otherwise the character walks to the resource, then
    /// gathers once its cooldown is over; after a gathering, or a refusal
    /// for a full inventory, it starts over; any other failure is tried
    /// again.
    pub open spec fn step(self, character: CharacterView, now: Timestamp, replies: Seq<ReplyView>) -> StepView<GoInfinitGateringBehavior> {
        if character.cooldown_at(now) >= 0 {
            StepView::Next(Ok(self))
        } else if character.is_full_inventory() {
            self.deposit_bank.step(character, now, replies).map_next(
                |d: DepositBankBehavior| self.after_deposit(d),
            )
        } else {
            match self.current_state {
                GoGatheringState::Empty => self.moving_behavior.step(
                    character,
                    self.gathering_position,
                    now,
                    replies,
                ).map_next(|m: MovingBehavior| self.after_walk(m)),
                GoGatheringState::InGatheringZone => if character.ready_at(now) {
                    if replies.len() == 0 {
                        StepView::Perform(ActionView::Gathering)
                    } else if replies[0].succeeded() || replies[0].failed_with_status(STATUS_INVENTORY_FULL) {
                        StepView::Next(Ok(GoInfinitGateringBehavior { current_state: GoGatheringState::Empty, ..self }))
                    } else {
                        StepView::Next(Ok(self))
                    }
                } else {
                    StepView::Next(Ok(self))
                },
            }
        }
    }

    /// While the character is in cooldown, a step keeps the behavior as it
    /// is and asks for nothing.
    pub proof fn lemma_waits_during_cooldown(self, character: CharacterView, now: Timestamp, replies: Seq<ReplyView>)
        requires
            character.cooldown_at(now) >= 0,
        ensures
            self.step(character, now, replies) == StepView::Next(Ok(self)),
    {
    }

    /// A step asks for at most one action: with one reply it is over, and
    /// it reads no reply beyond the first.
    pub proof fn lemma_one_action_per_step(self, character: CharacterView, now: Timestamp, replies: Seq<ReplyView>)
        requires
            replies.len() >= 1,
        ensures
            self.step(character, now, replies).is_next(),
            self.step(character, now, replies) == self.step(character, now, replies.take(1)),
    {
        self.deposit_bank.lemma_one_action_per_step(character, now, replies);
        self.moving_behavior.lemma_one_action_per_step(character, self.gathering_position, now, replies);
    }

    /// With a full inventory the loop follows the deposit behavior it holds:
    /// once that reaches `Finish`, the loop starts over from `Empty` with the
    /// deposit behavior reset; before that, only the deposit behavior moves.
    pub proof fn lemma_back_to_gathering_after_deposit(
        self,
        character: CharacterView,
        now: Timestamp,
        replies: Seq<ReplyView>,
    )
        requires
            character.cooldown_at(now) < 0,
            character.is_full_inventory(),
        ensures
            self.deposit_bank.step(character, now, replies) matches StepView::Next(Ok(d)) ==> (d.current_state
                == DepositState::Finish ==> self.step(character, now, replies) == StepView::Next(
                Ok(
                    (GoInfinitGateringBehavior {
                        current_state: GoGatheringState::Empty,
                        deposit_bank: (DepositBankBehavior { current_state: DepositState::Empty, ..d }),
                        ..self
                    }),
                ),
            )),
            self.deposit_bank.step(character, now, replies) matches StepView::Next(Ok(d)) ==> (d.current_state
                != DepositState::Finish ==> self.step(character, now, replies) == StepView::Next(
                Ok((GoInfinitGateringBehavior { deposit_bank: d, ..self })),
            )),
    {
    }

    /// At the resource with room in the inventory and the cooldown over, the
    /// loop asks to gather; a successful gathering, or a refusal for a full
    /// inventory, starts the round over from `Empty`; any other failure
    /// leaves the loop as it was.
    pub proof fn lemma_gathering_round(self, character: CharacterView, now: Timestamp, replies: Seq<ReplyView>)
        requires
            character.cooldown_at(now) < 0,
            !character.is_full_inventory(),
            character.ready_at(now),
            self.current_state == GoGatheringState::InGatheringZone,
        ensures
            replies.len() == 0 ==> self.step(character, now, replies) == StepView::<
                GoInfinitGateringBehavior,
            >::Perform(ActionView::Gathering),
            replies.len() >= 1 && (replies[0].succeeded() || replies[0].failed_with_status(STATUS_INVENTORY_FULL))
                ==> self.step(character, now, replies) == StepView::Next(
                Ok((GoInfinitGateringBehavior { current_state: GoGatheringState::Empty, ..self })),
            ),
            replies.len() >= 1 && !replies[0].succeeded() && !replies[0].failed_with_status(STATUS_INVENTORY_FULL)
                ==> self.step(character, now, replies) == StepView::Next(Ok(self)),
    {
    }

    /// With a full inventory the character never gathers: it only walks to
    /// the bank and deposits.
    pub proof fn lemma_no_gathering_when_full(self, character: CharacterView, now: Timestamp, replies: Seq<ReplyView>)
        requires
            character.is_full_inventory(),
        ensures
            self.step(character, now, replies) matches StepView::Perform(a) ==> (a is Move || a is Deposit),
    {
        self.deposit_bank.lemma_deposits_whole_stacks(character, now, replies);
    }

    /// The behaviors it holds have not finished, nor has the walk to the
    /// bank: each is reset whenever it finishes.
    pub open spec fn well_formed(self) -> bool {
        &&& self.moving_behavior.current_state == MovingState::Empty
        &&& self.deposit_bank.well_formed()
        &&& self.deposit_bank.current_state != DepositState::Finish
    }

    /// A well-formed gathering loop stays well formed, and none of its
    /// steps ever stops on an error: it goes on forever.
    pub proof fn lemma_never_fails(self, character: CharacterView, now: Timestamp, replies: Seq<ReplyView>)
        requires
            self.well_formed(),
        ensures
            self.step(character, now, replies) matches StepView::Next(r) ==> r matches Ok(b) && b.well_formed(),
    {
        self.deposit_bank.lemma_steps_keep_well_formed(character, now, replies);
        self.moving_behavior.lemma_fails_only_when_finished(character, self.gathering_position, now, replies);
    }

    pub fn new(
        gathering_position: &Position,
        deposit_bank: DepositBankBehavior,
        moving_behavior: MovingBehavior,
    ) -> (r: Self)
        ensures
            r == (GoInfinitGateringBehavior {
                current_state: GoGatheringState::Empty,
                gathering_position: *gathering_position,
                deposit_bank,
                moving_behavior,
            }),
    {
        GoInfinitGateringBehavior {
            current_state: GoGatheringState::Empty,
            gathering_position: *gathering_position,
            deposit_bank,
            moving_behavior,
        }
    }

    pub fn next_behavior(&self, character: &Character, now: &Timestamp, replies: &[Reply]) -> (r: Step<GoInfinitGateringBehavior>)
        ensures
            r@ == self.step(character@, *now, replies_view(replies@)),
    {
        let cooldown = character.cooldown_sec_at(now);
        if cooldown >= 0 {
            return Step::Next(Ok(*self));
        }
        if character.is_full_inventory() {
            return match self.deposit_bank.next_behavior(character, now, replies) {
                Step::Perform(a) => Step::Perform(a),
                Step::Next(Err(e)) => Step::Next(Err(e)),
                Step::Next(Ok(deposit_bank)) => {
                    if deposit_bank.current_state == DepositState::Finish {
                        Step::Next(Ok(GoInfinitGateringBehavior {
                            current_state: GoGatheringState::Empty,
                            deposit_bank: deposit_bank.reset(),
                            ..*self
                        }))
                    } else {
                        Step::Next(Ok(GoInfinitGateringBehavior { deposit_bank, ..*self }))
                    }
                },
            };
        }
        match self.current_state {
            GoGatheringState::Empty => {
                match self.moving_behavior.next_behavior(character, &self.gathering_position, now, replies) {
                    Step::Perform(a) => Step::Perform(a),
                    Step::Next(Err(e)) => Step::Next(Err(e)),
                    Step::Next(Ok(moving)) => {
                        if moving.current_state == MovingState::Finish {
                            Step::Next(Ok(GoInfinitGateringBehavior {
                                current_state: GoGatheringState::InGatheringZone,
                                moving_behavior: self.moving_behavior.reset(),
                                ..*self
                            }))
                        } else {
                            Step::Next(Ok(GoInfinitGateringBehavior { moving_behavior: moving, ..*self }))
                        }
                    },
                }
            },
            GoGatheringState::InGatheringZone => {
                if character.is_ready_at(now) {
                    if replies.len() == 0 {
                        Step::Perform(Action::Gathering)
                    } else if replies[0].succeeded() || replies[0].failed_with_status(STATUS_INVENTORY_FULL) {
                        Step::Next(Ok(GoInfinitGateringBehavior { current_state: GoGatheringState::Empty, ..*self }))
                    } else {
                        Step::Next(Ok(*self))
                    }
                } else {
                    Step::Next(Ok(*self))
                }
            },
        }
    }
}

} // verus!
