//! Gathering at one place forever, with the gathering behavior, going to the
//! bank when the inventory is full.

use vstd::prelude::*;
use crate::behaviors::deposit_bank::{DepositBankBehavior, DepositState};
use crate::behaviors::gathering::{GatheringBehavior, GatheringState, STATUS_INVENTORY_FULL};
use crate::behaviors::moving::{MovingBehavior, MovingState};
use crate::characters::{Character, CharacterView};
use crate::effects::{Reply, ReplyView, Step, StepView, replies_view};
use crate::shared::Position;
use crate::time::Timestamp;

verus! {

/// The stages of an endless gathering loop.
#[derive(Clone, Copy, Debug, PartialEq, Eq, Structural)]
pub enum InfinitGateringStates {
    Empty,
    GoingGathering,
    EndGathering,
    FullInventory,
    GoingBank,
    Deposit,
}

#[derive(Clone, Copy, Debug, PartialEq, Eq, Structural)]
pub enum GatheringLoopState {
    Empty,
    FullInventory,
    InGatheringZone,
}

/// Walks to a resource and gathers it again and again; whenever the
/// inventory is full, empties it at the bank first.
#[derive(Clone, Copy, Debug, PartialEq, Eq, Structural)]
pub struct InfinitGateringBehavior {
    pub current_state: GatheringLoopState,
    pub gathering_position: Position,
    pub gathering_behavior: GatheringBehavior,
    pub deposit_bank: DepositBankBehavior,
    pub moving_behavior: MovingBehavior,
}

impl View for InfinitGateringBehavior {
    type V = InfinitGateringBehavior;

    open spec fn view(&self) -> InfinitGateringBehavior {
        *self
    }
}

impl InfinitGateringBehavior {
    pub open spec fn initial(
        gathering_position: Position,
        gathering_behavior: GatheringBehavior,
        deposit_bank: DepositBankBehavior,
        moving_behavior: MovingBehavior,
    ) -> InfinitGateringBehavior {
        InfinitGateringBehavior {
            current_state: GatheringLoopState::Empty,
            gathering_position,
            gathering_behavior,
            deposit_bank,
            moving_behavior,
        }
    }

    pub open spec fn with_state(self, current_state: GatheringLoopState) -> InfinitGateringBehavior {
        InfinitGateringBehavior { current_state, ..self }
    }

    pub open spec fn after_deposit(self, d: DepositBankBehavior) -> InfinitGateringBehavior {
        if d.current_state == DepositState::Finish {
            InfinitGateringBehavior { current_state: GatheringLoopState::Empty, deposit_bank: d.restarted(), ..self }
        } else {
            InfinitGateringBehavior { deposit_bank: d, ..self }
        }
    }

    pub open spec fn after_walk(self, m: MovingBehavior) -> InfinitGateringBehavior {
        if m.current_state == MovingState::Finish {
            InfinitGateringBehavior {
                current_state: GatheringLoopState::InGatheringZone,
                moving_behavior: self.moving_behavior.restarted(),
                ..self
            }
        } else {
            InfinitGateringBehavior { moving_behavior: m, ..self }
        }
    }

    /// One step: during a cooldown nothing changes. A full inventory seen
    /// in `Empty` leads to `FullInventory`, where the deposit behavior makes
    /// a step until it finishes and everything starts over. From `Empty`
    /// the character walks to the resource; there the gathering behavior
    /// makes a step: once it finishes everything starts over; when it stops
    /// on an error that says the inventory is full, `FullInventory`; other
    /// errors leave the behavior as it was.
    pub open spec fn step(self, character: CharacterView, now: Timestamp, replies: Seq<ReplyView>) -> StepView<InfinitGateringBehavior> {
        if character.cooldown_at(now) >= 0 {
            StepView::Next(Ok(self))
        } else if character.is_full_inventory() && self.current_state == GatheringLoopState::Empty {
            StepView::Next(Ok(self.with_state(GatheringLoopState::FullInventory)))
        } else {
            match self.current_state {
                GatheringLoopState::FullInventory => self.deposit_bank.step(character, now, replies).map_next(
                    |d: DepositBankBehavior| self.after_deposit(d),
                ),
                GatheringLoopState::Empty => self.moving_behavior.step(
                    character,
                    self.gathering_position,
                    now,
                    replies,
                ).map_next(|m: MovingBehavior| self.after_walk(m)),
                GatheringLoopState::InGatheringZone => match self.gathering_behavior.step(character, now, replies) {
                    StepView::Perform(a) => StepView::Perform(a),
                    StepView::Next(Ok(g)) => if g.current_state == GatheringState::Finish {
                        StepView::Next(Ok(InfinitGateringBehavior {
                            current_state: GatheringLoopState::Empty,
                            gathering_behavior: self.gathering_behavior.restarted(),
                            ..self
                        }))
                    } else {
                        StepView::Next(Ok(InfinitGateringBehavior { gathering_behavior: g, ..self }))
                    },
                    StepView::Next(Err(e)) => if e.has_status(STATUS_INVENTORY_FULL) {
                        StepView::Next(Ok(InfinitGateringBehavior {
                            current_state: GatheringLoopState::FullInventory,
                            gathering_behavior: self.gathering_behavior.restarted(),
                            ..self
                        }))
                    } else {
                        StepView::Next(Ok(self))
                    },
                },
            }
        }
    }

    /// While the character is in cooldown, a step keeps the behavior as it
    /// is and asks for nothing.
    pub proof fn lemma_waits_during_cooldown(self, character: CharacterView, now: Timestamp, replies: Seq<ReplyView>)
        requires
            character.cooldown_at(now) >= 0,
        ensures
            self.step(character, now, replies) == StepView::Next(Ok(self)),
    {
    }

    /// A step asks for at most one action: with one reply it is over, and
    /// it reads no reply beyond the first.
    pub proof fn lemma_one_action_per_step(self, character: CharacterView, now: Timestamp, replies: Seq<ReplyView>)
        requires
            replies.len() >= 1,
        ensures
            self.step(character, now, replies).is_next(),
            self.step(character, now, replies) == self.step(character, now, replies.take(1)),
    {
        self.deposit_bank.lemma_one_action_per_step(character, now, replies);
        self.moving_behavior.lemma_one_action_per_step(character, self.gathering_position, now, replies);
        self.gathering_behavior.lemma_one_action_per_step(character, now, replies);
    }

    /// At the bank, the loop follows the deposit behavior it holds: an action
    /// that behavior asks for is asked for; once it reaches `Finish`, the
    /// loop goes back to `Empty` (to gather again) with the deposit behavior
    /// reset to its start; before that, the loop stays in `FullInventory`
    /// holding the deposit behavior's new state. Nothing else changes.
    pub proof fn lemma_back_to_gathering_after_deposit(
        self,
        character: CharacterView,
        now: Timestamp,
        replies: Seq<ReplyView>,
    )
        requires
            character.cooldown_at(now) < 0,
            self.current_state == GatheringLoopState::FullInventory,
        ensures
            self.deposit_bank.step(character, now, replies) matches StepView::Perform(a) ==> self.step(
                character,
                now,
                replies,
            ) == StepView::<InfinitGateringBehavior>::Perform(a),
            self.deposit_bank.step(character, now, replies) matches StepView::Next(Ok(d)) ==> (
            d.current_state == DepositState::Finish ==> self.step(character, now, replies) == StepView::Next(
                Ok(
                    (InfinitGateringBehavior {
                        current_state: GatheringLoopState::Empty,
                        deposit_bank: (DepositBankBehavior { current_state: DepositState::Empty, ..d }),
                        ..self
                    }),
                ),
            )),
            self.deposit_bank.step(character, now, replies) matches StepView::Next(Ok(d)) ==> (
            d.current_state != DepositState::Finish ==> self.step(character, now, replies) == StepView::Next(
                Ok((InfinitGateringBehavior { current_state: GatheringLoopState::FullInventory, deposit_bank: d, ..self })),
            )),
    {
    }

    /// Around the resource: a full inventory seen in `Empty` sends the loop
    /// to `FullInventory`; the walk reaching the resource leads to
    /// `InGatheringZone`; a finished gathering starts the round over from
    /// `Empty`, and a refusal because the inventory is full leads to
    /// `FullInventory`, both with the gathering behavior reset.
    pub proof fn lemma_gathering_round(self, character: CharacterView, now: Timestamp, replies: Seq<ReplyView>)
        requires
            character.cooldown_at(now) < 0,
        ensures
            self.current_state == GatheringLoopState::Empty && character.is_full_inventory() ==> self.step(
                character,
                now,
                replies,
            ) == StepView::Next(Ok((InfinitGateringBehavior { current_state: GatheringLoopState::FullInventory, ..self }))),
            self.current_state == GatheringLoopState::Empty && !character.is_full_inventory() ==> (
            self.moving_behavior.step(character, self.gathering_position, now, replies) matches StepView::Next(
                Ok(m),
            ) ==> (m.current_state == MovingState::Finish ==> (self.step(character, now, replies) matches StepView::Next(
                Ok(b),
            ) && b.current_state == GatheringLoopState::InGatheringZone))),
            self.current_state == GatheringLoopState::InGatheringZone ==> (self.gathering_behavior.step(
                character,
                now,
                replies,
            ) matches StepView::Next(Ok(g)) ==> (g.current_state == GatheringState::Finish ==> self.step(
                character,
                now,
                replies,
            ) == StepView::Next(
                Ok(
                    (InfinitGateringBehavior {
                        current_state: GatheringLoopState::Empty,
                        gathering_behavior: (GatheringBehavior { current_state: GatheringState::Empty }),
                        ..self
                    }),
                ),
            ))),
            self.current_state == GatheringLoopState::InGatheringZone ==> (self.gathering_behavior.step(
                character,
                now,
                replies,
            ) matches StepView::Next(Err(e)) ==> (e.has_status(STATUS_INVENTORY_FULL) ==> self.step(
                character,
                now,
                replies,
            ) == StepView::Next(
                Ok(
                    (InfinitGateringBehavior {
                        current_state: GatheringLoopState::FullInventory,
                        gathering_behavior: (GatheringBehavior { current_state: GatheringState::Empty }),
                        ..self
                    }),
                ),
            ))),
    {
    }

    /// None of the behaviors it holds has finished, and the walk to the bank
    /// has not either: each is reset whenever it finishes.
    pub open spec fn well_formed(self) -> bool {
        &&& self.moving_behavior.current_state == MovingState::Empty
        &&& self.gathering_behavior.current_state == GatheringState::Empty
        &&& self.deposit_bank.well_formed()
        &&& self.deposit_bank.current_state != DepositState::Finish
    }

    /// Built from fresh parts, the loop is well formed.
    pub proof fn lemma_fresh_is_well_formed(gathering_position: Position)
        ensures
            Self::initial(
                gathering_position,
                GatheringBehavior::initial(),
                DepositBankBehavior::initial(MovingBehavior::initial()),
                MovingBehavior::initial(),
            ).well_formed(),
    {
    }

    /// A well-formed gathering loop stays well formed, and none of its
    /// steps ever stops on an error: it goes on forever.
    pub proof fn lemma_never_fails(self, character: CharacterView, now: Timestamp, replies: Seq<ReplyView>)
        requires
            self.well_formed(),
        ensures
            self.step(character, now, replies) matches StepView::Next(r) ==> r matches Ok(b) && b.well_formed(),
    {
        self.deposit_bank.lemma_steps_keep_well_formed(character, now, replies);
        self.moving_behavior.lemma_fails_only_when_finished(character, self.gathering_position, now, replies);
    }

    pub fn new(
        gathering_position: &Position,
        gathering_behavior: GatheringBehavior,
        deposit_bank: DepositBankBehavior,
        moving_behavior: MovingBehavior,
    ) -> (r: Self)
        ensures
            r == Self::initial(*gathering_position, gathering_behavior, deposit_bank, moving_behavior),
    {
        InfinitGateringBehavior {
            current_state: GatheringLoopState::Empty,
            gathering_position: *gathering_position,
            gathering_behavior,
            deposit_bank,
            moving_behavior,
        }
    }

    pub fn next_behavior(&self, character: &Character, now: &Timestamp, replies: &[Reply]) -> (r: Step<InfinitGateringBehavior>)
        ensures
            r@ == self.step(character@, *now, replies_view(replies@)),
    {
        let cooldown = character.cooldown_sec_at(now);
        if cooldown >= 0 {
            return Step::Next(Ok(*self));
        }
        if character.is_full_inventory() && self.current_state == GatheringLoopState::Empty {
            return Step::Next(Ok(InfinitGateringBehavior { current_state: GatheringLoopState::FullInventory, ..*self }));
        }
        match self.current_state {
            GatheringLoopState::FullInventory => {
                match self.deposit_bank.next_behavior(character, now, replies) {
                    Step::Perform(a) => Step::Perform(a),
                    Step::Next(Err(e)) => Step::Next(Err(e)),
                    Step::Next(Ok(deposit_bank)) => {
                        if deposit_bank.current_state == DepositState::Finish {
                            Step::Next(Ok(InfinitGateringBehavior {
                                current_state: GatheringLoopState::Empty,
                                deposit_bank: deposit_bank.reset(),
                                ..*self
                            }))
                        } else {
                            Step::Next(Ok(InfinitGateringBehavior { deposit_bank, ..*self }))
                        }
                    },
                }
            },
            GatheringLoopState::Empty => {
                match self.moving_behavior.next_behavior(character, &self.gathering_position, now, replies) {
                    Step::Perform(a) => Step::Perform(a),
                    Step::Next(Err(e)) => Step::Next(Err(e)),
                    Step::Next(Ok(moving)) => {
                        if moving.current_state == MovingState::Finish {
                            Step::Next(Ok(InfinitGateringBehavior {
                                current_state: GatheringLoopState::InGatheringZone,
                                moving_behavior: self.moving_behavior.reset(),
                                ..*self
                            }))
                        } else {
                            Step::Next(Ok(InfinitGateringBehavior { moving_behavior: moving, ..*self }))
                        }
                    },
                }
            },
            GatheringLoopState::InGatheringZone => {
                match self.gathering_behavior.next_behavior(character, now, replies) {
                    Step::Perform(a) => Step::Perform(a),
                    Step::Next(Ok(new_gathering_behavior)) => {
                        if new_gathering_behavior.current_state == GatheringState::Finish {
                            Step::Next(Ok(InfinitGateringBehavior {
                                current_state: GatheringLoopState::Empty,
                                gathering_behavior: self.gathering_behavior.reset(),
                                ..*self
                            }))
                        } else {
                            Step::Next(Ok(InfinitGateringBehavior { gathering_behavior: new_gathering_behavior, ..*self }))
                        }
                    },
                    Step::Next(Err(e)) => {
                        if e.has_status(STATUS_INVENTORY_FULL) {
                            Step::Next(Ok(InfinitGateringBehavior {
                                current_state: GatheringLoopState::FullInventory,
                                gathering_behavior: self.gathering_behavior.reset(),
                                ..*self
                            }))
                        } else {
                            Step::Next(Ok(*self))
                        }
                    },
                }
            },
        }
    }
}

} // verus!
