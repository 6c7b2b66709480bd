//! Fighting at one place forever, going to the bank when the inventory is
//! full.

use vstd::prelude::*;
use crate::behaviors::deposit_bank::{DepositBankBehavior, DepositState};
use crate::behaviors::fight::{FightBehavior, FightState};
use crate::behaviors::gathering::STATUS_INVENTORY_FULL;
use crate::behaviors::moving::{MovingBehavior, MovingState};
use crate::characters::{Character, CharacterView};
use crate::effects::{Reply, ReplyView, Step, StepView, replies_view};
use crate::shared::Position;
use crate::time::Timestamp;

verus! {

#[derive(Clone, Copy, Debug, PartialEq, Eq, Structural)]
pub enum GoFightState {
    Empty,
    FullInventory,
    InFightZone,
}

/// Walks to a monster and fights it again and again; whenever the
/// inventory is full, empties it at the bank first.
#[derive(Clone, Copy, Debug, PartialEq, Eq, Structural)]
pub struct GoInfinitFight {
    pub current_state: GoFightState,
    pub fight_position: Position,
    pub fight_behavior: FightBehavior,
    pub deposit_bank: DepositBankBehavior,
    pub moving_behavior: MovingBehavior,
}

impl View for GoInfinitFight {
    type V = GoInfinitFight;

    open spec fn view(&self) -> GoInfinitFight {
        *self
    }
}

impl GoInfinitFight {
    pub open spec fn initial(
        fight_position: Position,
        fight_behavior: FightBehavior,
        deposit_bank: DepositBankBehavior,
        moving_behavior: MovingBehavior,
    ) -> GoInfinitFight {
        GoInfinitFight {
            current_state: GoFightState::Empty,
            fight_position,
            fight_behavior,
            deposit_bank,
            moving_behavior,
        }
    }

    /// The behavior is busy emptying the inventory.
    pub open spec fn in_workflow_deposit(self) -> bool {
        self.current_state == GoFightState::FullInventory
    }

    pub open spec fn with_state(self, current_state: GoFightState) -> GoInfinitFight {
        GoInfinitFight { current_state, ..self }
    }

    pub open spec fn after_deposit(self, d: DepositBankBehavior) -> GoInfinitFight {
        if d.current_state == DepositState::Finish {
            GoInfinitFight { current_state: GoFightState::Empty, deposit_bank: d.restarted(), ..self }
        } else {
            GoInfinitFight { deposit_bank: d, ..self }
        }
    }

    pub open spec fn after_walk(self, m: MovingBehavior) -> GoInfinitFight {
        if m.current_state == MovingState::Finish {
            GoInfinitFight {
                current_state: GoFightState::InFightZone,
                moving_behavior: self.moving_behavior.restarted(),
                ..self
            }
        } else {
            GoInfinitFight { moving_behavior: m, ..self }
        }
    }

    /// One step: during a cooldown nothing changes. A full inventory, seen
    /// outside the deposit workflow, enters it. In the workflow the deposit
    /// behavior makes a step, and once it finishes everything starts over.
    /// Otherwise the character walks to the monster, then the fight
    /// behavior makes a step: once it finishes everything starts over; when
    /// it stops on an error that says the inventory is full, the deposit
    /// workflow begins; other errors leave the behavior as it was.
    pub open spec fn step(self, character: CharacterView, now: Timestamp, replies: Seq<ReplyView>) -> StepView<GoInfinitFight> {
        if character.cooldown_at(now) >= 0 {
            StepView::Next(Ok(self))
        } else if character.is_full_inventory() && !self.in_workflow_deposit() {
            StepView::Next(Ok(self.with_state(GoFightState::FullInventory)))
        } else {
            match self.current_state {
                GoFightState::FullInventory => self.deposit_bank.step(character, now, replies).map_next(
                    |d: DepositBankBehavior| self.after_deposit(d),
                ),
                GoFightState::Empty => self.moving_behavior.step(
                    character,
                    self.fight_position,
                    now,
                    replies,
                ).map_next(|m: MovingBehavior| self.after_walk(m)),
                GoFightState::InFightZone => match self.fight_behavior.step(character, now, replies) {
                    StepView::Perform(a) => StepView::Perform(a),
                    StepView::Next(Ok(f)) => if f.current_state == FightState::Finish {
                        StepView::Next(Ok(GoInfinitFight {
                            current_state: GoFightState::Empty,
                            fight_behavior: self.fight_behavior.restarted(),
                            ..self
                        }))
                    } else {
                        StepView::Next(Ok(GoInfinitFight { fight_behavior: f, ..self }))
                    },
                    StepView::Next(Err(e)) => if e.has_status(STATUS_INVENTORY_FULL) {
                        StepView::Next(Ok(GoInfinitFight {
                            current_state: GoFightState::FullInventory,
                            fight_behavior: self.fight_behavior.restarted(),
                            ..self
                        }))
                    } else {
                        StepView::Next(Ok(self))
                    },
                },
            }
        }
    }

    /// While the character is in cooldown, a step keeps the behavior as it
    /// is and asks for nothing.
    pub proof fn lemma_waits_during_cooldown(self, character: CharacterView, now: Timestamp, replies: Seq<ReplyView>)
        requires
            character.cooldown_at(now) >= 0,
        ensures
            self.step(character, now, replies) == StepView::Next(Ok(self)),
    {
    }

    /// A step asks for at most one action: with one reply it is over, and
    /// it reads no reply beyond the first.
    pub proof fn lemma_one_action_per_step(self, character: CharacterView, now: Timestamp, replies: Seq<ReplyView>)
        requires
            replies.len() >= 1,
        ensures
            self.step(character, now, replies).is_next(),
            self.step(character, now, replies) == self.step(character, now, replies.take(1)),
    {
        self.deposit_bank.lemma_one_action_per_step(character, now, replies);
        self.moving_behavior.lemma_one_action_per_step(character, self.fight_position, now, replies);
        self.fight_behavior.lemma_one_action_per_step(character, now, replies);
    }

    /// A full inventory seen outside the deposit workflow enters it. In the
    /// workflow, the loop follows the deposit behavior it holds: once that
    /// reaches `Finish`, the loop starts over from `Empty` with the deposit
    /// behavior reset; before that it stays in `FullInventory`.
    pub proof fn lemma_back_to_fighting_after_deposit(
        self,
        character: CharacterView,
        now: Timestamp,
        replies: Seq<ReplyView>,
    )
        requires
            character.cooldown_at(now) < 0,
        ensures
            character.is_full_inventory() && self.current_state != GoFightState::FullInventory ==> self.step(
                character,
                now,
                replies,
            ) == StepView::Next(Ok((GoInfinitFight { current_state: GoFightState::FullInventory, ..self }))),
            self.current_state == GoFightState::FullInventory ==> (self.deposit_bank.step(
                character,
                now,
                replies,
            ) matches StepView::Next(Ok(d)) ==> (d.current_state == DepositState::Finish ==> self.step(
                character,
                now,
                replies,
            ) == StepView::Next(
                Ok(
                    (GoInfinitFight {
                        current_state: GoFightState::Empty,
                        deposit_bank: (DepositBankBehavior { current_state: DepositState::Empty, ..d }),
                        ..self
                    }),
                ),
            ))),
            self.current_state == GoFightState::FullInventory ==> (self.deposit_bank.step(
                character,
                now,
                replies,
            ) matches StepView::Next(Ok(d)) ==> (d.current_state != DepositState::Finish ==> self.step(
                character,
                now,
                replies,
            ) == StepView::Next(Ok((GoInfinitFight { deposit_bank: d, ..self }))))),
    {
    }

    /// In the fight zone with room in the inventory: a finished fight starts
    /// the round over from `Empty`, and a refusal because the inventory is
    /// full enters the deposit workflow, both with the fight behavior reset.
    pub proof fn lemma_fight_round(self, character: CharacterView, now: Timestamp, replies: Seq<ReplyView>)
        requires
            character.cooldown_at(now) < 0,
            !character.is_full_inventory(),
            self.current_state == GoFightState::InFightZone,
        ensures
            self.fight_behavior.step(character, now, replies) matches StepView::Next(Ok(f)) ==> (f.current_state
                == FightState::Finish ==> self.step(character, now, replies) == StepView::Next(
                Ok(
                    (GoInfinitFight {
                        current_state: GoFightState::Empty,
                        fight_behavior: (FightBehavior { current_state: FightState::Empty }),
                        ..self
                    }),
                ),
            )),
            self.fight_behavior.step(character, now, replies) matches StepView::Next(Err(e)) ==> (e.has_status(
                STATUS_INVENTORY_FULL,
            ) ==> self.step(character, now, replies) == StepView::Next(
                Ok(
                    (GoInfinitFight {
                        current_state: GoFightState::FullInventory,
                        fight_behavior: (FightBehavior { current_state: FightState::Empty }),
                        ..self
                    }),
                ),
            )),
    {
    }

    /// With a full inventory the character never fights: it only walks to
    /// the bank and deposits.
    pub proof fn lemma_no_fight_when_full(self, character: CharacterView, now: Timestamp, replies: Seq<ReplyView>)
        requires
            character.is_full_inventory(),
        ensures
            self.step(character, now, replies) matches StepView::Perform(a) ==> (a is Move || a is Deposit),
    {
        self.deposit_bank.lemma_deposits_whole_stacks(character, now, replies);
    }

    /// None of the behaviors it holds has finished, and the walk to the bank
    /// has not either: each is reset whenever it finishes.
    pub open spec fn well_formed(self) -> bool {
        &&& self.moving_behavior.current_state == MovingState::Empty
        &&& self.fight_behavior.current_state == FightState::Empty
        &&& self.deposit_bank.well_formed()
        &&& self.deposit_bank.current_state != DepositState::Finish
    }

    /// Built from fresh parts, the loop is well formed.
    pub proof fn lemma_fresh_is_well_formed(fight_position: Position)
        ensures
            Self::initial(
                fight_position,
                FightBehavior::initial(),
                DepositBankBehavior::initial(MovingBehavior::initial()),
                MovingBehavior::initial(),
            ).well_formed(),
    {
    }

    /// A well-formed fight loop stays well formed, and none of its steps
    /// ever stops on an error: it goes on forever.
    pub proof fn lemma_never_fails(self, character: CharacterView, now: Timestamp, replies: Seq<ReplyView>)
        requires
            self.well_formed(),
        ensures
            self.step(character, now, replies) matches StepView::Next(r) ==> r matches Ok(b) && b.well_formed(),
    {
        self.deposit_bank.lemma_steps_keep_well_formed(character, now, replies);
        self.moving_behavior.lemma_fails_only_when_finished(character, self.fight_position, now, replies);
    }

    pub fn new(
        fight_position: &Position,
        fight_behavior: FightBehavior,
        deposit_bank: DepositBankBehavior,
        moving_behavior: MovingBehavior,
    ) -> (r: Self)
        ensures
            r == Self::initial(*fight_position, fight_behavior, deposit_bank, moving_behavior),
    {
        GoInfinitFight {
            current_state: GoFightState::Empty,
            fight_position: *fight_position,
            fight_behavior,
            deposit_bank,
            moving_behavior,
        }
    }

    /// Whether the behavior is busy emptying the inventory.
    pub fn is_in_workflow_deposit(&self) -> (r: bool)
        ensures
            r == self.in_workflow_deposit(),
    {
        self.current_state == GoFightState::FullInventory
    }

    pub fn next_behavior(&self, character: &Character, now: &Timestamp, replies: &[Reply]) -> (r: Step<GoInfinitFight>)
        ensures
            r@ == self.step(character@, *now, replies_view(replies@)),
    {
        let cooldown = character.cooldown_sec_at(now);
        if cooldown >= 0 {
            return Step::Next(Ok(*self));
        }
        if character.is_full_inventory() && !self.is_in_workflow_deposit() {
            return Step::Next(Ok(GoInfinitFight { current_state: GoFightState::FullInventory, ..*self }));
        }
        match self.current_state {
            GoFightState::FullInventory => {
                match self.deposit_bank.next_behavior(character, now, replies) {
                    Step::Perform(a) => Step::Perform(a),
                    Step::Next(Err(e)) => Step::Next(Err(e)),
                    Step::Next(Ok(deposit_bank)) => {
                        if deposit_bank.current_state == DepositState::Finish {
                            Step::Next(Ok(GoInfinitFight {
                                current_state: GoFightState::Empty,
                                deposit_bank: deposit_bank.reset(),
                                ..*self
                            }))
                        } else {
                            Step::Next(Ok(GoInfinitFight { deposit_bank, ..*self }))
                        }
                    },
                }
            },
            GoFightState::Empty => {
                match self.moving_behavior.next_behavior(character, &self.fight_position, now, replies) {
                    Step::Perform(a) => Step::Perform(a),
                    Step::Next(Err(e)) => Step::Next(Err(e)),
                    Step::Next(Ok(moving)) => {
                        if moving.current_state == MovingState::Finish {
                            Step::Next(Ok(GoInfinitFight {
                                current_state: GoFightState::InFightZone,
                                moving_behavior: self.moving_behavior.reset(),
                                ..*self
                            }))
                        } else {
                            Step::Next(Ok(GoInfinitFight { moving_behavior: moving, ..*self }))
                        }
                    },
                }
            },
            GoFightState::InFightZone => {
                match self.fight_behavior.next_behavior(character, now, replies) {
                    Step::Perform(a) => Step::Perform(a),
                    Step::Next(Ok(new_fight_behavior)) => {
                        if new_fight_behavior.current_state == FightState::Finish {
                            Step::Next(Ok(GoInfinitFight {
                                current_state: GoFightState::Empty,
                                fight_behavior: self.fight_behavior.reset(),
                                ..*self
                            }))
                        } else {
                            Step::Next(Ok(GoInfinitFight { fight_behavior: new_fight_behavior, ..*self }))
                        }
                    },
                    Step::Next(Err(e)) => {
                        if e.has_status(STATUS_INVENTORY_FULL) {
                            Step::Next(Ok(GoInfinitFight {
                                current_state: GoFightState::FullInventory,
                                fight_behavior: self.fight_behavior.reset(),
                                ..*self
                            }))
                        } else {
                            Step::Next(Ok(*self))
                        }
                    },
                }
            },
        }
    }
}

} // verus!
