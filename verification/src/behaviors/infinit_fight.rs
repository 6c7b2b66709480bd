//! Fighting chickens forever with a snapshot of a character, emptying the
//! inventory at the bank when it is full.

use vstd::prelude::*;
use crate::behaviors::deposit_bank::{bank_cell, bank_position};
use crate::characters::{Character, CharacterView, SlotView, lemma_first_stocked_is_stocked};
use crate::effects::{Action, ActionView, Reply, ReplyView, Step, StepView, replies_view};
use crate::shared::Position;
use crate::time::Timestamp;

verus! {

#[derive(Clone, Copy, Debug, PartialEq, Eq, Structural)]
pub enum InfinitFightStates {
    Empty,
    GoingFight,
    EndFight,
    FullInventory,
    GoingBank,
    Deposit,
}

/// The cell where the fights take place.
pub open spec fn fight_position() -> Position {
    Position { x: 0, y: 1 }
}

/// The endless fight loop of one character, on a snapshot of it.
#[derive(Debug)]
pub struct InfinitFight {
    pub current_state: InfinitFightStates,
    pub character_info: Character,
}

pub struct InfinitFightView {
    pub current_state: InfinitFightStates,
    pub character_info: CharacterView,
}

impl View for InfinitFight {
    type V = InfinitFightView;

    open spec fn view(&self) -> InfinitFightView {
        InfinitFightView { current_state: self.current_state, character_info: self.character_info@ }
    }
}

impl Clone for InfinitFight {
    fn clone(&self) -> (r: Self)
        ensures
            r@ == self@,
    {
        InfinitFight { current_state: self.current_state, character_info: self.character_info.clone() }
    }
}

impl InfinitFightView {
    pub open spec fn entering(self, current_state: InfinitFightStates) -> StepView<InfinitFightView> {
        StepView::Next(Ok(InfinitFightView { current_state, ..self }))
    }

    /// Moving to `target`, then entering `arrived`: at once when the
    /// character already stands there, after a successful move otherwise;
    /// a failed move stays.
    pub open spec fn move_then(
        self,
        target: Position,
        arrived: InfinitFightStates,
        replies: Seq<ReplyView>,
    ) -> StepView<InfinitFightView> {
        if self.character_info.position == target {
            self.entering(arrived)
        } else if replies.len() == 0 {
            StepView::Perform(ActionView::Move(target))
        } else if replies[0].succeeded() {
            self.entering(arrived)
        } else {
            self.entering(self.current_state)
        }
    }

    /// One step: `Empty` goes to the fight cell (or to `FullInventory` with
    /// a full inventory); `GoingFight` fights once the cooldown is over;
    /// `EndFight` fights again, or goes to `FullInventory`; then
    /// `GoingBank` goes to the bank and `Deposit` deposits one stack per
    /// step until the inventory is empty, then everything starts over.
    /// Failed actions are tried again at the next step; no step fails.
    pub open spec fn run(self, now: Timestamp, replies: Seq<ReplyView>) -> StepView<InfinitFightView> {
        match self.current_state {
            InfinitFightStates::Empty => if self.character_info.is_full_inventory() {
                self.entering(InfinitFightStates::FullInventory)
            } else {
                self.move_then(fight_position(), InfinitFightStates::GoingFight, replies)
            },
            InfinitFightStates::GoingFight => if self.character_info.ready_at(now) {
                if replies.len() == 0 {
                    StepView::Perform(ActionView::Fight)
                } else if replies[0].succeeded() {
                    self.entering(InfinitFightStates::EndFight)
                } else {
                    self.entering(InfinitFightStates::GoingFight)
                }
            } else {
                self.entering(InfinitFightStates::GoingFight)
            },
            InfinitFightStates::EndFight => if self.character_info.is_full_inventory() {
                self.entering(InfinitFightStates::FullInventory)
            } else {
                self.entering(InfinitFightStates::GoingFight)
            },
            InfinitFightStates::FullInventory => self.entering(InfinitFightStates::GoingBank),
            InfinitFightStates::GoingBank => self.move_then(bank_position(), InfinitFightStates::Deposit, replies),
            InfinitFightStates::Deposit => match self.character_info.first_item() {
                Some(slot) => if replies.len() == 0 {
                    StepView::Perform(ActionView::Deposit(slot.code, slot.quantity))
                } else {
                    self.entering(InfinitFightStates::Deposit)
                },
                None => self.entering(InfinitFightStates::Empty),
            },
        }
    }
}

impl InfinitFightView {
    /// A step asks for at most one action (with one reply it is over, and it
    /// reads no reply beyond the first), and never fails.
    pub proof fn lemma_one_action_and_no_failure(self, now: Timestamp, replies: Seq<ReplyView>)
        ensures
            replies.len() >= 1 ==> self.run(now, replies).is_next() && self.run(now, replies) == self.run(
                now,
                replies.take(1),
            ),
            !(self.run(now, replies) matches StepView::Next(Err(_))),
    {
    }

    /// A deposit takes a whole stack of the inventory, never an empty one,
    /// and only in the `Deposit` stage.
    pub proof fn lemma_deposits_whole_stacks(self, now: Timestamp, replies: Seq<ReplyView>)
        ensures
            self.run(now, replies) matches StepView::Perform(ActionView::Deposit(code, quantity))
                ==> self.current_state == InfinitFightStates::Deposit && quantity > 0
                && self.character_info.first_item() == Some(SlotView { code, quantity }),
    {
        lemma_first_stocked_is_stocked(self.character_info.inventory);
    }

    /// With a full inventory the loop stops fighting and heads for the bank:
    /// after a fight it enters `FullInventory`, and from any stage but
    /// `GoingFight` no step asks for a fight nor leads back to `GoingFight`,
    /// while the snapshot of the character is kept as it is.
    pub proof fn lemma_full_inventory_stops_fighting(self, now: Timestamp, replies: Seq<ReplyView>)
        requires
            self.character_info.is_full_inventory(),
        ensures
            self.current_state == InfinitFightStates::EndFight ==> self.run(now, replies) == StepView::Next(
                Ok(InfinitFightView { current_state: InfinitFightStates::FullInventory, ..self }),
            ),
            self.current_state != InfinitFightStates::GoingFight ==> self.run(now, replies) != StepView::<
                InfinitFightView,
            >::Perform(ActionView::Fight),
            self.current_state != InfinitFightStates::GoingFight ==> (self.run(now, replies) matches StepView::Next(
                Ok(next),
            ) ==> next.current_state != InfinitFightStates::GoingFight && next.character_info
                == self.character_info),
    {
    }
}

impl InfinitFight {
    pub fn new(character_info: Character) -> (r: Self)
        ensures
            r@ == (InfinitFightView { current_state: InfinitFightStates::Empty, character_info: character_info@ }),
    {
        InfinitFight { current_state: InfinitFightStates::Empty, character_info }
    }

    fn entering(&self, current_state: InfinitFightStates) -> (r: Step<InfinitFight>)
        ensures
            r@ == self@.entering(current_state),
    {
        Step::Next(Ok(InfinitFight { current_state, character_info: self.character_info.clone() }))
    }

    fn move_then(&self, target: Position, arrived: InfinitFightStates, replies: &[Reply]) -> (r: Step<InfinitFight>)
        ensures
            r@ == self@.move_then(target, arrived, replies_view(replies@)),
    {
        if self.character_info.position == target {
            self.entering(arrived)
        } else if replies.len() == 0 {
            Step::Perform(Action::Move(target))
        } else if replies[0].succeeded() {
            self.entering(arrived)
        } else {
            self.entering(self.current_state)
        }
    }

    pub fn run(&self, now: &Timestamp, replies: &[Reply]) -> (r: Step<InfinitFight>)
        ensures
            r@ == self@.run(*now, replies_view(replies@)),
    {
        match self.current_state {
            InfinitFightStates::Empty => {
                if self.character_info.is_full_inventory() {
                    self.entering(InfinitFightStates::FullInventory)
                } else {
                    self.move_then(Position::new(0, 1), InfinitFightStates::GoingFight, replies)
                }
            },
            InfinitFightStates::GoingFight => {
                if self.character_info.is_ready_at(now) {
                    if replies.len() == 0 {
                        Step::Perform(Action::Fight)
                    } else if replies[0].succeeded() {
                        self.entering(InfinitFightStates::EndFight)
                    } else {
                        self.entering(InfinitFightStates::GoingFight)
                    }
                } else {
                    self.entering(InfinitFightStates::GoingFight)
                }
            },
            InfinitFightStates::EndFight => {
                if self.character_info.is_full_inventory() {
                    self.entering(InfinitFightStates::FullInventory)
                } else {
                    self.entering(InfinitFightStates::GoingFight)
                }
            },
            InfinitFightStates::FullInventory => self.entering(InfinitFightStates::GoingBank),
            InfinitFightStates::GoingBank => self.move_then(bank_cell(), InfinitFightStates::Deposit, replies),
            InfinitFightStates::Deposit => {
                match self.character_info.get_first_item() {
                    Some(slot) => {
                        if replies.len() == 0 {
                            Step::Perform(Action::Deposit { code: slot.code, quantity: slot.quantity })
                        } else {
                            self.entering(InfinitFightStates::Deposit)
                        }
                    },
                    None => self.entering(InfinitFightStates::Empty),
                }
            },
        }
    }
}

} // verus!
