//! Gathering copper forever with a snapshot of a character.

use vstd::prelude::*;
use crate::characters::{Character, CharacterView};
use crate::effects::{Action, ActionView, Reply, ReplyView, Step, StepView, replies_view};
use crate::shared::Position;
use crate::time::Timestamp;

verus! {

#[derive(Clone, Copy, Debug, PartialEq, Eq, Structural)]
pub enum InfinitGateringCooperStates {
    Empty,
    GoingGathering,
    EndGathering,
}

/// The cell of the copper rocks.
pub open spec fn cooper_position() -> Position {
    Position { x: 2, y: 0 }
}

/// The endless copper gathering loop of one character, on a snapshot of it.
#[derive(Debug)]
pub struct InfinitGatheringCooper {
    pub current_state: InfinitGateringCooperStates,
    pub character_info: Character,
}

pub struct InfinitGatheringCooperView {
    pub current_state: InfinitGateringCooperStates,
    pub character_info: CharacterView,
}

impl View for InfinitGatheringCooper {
    type V = InfinitGatheringCooperView;

    open spec fn view(&self) -> InfinitGatheringCooperView {
        InfinitGatheringCooperView { current_state: self.current_state, character_info: self.character_info@ }
    }
}

impl Clone for InfinitGatheringCooper {
    fn clone(&self) -> (r: Self)
        ensures
            r@ == self@,
    {
        InfinitGatheringCooper { current_state: self.current_state, character_info: self.character_info.clone() }
    }
}

impl InfinitGatheringCooperView {
    pub open spec fn entering(self, current_state: InfinitGateringCooperStates) -> StepView<InfinitGatheringCooperView> {
        StepView::Next(Ok(InfinitGatheringCooperView { current_state, ..self }))
    }

    /// One step: `Empty` goes to the copper rocks (a failed move stays);
    /// `GoingGathering` gathers once the cooldown is over, then
    /// `EndGathering`, which gathers again. No step fails.
    pub open spec fn run(self, now: Timestamp, replies: Seq<ReplyView>) -> StepView<InfinitGatheringCooperView> {
        match self.current_state {
            InfinitGateringCooperStates::Empty => if self.character_info.position == cooper_position() {
                self.entering(InfinitGateringCooperStates::GoingGathering)
            } else if replies.len() == 0 {
                StepView::Perform(ActionView::Move(cooper_position()))
            } else if replies[0].succeeded() {
                self.entering(InfinitGateringCooperStates::GoingGathering)
            } else {
                self.entering(InfinitGateringCooperStates::Empty)
            },
            InfinitGateringCooperStates::GoingGathering => if self.character_info.ready_at(now) {
                if replies.len() == 0 {
                    StepView::Perform(ActionView::Gathering)
                } else if replies[0].succeeded() {
                    self.entering(InfinitGateringCooperStates::EndGathering)
                } else {
                    self.entering(InfinitGateringCooperStates::GoingGathering)
                }
            } else {
                self.entering(InfinitGateringCooperStates::GoingGathering)
            },
            InfinitGateringCooperStates::EndGathering => self.entering(InfinitGateringCooperStates::GoingGathering),
        }
    }
}

impl InfinitGatheringCooperView {
    /// A step asks for at most one action (with one reply it is over, and it
    /// reads no reply beyond the first), and never fails.
    pub proof fn lemma_one_action_and_no_failure(self, now: Timestamp, replies: Seq<ReplyView>)
        ensures
            replies.len() >= 1 ==> self.run(now, replies).is_next() && self.run(now, replies) == self.run(
                now,
                replies.take(1),
            ),
            !(self.run(now, replies) matches StepView::Next(Err(_))),
    {
    }
}

impl InfinitGatheringCooperView {
    /// The loop reaches the copper rocks only by standing there or after a
    /// successful move, ends a gathering only after a successful one, and
    /// after `EndGathering` gathers again; a failed action is asked for
    /// again from the same stage.
    pub proof fn lemma_gathers_again_and_again(self, now: Timestamp, replies: Seq<ReplyView>)
        ensures
            self.current_state == InfinitGateringCooperStates::Empty ==> ((self.run(now, replies) matches StepView::Next(
                Ok(b),
            ) && b.current_state == InfinitGateringCooperStates::GoingGathering) <==> (
            self.character_info.position == cooper_position() || (replies.len() >= 1 && replies[0].succeeded()))),
            self.current_state == InfinitGateringCooperStates::GoingGathering && self.character_info.ready_at(now)
                ==> ((self.run(now, replies) matches StepView::Next(Ok(b)) && b.current_state
                == InfinitGateringCooperStates::EndGathering) <==> (replies.len() >= 1 && replies[0].succeeded())),
            self.current_state == InfinitGateringCooperStates::EndGathering ==> self.run(now, replies)
                == StepView::Next(
                Ok(
                    (InfinitGatheringCooperView {
                        current_state: InfinitGateringCooperStates::GoingGathering,
                        ..self
                    }),
                ),
            ),
            self.run(now, replies) matches StepView::Next(Ok(b)) ==> b.character_info == self.character_info,
    {
    }
}

impl InfinitGatheringCooper {
    pub fn new(character_info: Character) -> (r: Self)
        ensures
            r@ == (InfinitGatheringCooperView {
                current_state: InfinitGateringCooperStates::Empty,
                character_info: character_info@,
            }),
    {
        InfinitGatheringCooper { current_state: InfinitGateringCooperStates::Empty, character_info }
    }

    fn entering(&self, current_state: InfinitGateringCooperStates) -> (r: Step<InfinitGatheringCooper>)
        ensures
            r@ == self@.entering(current_state),
    {
        Step::Next(Ok(InfinitGatheringCooper { current_state, character_info: self.character_info.clone() }))
    }

    pub fn run(&self, now: &Timestamp, replies: &[Reply]) -> (r: Step<InfinitGatheringCooper>)
        ensures
            r@ == self@.run(*now, replies_view(replies@)),
    {
        match self.current_state {
            InfinitGateringCooperStates::Empty => {
                let cooper_position = Position::new(2, 0);
                if self.character_info.position == cooper_position {
                    self.entering(InfinitGateringCooperStates::GoingGathering)
                } else if replies.len() == 0 {
                    Step::Perform(Action::Move(cooper_position))
                } else if replies[0].succeeded() {
                    self.entering(InfinitGateringCooperStates::GoingGathering)
                } else {
                    self.entering(InfinitGateringCooperStates::Empty)
                }
            },
            InfinitGateringCooperStates::GoingGathering => {
                if self.character_info.is_ready_at(now) {
                    if replies.len() == 0 {
                        Step::Perform(Action::Gathering)
                    } else if replies[0].succeeded() {
                        self.entering(InfinitGateringCooperStates::EndGathering)
                    } else {
                        self.entering(InfinitGateringCooperStates::GoingGathering)
                    }
                } else {
                    self.entering(InfinitGateringCooperStates::GoingGathering)
                }
            },
            InfinitGateringCooperStates::EndGathering => self.entering(InfinitGateringCooperStates::GoingGathering),
        }
    }
}

} // verus!
