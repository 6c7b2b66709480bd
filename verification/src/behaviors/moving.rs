//! Walking to a destination.

use vstd::prelude::*;
use crate::characters::{Character, CharacterView};
use crate::effects::{Action, ActionView, Reply, ReplyView, Step, StepView, replies_view};
use crate::errors::{Error, invalid_transition};
use crate::shared::Position;
use crate::time::Timestamp;

verus! {

#[derive(Clone, Copy, Debug, PartialEq, Eq, Structural)]
pub enum MovingState {
    Empty,
    Finish,
}

/// Moves the character to a destination, then finishes.
#[derive(Clone, Copy, Debug, PartialEq, Eq, Structural)]
pub struct MovingBehavior {
    pub current_state: MovingState,
}

impl View for MovingBehavior {
    type V = MovingBehavior;

    open spec fn view(&self) -> MovingBehavior {
        *self
    }
}

impl MovingBehavior {
    pub open spec fn initial() -> MovingBehavior {
        MovingBehavior { current_state: MovingState::Empty }
    }

    pub open spec fn restarted(self) -> MovingBehavior {
        MovingBehavior { current_state: MovingState::Empty, ..self }
    }

    /// One step: during a cooldown nothing changes; otherwise the character
    /// is moved unless it already stands at the destination, and the
    /// behavior finishes once it is there. A failed move is tried again at
    /// the next step.
    pub open spec fn step(
        self,
        player: CharacterView,
        destination: Position,
        now: Timestamp,
        replies: Seq<ReplyView>,
    ) -> StepView<MovingBehavior> {
        if player.cooldown_at(now) >= 0 {
            StepView::Next(Ok(self))
        } else {
            match self.current_state {
                MovingState::Empty => if destination != player.position {
                    if replies.len() == 0 {
                        StepView::Perform(ActionView::Move(destination))
                    } else if replies[0].succeeded() {
                        StepView::Next(Ok(MovingBehavior { current_state: MovingState::Finish }))
                    } else {
                        StepView::Next(Ok(self))
                    }
                } else {
                    StepView::Next(Ok(MovingBehavior { current_state: MovingState::Finish }))
                },
                MovingState::Finish => StepView::Next(Err(invalid_transition())),
            }
        }
    }

    /// While the character is in cooldown, a step keeps the behavior as it
    /// is and asks for nothing.
    pub proof fn lemma_waits_during_cooldown(
        self,
        player: CharacterView,
        destination: Position,
        now: Timestamp,
        replies: Seq<ReplyView>,
    )
        requires
            player.cooldown_at(now) >= 0,
        ensures
            self.step(player, destination, now, replies) == StepView::Next(Ok(self)),
    {
    }

    /// A step asks for at most one action: with one reply it is over, and
    /// it reads no reply beyond the first.
    pub proof fn lemma_one_action_per_step(
        self,
        player: CharacterView,
        destination: Position,
        now: Timestamp,
        replies: Seq<ReplyView>,
    )
        requires
            replies.len() >= 1,
        ensures
            self.step(player, destination, now, replies).is_next(),
            self.step(player, destination, now, replies) == self.step(player, destination, now, replies.take(1)),
    {
    }

    /// The only action a step asks for is a move to the destination, and
    /// only while the character stands elsewhere.
    pub proof fn lemma_moves_only_elsewhere(
        self,
        player: CharacterView,
        destination: Position,
        now: Timestamp,
        replies: Seq<ReplyView>,
    )
        ensures
            self.step(player, destination, now, replies) matches StepView::Perform(a) ==> a == ActionView::Move(
                destination,
            ) && destination != player.position,
    {
    }

    /// Out of cooldown and not yet finished, the behavior finishes exactly
    /// when the character already stands at the destination or a move there
    /// was answered with success; a failed move leaves it as it was.
    pub proof fn lemma_finishes_only_at_destination(
        self,
        player: CharacterView,
        destination: Position,
        now: Timestamp,
        replies: Seq<ReplyView>,
    )
        requires
            player.cooldown_at(now) < 0,
            self.current_state == MovingState::Empty,
        ensures
            (self.step(player, destination, now, replies) matches StepView::Next(Ok(m)) && m.current_state
                == MovingState::Finish) <==> (destination == player.position || (replies.len() >= 1
                && replies[0].succeeded())),
            destination != player.position && replies.len() >= 1 && !replies[0].succeeded() ==> self.step(
                player,
                destination,
                now,
                replies,
            ) == StepView::Next(Ok(self)),
    {
    }

    /// A step stops on an error only when asked to go on after finishing.
    pub proof fn lemma_fails_only_when_finished(
        self,
        player: CharacterView,
        destination: Position,
        now: Timestamp,
        replies: Seq<ReplyView>,
    )
        ensures
            self.step(player, destination, now, replies) matches StepView::Next(Err(e)) ==> e
                == invalid_transition() && self.current_state == MovingState::Finish,
    {
    }

    pub fn new() -> (r: Self)
        ensures
            r == Self::initial(),
    {
        MovingBehavior { current_state: MovingState::Empty }
    }

    pub fn reset(&self) -> (r: Self)
        ensures
            r == self.restarted(),
    {
        MovingBehavior { current_state: MovingState::Empty }
    }

    pub fn next_behavior(
        &self,
        player: &Character,
        destination: &Position,
        now: &Timestamp,
        replies: &[Reply],
    ) -> (r: Step<MovingBehavior>)
        ensures
            r@ == self.step(player@, *destination, *now, replies_view(replies@)),
    {
        let cooldown_sec = player.cooldown_sec_at(now);
        if cooldown_sec >= 0 {
            return Step::Next(Ok(*self));
        }
        match self.current_state {
            MovingState::Empty => {
                if *destination != player.position {
                    if replies.len() == 0 {
                        Step::Perform(Action::Move(*destination))
                    } else if replies[0].succeeded() {
                        Step::Next(Ok(MovingBehavior { current_state: MovingState::Finish }))
                    } else {
                        Step::Next(Ok(*self))
                    }
                } else {
                    Step::Next(Ok(MovingBehavior { current_state: MovingState::Finish }))
                }
            },
            MovingState::Finish => Step::Next(Err(Error::invalid_transition())),
        }
    }
}

} // verus!
