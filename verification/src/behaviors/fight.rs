//! Fighting once.

use vstd::prelude::*;
use crate::characters::{Character, CharacterView};
use crate::effects::{Action, ActionView, Reply, ReplyView, Step, StepView, replies_view};
use crate::errors::{Error, invalid_transition};
use crate::time::Timestamp;

verus! {

#[derive(Clone, Copy, Debug, PartialEq, Eq, Structural)]
pub enum FightState {
    Empty,
    Finish,
}

/// Fights the monster of the character's cell, then finishes.
#[derive(Clone, Copy, Debug, PartialEq, Eq, Structural)]
pub struct FightBehavior {
    pub current_state: FightState,
}

impl View for FightBehavior {
    type V = FightBehavior;

    open spec fn view(&self) -> FightBehavior {
        *self
    }
}

impl FightBehavior {
    pub open spec fn initial() -> FightBehavior {
        FightBehavior { current_state: FightState::Empty }
    }

    pub open spec fn restarted(self) -> FightBehavior {
        FightBehavior { current_state: FightState::Empty, ..self }
    }

    /// One step: during a cooldown nothing changes; otherwise the character
    /// fights, and the behavior finishes when the fight succeeded. A failed
    /// fight is tried again at the next step.
    pub open spec fn step(self, player: CharacterView, now: Timestamp, replies: Seq<ReplyView>) -> StepView<FightBehavior> {
        if player.cooldown_at(now) >= 0 {
            StepView::Next(Ok(self))
        } else {
            match self.current_state {
                FightState::Empty => if replies.len() == 0 {
                    StepView::Perform(ActionView::Fight)
                } else if replies[0].succeeded() {
                    StepView::Next(Ok(FightBehavior { current_state: FightState::Finish }))
                } else {
                    StepView::Next(Ok(self))
                },
                FightState::Finish => StepView::Next(Err(invalid_transition())),
            }
        }
    }

    /// While the character is in cooldown, a step keeps the behavior as it
    /// is and asks for nothing.
    pub proof fn lemma_waits_during_cooldown(self, player: CharacterView, now: Timestamp, replies: Seq<ReplyView>)
        requires
            player.cooldown_at(now) >= 0,
        ensures
            self.step(player, now, replies) == StepView::Next(Ok(self)),
    {
    }

    /// A step asks for at most one action: with one reply it is over, and
    /// it reads no reply beyond the first.
    pub proof fn lemma_one_action_per_step(self, player: CharacterView, now: Timestamp, replies: Seq<ReplyView>)
        requires
            replies.len() >= 1,
        ensures
            self.step(player, now, replies).is_next(),
            self.step(player, now, replies) == self.step(player, now, replies.take(1)),
    {
    }

    /// Out of cooldown and not yet finished, the behavior asks for a fight,
    /// finishes exactly when the fight was answered with success, and stays
    /// as it was after a failed fight.
    pub proof fn lemma_finishes_only_after_fight(self, player: CharacterView, now: Timestamp, replies: Seq<ReplyView>)
        requires
            player.cooldown_at(now) < 0,
            self.current_state == FightState::Empty,
        ensures
            replies.len() == 0 ==> self.step(player, now, replies) == StepView::<FightBehavior>::Perform(
                ActionView::Fight,
            ),
            (self.step(player, now, replies) matches StepView::Next(Ok(f)) && f.current_state == FightState::Finish)
                <==> (replies.len() >= 1 && replies[0].succeeded()),
            replies.len() >= 1 && !replies[0].succeeded() ==> self.step(player, now, replies) == StepView::Next(
                Ok(self),
            ),
    {
    }

    /// A step never stops on an error, except when asked to go on after
    /// finishing.
    pub proof fn lemma_fails_only_when_finished(self, player: CharacterView, now: Timestamp, replies: Seq<ReplyView>)
        ensures
            self.step(player, now, replies) matches StepView::Next(Err(e)) ==> e == invalid_transition()
                && self.current_state == FightState::Finish,
    {
    }

    pub fn new() -> (r: Self)
        ensures
            r == Self::initial(),
    {
        FightBehavior { current_state: FightState::Empty }
    }

    pub fn reset(&self) -> (r: Self)
        ensures
            r == self.restarted(),
    {
        FightBehavior { current_state: FightState::Empty }
    }

    pub fn next_behavior(&self, player: &Character, now: &Timestamp, replies: &[Reply]) -> (r: Step<FightBehavior>)
        ensures
            r@ == self.step(player@, *now, replies_view(replies@)),
    {
        let cooldown_sec = player.cooldown_sec_at(now);
        if cooldown_sec >= 0 {
            return Step::Next(Ok(*self));
        }
        match self.current_state {
            FightState::Empty => {
                if replies.len() == 0 {
                    Step::Perform(Action::Fight)
                } else if replies[0].succeeded() {
                    Step::Next(Ok(FightBehavior { current_state: FightState::Finish }))
                } else {
                    Step::Next(Ok(*self))
                }
            },
            FightState::Finish => Step::Next(Err(Error::invalid_transition())),
        }
    }
}

} // verus!
