//! Gathering a resource once.

use vstd::prelude::*;
use crate::characters::{Character, CharacterView};
use crate::effects::{Action, ActionView, Reply, ReplyView, Step, StepView, replies_view};
use crate::errors::{Error, invalid_transition};
use crate::time::Timestamp;

verus! {

/// The HTTP status with which the game refuses an action because the
/// inventory is full.
pub const STATUS_INVENTORY_FULL: i32 = 497;

#[derive(Clone, Copy, Debug, PartialEq, Eq, Structural)]
pub enum GatheringState {
    Empty,
    Finish,
}

/// Gathers the resource of the character's cell, then finishes.
#[derive(Clone, Copy, Debug, PartialEq, Eq, Structural)]
pub struct GatheringBehavior {
    pub current_state: GatheringState,
}

impl View for GatheringBehavior {
    type V = GatheringBehavior;

    open spec fn view(&self) -> GatheringBehavior {
        *self
    }
}

impl GatheringBehavior {
    pub open spec fn initial() -> GatheringBehavior {
        GatheringBehavior { current_state: GatheringState::Empty }
    }

    pub open spec fn restarted(self) -> GatheringBehavior {
        GatheringBehavior { current_state: GatheringState::Empty, ..self }
    }

    /// One step: during a cooldown nothing changes; otherwise the character
    /// gathers, and the behavior finishes when that succeeded. A refusal
    /// because the inventory is full ends the step with that error; any
    /// other failure is tried again at the next step.
    pub open spec fn step(self, player: CharacterView, now: Timestamp, replies: Seq<ReplyView>) -> StepView<GatheringBehavior> {
        if player.cooldown_at(now) >= 0 {
            StepView::Next(Ok(self))
        } else {
            match self.current_state {
                GatheringState::Empty => if replies.len() == 0 {
                    StepView::Perform(ActionView::Gathering)
                } else if replies[0].succeeded() {
                    StepView::Next(Ok(GatheringBehavior { current_state: GatheringState::Finish }))
                } else if replies[0].failed_with_status(STATUS_INVENTORY_FULL) {
                    StepView::Next(Err(replies[0].error().unwrap()))
                } else {
                    StepView::Next(Ok(self))
                },
                GatheringState::Finish => StepView::Next(Err(invalid_transition())),
            }
        }
    }

    /// While the character is in cooldown, a step keeps the behavior as it
    /// is and asks for nothing.
    pub proof fn lemma_waits_during_cooldown(self, player: CharacterView, now: Timestamp, replies: Seq<ReplyView>)
        requires
            player.cooldown_at(now) >= 0,
        ensures
            self.step(player, now, replies) == StepView::Next(Ok(self)),
    {
    }

    /// A step asks for at most one action: with one reply it is over, and
    /// it reads no reply beyond the first.
    pub proof fn lemma_one_action_per_step(self, player: CharacterView, now: Timestamp, replies: Seq<ReplyView>)
        requires
            replies.len() >= 1,
        ensures
            self.step(player, now, replies).is_next(),
            self.step(player, now, replies) == self.step(player, now, replies.take(1)),
    {
    }

    /// Out of cooldown and not yet finished, the behavior asks to gather,
    /// finishes exactly when that was answered with success, stops with the
    /// game's error when the inventory is full, and stays as it was after
    /// any other failure.
    pub proof fn lemma_finishes_only_after_gathering(self, player: CharacterView, now: Timestamp, replies: Seq<ReplyView>)
        requires
            player.cooldown_at(now) < 0,
            self.current_state == GatheringState::Empty,
        ensures
            replies.len() == 0 ==> self.step(player, now, replies) == StepView::<GatheringBehavior>::Perform(
                ActionView::Gathering,
            ),
            (self.step(player, now, replies) matches StepView::Next(Ok(g)) && g.current_state
                == GatheringState::Finish) <==> (replies.len() >= 1 && replies[0].succeeded()),
            replies.len() >= 1 && replies[0].failed_with_status(STATUS_INVENTORY_FULL) ==> self.step(
                player,
                now,
                replies,
            ) == StepView::<GatheringBehavior>::Next(Err(replies[0].error().unwrap())),
            replies.len() >= 1 && !replies[0].succeeded() && !replies[0].failed_with_status(STATUS_INVENTORY_FULL)
                ==> self.step(player, now, replies) == StepView::Next(Ok(self)),
    {
    }

    /// A step stops on an error only when asked to go on after finishing, or
    /// with the game's own refusal for a full inventory.
    pub proof fn lemma_errors(self, player: CharacterView, now: Timestamp, replies: Seq<ReplyView>)
        ensures
            self.step(player, now, replies) matches StepView::Next(Err(e)) ==> (e == invalid_transition()
                && self.current_state == GatheringState::Finish) || (e.has_status(STATUS_INVENTORY_FULL)
                && replies.len() >= 1 && replies[0].error() == Some(e)),
    {
    }

    pub fn new() -> (r: Self)
        ensures
            r == Self::initial(),
    {
        GatheringBehavior { current_state: GatheringState::Empty }
    }

    pub fn reset(&self) -> (r: Self)
        ensures
            r == self.restarted(),
    {
        GatheringBehavior { current_state: GatheringState::Empty }
    }

    pub fn next_behavior(&self, player: &Character, now: &Timestamp, replies: &[Reply]) -> (r: Step<GatheringBehavior>)
        ensures
            r@ == self.step(player@, *now, replies_view(replies@)),
    {
        let cooldown_sec = player.cooldown_sec_at(now);
        if cooldown_sec >= 0 {
            return Step::Next(Ok(*self));
        }
        match self.current_state {
            GatheringState::Empty => {
                if replies.len() == 0 {
                    return Step::Perform(Action::Gathering);
                }
                let reply = &replies[0];
                if reply.succeeded() {
                    Step::Next(Ok(GatheringBehavior { current_state: GatheringState::Finish }))
                } else if reply.failed_with_status(STATUS_INVENTORY_FULL) {
                    match reply.error() {
                        Some(e) => Step::Next(Err(e)),
                        None => Step::Next(Ok(*self)),
                    }
                } else {
                    Step::Next(Ok(*self))
                }
            },
            GatheringState::Finish => Step::Next(Err(Error::invalid_transition())),
        }
    }
}

} // verus!
