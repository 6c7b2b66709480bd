//! What a behavior asks of the game, and what the game answers.
//!
//! One step of a behavior is a function of its state, of the inputs of the
//! step and of the replies received so far in the step. It either finishes,
//! with the behavior's next state or an error, or asks for one more action.
//! The caller performs that action, appends the reply, and asks again: the
//! `k`-th action requested in a step is answered by `replies[k]`.

use vstd::prelude::*;
use crate::errors::{Error, ErrorView};
use crate::shared::Position;

verus! {

/// An action of a character in the game.
#[derive(Debug)]
pub enum Action {
    Move(Position),
    Fight,
    Gathering,
    Deposit { code: String, quantity: u32 },
    Withdraw { code: String, quantity: u32 },
    Craft { code: String, quantity: u32 },
    GetBankItems,
}

pub enum ActionView {
    Move(Position),
    Fight,
    Gathering,
    Deposit(Seq<char>, u32),
    Withdraw(Seq<char>, u32),
    Craft(Seq<char>, u32),
    GetBankItems,
}

impl View for Action {
    type V = ActionView;

    open spec fn view(&self) -> ActionView {
        match self {
            Action::Move(p) => ActionView::Move(*p),
            Action::Fight => ActionView::Fight,
            Action::Gathering => ActionView::Gathering,
            Action::Deposit { code, quantity } => ActionView::Deposit(code@, *quantity),
            Action::Withdraw { code, quantity } => ActionView::Withdraw(code@, *quantity),
            Action::Craft { code, quantity } => ActionView::Craft(code@, *quantity),
            Action::GetBankItems => ActionView::GetBankItems,
        }
    }
}

/// The game's answer to an action: whether it succeeded, and for
/// `GetBankItems` the items of the bank, as code and quantity.
#[derive(Debug)]
pub enum Reply {
    Completed(Result<(), Error>),
    BankItems(Result<Vec<(String, u32)>, Error>),
}

pub enum ReplyView {
    Completed(Result<(), ErrorView>),
    BankItems(Result<Seq<(Seq<char>, u32)>, ErrorView>),
}

pub open spec fn items_view(items: Seq<(String, u32)>) -> Seq<(Seq<char>, u32)> {
    items.map_values(|p: (String, u32)| (p.0@, p.1))
}

impl View for Reply {
    type V = ReplyView;

    open spec fn view(&self) -> ReplyView {
        match self {
            Reply::Completed(Ok(())) => ReplyView::Completed(Ok(())),
            Reply::Completed(Err(e)) => ReplyView::Completed(Err(e@)),
            Reply::BankItems(Ok(items)) => ReplyView::BankItems(Ok(items_view(items@))),
            Reply::BankItems(Err(e)) => ReplyView::BankItems(Err(e@)),
        }
    }
}

pub open spec fn replies_view(replies: Seq<Reply>) -> Seq<ReplyView> {
    replies.map_values(|r: Reply| r@)
}

impl ReplyView {
    pub open spec fn succeeded(self) -> bool {
        match self {
            ReplyView::Completed(r) => r is Ok,
            ReplyView::BankItems(r) => r is Ok,
        }
    }

    pub open spec fn error(self) -> Option<ErrorView> {
        match self {
            ReplyView::Completed(Err(e)) => Some(e),
            ReplyView::BankItems(Err(e)) => Some(e),
            _ => None,
        }
    }

    /// The error carries the given HTTP status.
    pub open spec fn failed_with_status(self, status: i32) -> bool {
        match self.error() {
            Some(e) => e.has_status(status),
            None => false,
        }
    }

    /// The items of the bank, where the reply lists them.
    pub open spec fn bank_items(self) -> Option<Seq<(Seq<char>, u32)>> {
        match self {
            ReplyView::BankItems(Ok(items)) => Some(items),
            _ => None,
        }
    }
}

impl Reply {
    pub fn succeeded(&self) -> (r: bool)
        ensures
            r == self@.succeeded(),
    {
        match self {
            Reply::Completed(r) => r.is_ok(),
            Reply::BankItems(r) => r.is_ok(),
        }
    }

    /// The error of a failed action.
    pub fn error(&self) -> (r: Option<Error>)
        ensures
            match r {
                Some(e) => self@.error() == Some(e@),
                None => self@.error() is None,
            },
    {
        match self {
            Reply::Completed(Err(e)) => Some(e.clone()),
            Reply::BankItems(Err(e)) => Some(e.clone()),
            _ => None,
        }
    }

    /// Whether the action failed with an error that carries the given HTTP
    /// status.
    pub fn failed_with_status(&self, status: i32) -> (r: bool)
        ensures
            r == self@.failed_with_status(status),
    {
        match self {
            Reply::Completed(Err(e)) => e.has_status(status),
            Reply::BankItems(Err(e)) => e.has_status(status),
            _ => false,
        }
    }
}

/// The outcome of asking a behavior for one step.
#[derive(Debug)]
pub enum Step<B> {
    /// The step is over: the behavior's next state, or the error it stopped on.
    Next(Result<B, Error>),
    /// The step needs the answer to this action first.
    Perform(Action),
}

pub enum StepView<V> {
    Next(Result<V, ErrorView>),
    Perform(ActionView),
}

impl<B: View> View for Step<B> {
    type V = StepView<B::V>;

    open spec fn view(&self) -> StepView<B::V> {
        match self {
            Step::Next(Ok(b)) => StepView::Next(Ok(b@)),
            Step::Next(Err(e)) => StepView::Next(Err(e@)),
            Step::Perform(a) => StepView::Perform(a@),
        }
    }
}

impl<V> StepView<V> {
    pub open spec fn is_next(self) -> bool {
        self is Next
    }

    /// The same step, with the next state passed through `f`; an action
    /// to perform or an error is kept.
    pub open spec fn map_next<W>(self, f: spec_fn(V) -> W) -> StepView<W> {
        match self {
            StepView::Next(Ok(v)) => StepView::Next(Ok(f(v))),
            StepView::Next(Err(e)) => StepView::Next(Err(e)),
            StepView::Perform(a) => StepView::Perform(a),
        }
    }
}

} // verus!
