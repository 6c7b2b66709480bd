//! Errors that the game services and the behaviors report.

use vstd::prelude::*;

verus! {

/// An error that the game API answered with a code.
#[derive(Debug)]
pub struct ErrorWithCode {
    pub code: String,
    pub title: String,
    pub description: Option<String>,
    pub status: Option<i32>,
}

#[derive(Debug)]
pub enum Error {
    Simple(String),
    WithCode(ErrorWithCode),
}

/// The mathematical content of an `ErrorWithCode`.
pub struct ErrorWithCodeView {
    pub code: Seq<char>,
    pub title: Seq<char>,
    pub description: Option<Seq<char>>,
    pub status: Option<i32>,
}

/// The mathematical content of an `Error`.
pub enum ErrorView {
    Simple(Seq<char>),
    WithCode(ErrorWithCodeView),
}

pub open spec fn option_string_view(o: Option<String>) -> Option<Seq<char>> {
    match o {
        Some(s) => Some(s@),
        None => None,
    }
}

impl View for ErrorWithCode {
    type V = ErrorWithCodeView;

    open spec fn view(&self) -> ErrorWithCodeView {
        ErrorWithCodeView {
            code: self.code@,
            title: self.title@,
            description: option_string_view(self.description),
            status: self.status,
        }
    }
}

impl View for Error {
    type V = ErrorView;

    open spec fn view(&self) -> ErrorView {
        match self {
            Error::Simple(title) => ErrorView::Simple(title@),
            Error::WithCode(e) => ErrorView::WithCode(e@),
        }
    }
}

impl ErrorView {
    /// The error carries the given HTTP status (a missing status counts as 0).
    pub open spec fn has_status(self, status: i32) -> bool {
        match self {
            ErrorView::WithCode(e) => e.status.unwrap_or(0) == status,
            ErrorView::Simple(_) => false,
        }
    }

    /// The text that `Error::to_string` gives.
    pub open spec fn message(self) -> Seq<char> {
        match self {
            ErrorView::Simple(title) => title,
            ErrorView::WithCode(e) => "(code: "@ + e.code + ", title: "@ + e.title
                + ", description: "@ + e.description.unwrap_or(""@) + ")"@,
        }
    }
}

/// The error of a transition that the state machine does not have.
pub open spec fn invalid_transition() -> ErrorView {
    ErrorView::Simple("invalid transition"@)
}

impl Clone for ErrorWithCode {
    fn clone(&self) -> (r: Self)
        ensures
            r@ == self@,
    {
        let description = match &self.description {
            Some(d) => Some(d.clone()),
            None => None,
        };
        ErrorWithCode {
            code: self.code.clone(),
            title: self.title.clone(),
            description,
            status: self.status,
        }
    }
}

impl Clone for Error {
    fn clone(&self) -> (r: Self)
        ensures
            r@ == self@,
    {
        match self {
            Error::Simple(title) => Error::Simple(title.clone()),
            Error::WithCode(e) => Error::WithCode(e.clone()),
        }
    }
}

impl Error {
    /// The error of a transition that the state machine does not have.
    pub fn invalid_transition() -> (e: Error)
        ensures
            e@ == invalid_transition(),
    {
        Error::Simple(String::from_str("invalid transition"))
    }

    /// Whether the error carries the given HTTP status (a missing status
    /// counts as 0).
    pub fn has_status(&self, status: i32) -> (r: bool)
        ensures
            r == self@.has_status(status),
    {
        match self {
            Error::WithCode(e) => match e.status {
                Some(s) => s == status,
                None => status == 0,
            },
            Error::Simple(_) => false,
        }
    }

    /// The text of the error: the title of a simple error, or its code,
    /// title and description.
    pub fn to_string(&self) -> (s: String)
        ensures
            s@ == self@.message(),
    {
        match self {
            Error::Simple(title) => title.clone(),
            Error::WithCode(e) => {
                let mut s = String::from_str("(code: ");
                s.append(e.code.as_str());
                s.append(", title: ");
                s.append(e.title.as_str());
                s.append(", description: ");
                match &e.description {
                    Some(d) => s.append(d.as_str()),
                    None => s.append(""),
                }
                s.append(")");
                s
            },
        }
    }
}

} // verus!
