//! The one error type of the library: a description and, where something else
//! went wrong first, the text of that cause.
use crate::text::{append_chars, chars_of, string_of};
use vstd::prelude::*;

verus! {

pub type Result<T> = std::result::Result<T, Error>;

/// What an error says: its description and the text of its cause, if any.
pub struct ErrorView {
    pub description: Seq<char>,
    pub cause: Option<Seq<char>>,
}

#[derive(Debug)]
pub struct Error {
    description: String,
    cause: Option<String>,
}

impl View for Error {
    type V = ErrorView;

    closed spec fn view(&self) -> ErrorView {
        ErrorView {
            description: self.description@,
            cause: match self.cause {
                Some(c) => Some(c@),
                None => None,
            },
        }
    }
}

/// The text of an error: the description, followed by the cause where there is
/// one.
pub open spec fn error_text(e: ErrorView) -> Seq<char> {
    match e.cause {
        Some(c) => e.description + " caused by: "@ + c,
        None => e.description,
    }
}

impl Error {
    /// An error with a cause, given as the text of the error that came first.
    pub fn new(description: &str, cause: &str) -> (e: Self)
        ensures
            e@ == (ErrorView { description: description@, cause: Some(cause@) }),
    {
        Self {
            description: string_of(&chars_of(description)),
            cause: Some(string_of(&chars_of(cause))),
        }
    }

    /// An error without a cause.
    pub fn from_str(description: &str) -> (e: Self)
        ensures
            e@ == (ErrorView { description: description@, cause: None }),
    {
        Self { description: string_of(&chars_of(description)), cause: None }
    }

    /// The description of the error.
    pub fn description(&self) -> (s: &str)
        ensures
            s@ == self@.description,
    {
        self.description.as_str()
    }

    /// The text of the cause, if the error has one.
    pub fn cause(&self) -> (c: Option<&str>)
        ensures
            c is Some <==> self@.cause is Some,
            c matches Some(s) ==> s@ == self@.cause->Some_0,
    {
        match &self.cause {
            Some(c) => Some(c.as_str()),
            None => None,
        }
    }

    /// The text of the error.
    pub fn message(&self) -> (s: String)
        ensures
            s@ == error_text(self@),
    {
        let mut out = chars_of(self.description.as_str());
        match &self.cause {
            Some(c) => {
                append_chars(&mut out, &chars_of(" caused by: "));
                append_chars(&mut out, &chars_of(c.as_str()));
            },
            None => {},
        }
        string_of(&out)
    }
}

} // verus!
