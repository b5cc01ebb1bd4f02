//! A plain error value carrying a human-readable message.

use vstd::prelude::*;
use vstd::string::StringExecFns;

verus! {

/// An error described only by its message text.
#[derive(Debug)]
pub struct Error {
    message: String,
}

impl View for Error {
    type V = Seq<char>;

    /// An error is its message.
    closed spec fn view(&self) -> Seq<char> {
        self.message@
    }
}

impl Error {
    /// Wraps a message in an `Error`.
    pub fn new(msg: String) -> (e: Error)
        ensures
            e@ == msg@,
    {
        Error { message: msg }
    }

    /// The message the error was built with.
    pub fn get_message(&self) -> (m: &String)
        ensures
            m@ == self@,
    {
        &self.message
    }

    /// The one-line rendering of the error, as it is shown to an operator.
    pub fn to_message(&self) -> (m: String)
        ensures
            m@ == "Error: "@ + self@,
    {
        let mut line = String::from_str("Error: ");
        line.append(self.message.as_str());
        line
    }
}

} // verus!
