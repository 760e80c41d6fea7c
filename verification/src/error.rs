//! The error type shared by the players and the controller.

use vstd::prelude::*;

verus! {

/// An error with a human-readable message.
#[derive(Debug)]
pub struct Error {
    pub message: String,
}

impl Error {
    /// Creates an error carrying the given message.
    pub fn new(message: &str) -> (e: Error)
        ensures
            e.message@ == message@,
    {
        Error { message: message.to_string() }
    }

    /// Returns the message, for hosts that want to display the error.
    pub fn message(&self) -> (m: &str)
        ensures
            m@ == self.message@,
    {
        self.message.as_str()
    }
}

impl PartialEq for Error {
    fn eq(&self, other: &Error) -> (r: bool)
    {
        self.message == other.message
    }
}

impl vstd::std_specs::cmp::PartialEqSpecImpl for Error {
    open spec fn obeys_eq_spec() -> bool {
        true
    }

    open spec fn eq_spec(&self, other: &Error) -> bool {
        self.message@ == other.message@
    }
}

} // verus!
