//! The error of the library.

use vstd::prelude::*;
use vstd::string::StringExecFns;

verus! {

/// The single kind of failure: a message that says what was expected and
/// what was found.
#[derive(Debug, PartialEq, Eq)]
pub struct SecelError(pub(crate) String);

impl View for SecelError {
    type V = Seq<char>;

    /// The message.
    closed spec fn view(&self) -> Seq<char> {
        self.0@
    }
}

impl SecelError {
    /// An error with the given message.
    pub fn new(message: &str) -> (error: SecelError)
        ensures
            error@ == message@,
    {
        SecelError(String::from_str(message))
    }

    /// The message, as the error prints.
    pub fn to_string(&self) -> (message: String)
        ensures
            message@ == self@,
    {
        self.0.clone()
    }
}

} // verus!
