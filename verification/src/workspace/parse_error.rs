use vstd::prelude::*;

verus! {

/// An argument of a command that could not be parsed.
#[derive(Debug)]
pub struct ParseError {
    details: String,
}

impl ParseError {
    /// An error with the given text.
    pub fn new(details: String) -> (r: ParseError)
        ensures
            r.details() == details@,
    {
        ParseError { details }
    }

    /// The text of the error.
    pub closed spec fn details(&self) -> Seq<char> {
        self.details@
    }

    /// The text of the error.
    pub fn description(&self) -> (r: &str)
        ensures
            r@ == self.details(),
    {
        self.details.as_str()
    }
}

} // verus!
