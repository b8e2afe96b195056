//! The bridge's error taxonomy.
use vstd::prelude::*;
use vstd::string::StringExecFns;

verus! {

/// What can go wrong at the host/script boundary.
///
/// `Exception` carries the text of a script-thrown error; `Empty` marks a run
/// that produced no result yet threw nothing; the remaining variants name a
/// failed native step or a misused handle.
#[derive(Clone, Debug, PartialEq)]
pub enum Error {
    Exception(String),
    Empty,
    ScopePointerAllocationFailed,
    ContextAllocationFailed,
    UninitializedRuntime,
    InvalidContext,
}

impl Error {
    /// The error's text: the captured message for a script exception, the
    /// error's name otherwise.
    pub open spec fn spec_text(&self) -> Seq<char> {
        match self {
            Error::Exception(message) => message@,
            Error::Empty => "Empty"@,
            Error::ScopePointerAllocationFailed => "ScopePointerAllocationFailed"@,
            Error::ContextAllocationFailed => "ContextAllocationFailed"@,
            Error::UninitializedRuntime => "UninitializedRuntime"@,
            Error::InvalidContext => "InvalidContext"@,
        }
    }

    /// Writes the error as text.
    pub fn text(&self) -> (r: String)
        ensures
            r@ == self.spec_text(),
    {
        match self {
            Error::Exception(message) => message.clone(),
            Error::Empty => "Empty".to_owned(),
            Error::ScopePointerAllocationFailed => "ScopePointerAllocationFailed".to_owned(),
            Error::ContextAllocationFailed => "ContextAllocationFailed".to_owned(),
            Error::UninitializedRuntime => "UninitializedRuntime".to_owned(),
            Error::InvalidContext => "InvalidContext".to_owned(),
        }
    }
}

} // verus!
