//! The error that every operation of the ledger reports.

use vstd::prelude::*;

verus! {

/// An operation was refused: an arithmetic overflow or underflow, or a
/// state that would break one of the ledger's invariants. The text says which.
#[derive(Debug, Clone)]
pub struct InvariantError(pub String);

impl InvariantError {
    /// An error with exactly the given text.
    pub fn new(msg: &str) -> (res: Self)
        ensures
            res.0@ == msg@,
    {
        InvariantError(String::from_str(msg))
    }

    /// An error whose text is `Overflow: ` followed by `msg`.
    pub fn overflow(msg: &str) -> (res: Self)
        ensures
            res.0@ == "Overflow: "@ + msg@,
    {
        let mut s = String::from_str("Overflow: ");
        s.append(msg);
        InvariantError(s)
    }

    /// An error whose text is `Underflow: ` followed by `msg`.
    pub fn underflow(msg: &str) -> (res: Self)
        ensures
            res.0@ == "Underflow: "@ + msg@,
    {
        let mut s = String::from_str("Underflow: ");
        s.append(msg);
        InvariantError(s)
    }

    /// An error whose text is `Invariant violation: ` followed by `msg`.
    pub fn violation(msg: &str) -> (res: Self)
        ensures
            res.0@ == "Invariant violation: "@ + msg@,
    {
        let mut s = String::from_str("Invariant violation: ");
        s.append(msg);
        InvariantError(s)
    }

    /// The error as it is shown to a user: `Invariant Error: ` followed by its text.
    pub fn to_string(&self) -> (res: String)
        ensures
            res@ == "Invariant Error: "@ + self.0@,
    {
        let mut s = String::from_str("Invariant Error: ");
        s.append(self.0.as_str());
        s
    }
}

/// The result of an operation of the ledger.
pub type Result<T> = std::result::Result<T, InvariantError>;

} // verus!
