use vstd::prelude::*;

verus! {

/// Every way an operation of the ballot can fail. A failing operation
/// leaves every record as it found it.
#[derive(Clone, Copy, Debug, PartialEq, Eq, Structural)]
pub enum ErrorCode {
    /// A record already occupies the address that would be created.
    AlreadyExists,
    /// A record that the operation reads does not exist.
    NotFound,
    /// Text over its bound, or an address that does not derive.
    InvalidInput,
    /// A checked sum or counter would leave its integer width.
    Overflow,
    /// The voter has already cast a ballot in this poll.
    AlreadyVoted,
    /// The ballot gives more positive votes than the poll allows.
    TooManyPlus,
    /// The ballot gives more negative votes than the poll allows.
    TooManyMinus,
    /// The ballot gives as many votes as there are candidates, or more.
    InvalidTotal,
    /// Negative votes were given with fewer than two positive ones.
    MinusRequiresTwoPlus,
    /// An allocation names a candidate whose record was not supplied.
    MissingCandidate,
}

} // verus!
