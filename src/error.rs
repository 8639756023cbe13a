use vstd::prelude::*;

verus! {

/// Every way a governance request can be rejected. A rejected request leaves
/// the whole state untouched.
#[derive(Clone, Copy, Debug, PartialEq, Eq, Structural)]
pub enum GovError {
    InvalidName,
    DaoAlreadyExists,
    DaoNotFound,
    Unauthorized,
    InvalidMetadata,
    ProposalNotFound,
    ProposalClosed,
    ProposalAlreadyClosed,
    InvalidOption,
    DuplicateVote,
    InsufficientCredits,
    InvalidVoteMagnitude,
    /// A counter, tally or balance would leave the range of `u64`.
    ArithmeticOverflow,
}

} // verus!
