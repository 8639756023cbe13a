use vstd::prelude::*;

use crate::error::GovError;

verus! {

/// Largest number of votes one voter may cast on one proposal; its square
/// still fits in a `u64`.
pub const MAX_VOTES_CAST: u64 = 4294967295;

/// The credits that casting `votes_cast` votes costs.
pub open spec fn quadratic_cost(votes_cast: nat) -> nat {
    votes_cast * votes_cast
}

/// A vote magnitude is positive and at most `MAX_VOTES_CAST`.
pub open spec fn valid_magnitude(votes_cast: u64) -> bool {
    0 < votes_cast && votes_cast <= MAX_VOTES_CAST
}

/// Cost in credits of casting `votes_cast` votes: `votes_cast²`.
pub fn cost_for(votes_cast: u64) -> (r: Result<u64, GovError>)
    ensures
        r is Ok <==> valid_magnitude(votes_cast),
        r is Ok ==> r->Ok_0 == quadratic_cost(votes_cast as nat),
        r is Err ==> r->Err_0 == GovError::InvalidVoteMagnitude,
{
    if votes_cast == 0 || votes_cast > MAX_VOTES_CAST {
        return Err(GovError::InvalidVoteMagnitude);
    }
    proof {
        assert(votes_cast * votes_cast <= MAX_VOTES_CAST * MAX_VOTES_CAST) by (nonlinear_arith)
            requires
                votes_cast <= MAX_VOTES_CAST,
        ;
    }
    Ok(votes_cast * votes_cast)
}

/// Accepts a cost that the balance covers.
pub fn validate_budget(balance: u64, cost: u64) -> (r: Result<(), GovError>)
    ensures
        r is Ok <==> cost <= balance,
        r is Err ==> r->Err_0 == GovError::InsufficientCredits,
{
    if cost > balance {
        Err(GovError::InsufficientCredits)
    } else {
        Ok(())
    }
}

} // verus!
