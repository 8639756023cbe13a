//! Quadratic-voting governance: DAO registration, proposal lifecycle and
//! quadratic-cost vote casting with per-option tallies.
//!
//! Casting `n` votes costs `n²` credits from the voter's budget in the DAO;
//! the tally of the chosen option grows by `n`. Every operation either
//! succeeds whole or fails and leaves the state untouched.

pub mod credit;
pub mod error;
pub mod governance;
pub mod invariants;
pub mod laws;
pub mod model;

pub use credit::{cost_for, validate_budget, MAX_VOTES_CAST};
pub use error::GovError;
pub use governance::{cast_vote, close_proposal, grant_credits, init_dao, init_proposal, Governance};
pub use model::{
    Dao, Proposal, ProposalId, ProposalStatus, VoteRecord, VoterCredit, MAX_METADATA_LEN,
    MAX_NAME_LEN, OPTION_COUNT,
};
