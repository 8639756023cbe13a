use vstd::prelude::*;

use crate::credit::{quadratic_cost, valid_magnitude};
use crate::error::GovError;

verus! {

/// Longest DAO name, in characters.
pub const MAX_NAME_LEN: usize = 32;

/// Longest proposal description, in characters.
pub const MAX_METADATA_LEN: usize = 200;

/// Number of vote options of every proposal: option `0` is against, option
/// `1` is in favour.
pub const OPTION_COUNT: u8 = 2;

/// Identifier of a proposal: the owning DAO and the proposal's sequence
/// number within it.
#[derive(Clone, Copy, Debug, PartialEq, Eq, Structural)]
pub struct ProposalId {
    pub dao_id: u64,
    pub seq: u64,
}

#[derive(Clone, Copy, Debug, PartialEq, Eq, Structural)]
pub enum ProposalStatus {
    Open,
    Closed,
}

/// A governing body. Its id is its position in the registry.
#[derive(Debug)]
pub struct Dao {
    pub id: u64,
    pub name: String,
    pub admin: u64,
    pub proposal_count: u64,
}

pub struct DaoView {
    pub id: u64,
    pub name: Seq<char>,
    pub admin: u64,
    pub proposal_count: u64,
}

impl View for Dao {
    type V = DaoView;

    open spec fn view(&self) -> DaoView {
        DaoView {
            id: self.id,
            name: self.name@,
            admin: self.admin,
            proposal_count: self.proposal_count,
        }
    }
}

/// A decision item; `tallies[o]` is the vote weight accumulated by option `o`.
#[derive(Debug)]
pub struct Proposal {
    pub id: ProposalId,
    pub metadata: String,
    pub status: ProposalStatus,
    pub tallies: Vec<u64>,
}

pub struct ProposalView {
    pub id: ProposalId,
    pub metadata: Seq<char>,
    pub status: ProposalStatus,
    pub tallies: Seq<u64>,
}

impl View for Proposal {
    type V = ProposalView;

    open spec fn view(&self) -> ProposalView {
        ProposalView {
            id: self.id,
            metadata: self.metadata@,
            status: self.status,
            tallies: self.tallies@,
        }
    }
}

/// The one vote of `voter_id` on `proposal_id`.
#[derive(Clone, Copy, Debug, PartialEq, Eq, Structural)]
pub struct VoteRecord {
    pub proposal_id: ProposalId,
    pub voter_id: u64,
    pub option: u8,
    pub votes_cast: u64,
    pub credits_spent: u64,
}

/// The voting budget of `voter_id` within the DAO `dao_id`.
#[derive(Clone, Copy, Debug, PartialEq, Eq, Structural)]
pub struct VoterCredit {
    pub dao_id: u64,
    pub voter_id: u64,
    pub balance: u64,
}

/// The whole governance state as mathematical values.
pub struct GovState {
    pub daos: Seq<DaoView>,
    pub proposals: Seq<ProposalView>,
    pub votes: Seq<VoteRecord>,
    pub credits: Seq<VoterCredit>,
    /// Total credits ever granted to each (DAO, voter) pair.
    pub granted: Map<(u64, u64), nat>,
    /// Whether only a DAO's admin may create its proposals.
    pub admin_only_proposals: bool,
}

pub open spec fn valid_name(name: Seq<char>) -> bool {
    0 < name.len() <= MAX_NAME_LEN
}

pub open spec fn valid_metadata(metadata: Seq<char>) -> bool {
    0 < metadata.len() <= MAX_METADATA_LEN
}

pub open spec fn zero_tallies() -> Seq<u64> {
    Seq::new(OPTION_COUNT as nat, |o: int| 0u64)
}

/// Credits spent by `voter` on proposals of DAO `dao`, over `votes`.
pub open spec fn spent_in(votes: Seq<VoteRecord>, dao: u64, voter: u64) -> nat
    decreases votes.len(),
{
    if votes.len() == 0 {
        0
    } else {
        let last = votes.last();
        spent_in(votes.drop_last(), dao, voter) + if last.proposal_id.dao_id == dao
            && last.voter_id == voter {
            last.credits_spent as nat
        } else {
            0
        }
    }
}

/// Vote weight recorded for option `option` of proposal `pid`, over `votes`.
pub open spec fn weight_in(votes: Seq<VoteRecord>, pid: ProposalId, option: u8) -> nat
    decreases votes.len(),
{
    if votes.len() == 0 {
        0
    } else {
        let last = votes.last();
        weight_in(votes.drop_last(), pid, option) + if last.proposal_id == pid && last.option
            == option {
            last.votes_cast as nat
        } else {
            0
        }
    }
}

impl GovState {
    pub open spec fn has_dao(self, id: u64) -> bool {
        id < self.daos.len()
    }

    pub open spec fn dao(self, id: u64) -> DaoView {
        self.daos[id as int]
    }

    pub open spec fn has_dao_named(self, name: Seq<char>, admin: u64) -> bool {
        exists|i: int| 0 <= i < self.daos.len() && #[trigger] self.daos[i].name == name
            && self.daos[i].admin == admin
    }

    pub open spec fn has_proposal(self, pid: ProposalId) -> bool {
        exists|i: int| 0 <= i < self.proposals.len() && #[trigger] self.proposals[i].id == pid
    }

    pub open spec fn proposal_index(self, pid: ProposalId) -> int {
        choose|i: int| 0 <= i < self.proposals.len() && #[trigger] self.proposals[i].id == pid
    }

    pub open spec fn proposal(self, pid: ProposalId) -> ProposalView {
        self.proposals[self.proposal_index(pid)]
    }

    pub open spec fn has_vote(self, pid: ProposalId, voter: u64) -> bool {
        exists|i: int|
            0 <= i < self.votes.len() && #[trigger] self.votes[i].proposal_id == pid
                && self.votes[i].voter_id == voter
    }

    pub open spec fn has_credit(self, dao: u64, voter: u64) -> bool {
        exists|i: int|
            0 <= i < self.credits.len() && #[trigger] self.credits[i].dao_id == dao
                && self.credits[i].voter_id == voter
    }

    pub open spec fn credit_index(self, dao: u64, voter: u64) -> int {
        choose|i: int|
            0 <= i < self.credits.len() && #[trigger] self.credits[i].dao_id == dao
                && self.credits[i].voter_id == voter
    }

    /// Current credit balance of `voter` in DAO `dao`; zero if never granted.
    pub open spec fn balance(self, dao: u64, voter: u64) -> nat {
        if self.has_credit(dao, voter) {
            self.credits[self.credit_index(dao, voter)].balance as nat
        } else {
            0
        }
    }

    pub open spec fn granted_to(self, dao: u64, voter: u64) -> nat {
        if self.granted.contains_key((dao, voter)) {
            self.granted[(dao, voter)]
        } else {
            0
        }
    }

    pub open spec fn wf_daos(self) -> bool {
        &&& self.daos.len() <= u64::MAX
        &&& forall|i: int|
            0 <= i < self.daos.len() ==> #[trigger] self.daos[i].id == i && valid_name(
                self.daos[i].name,
            )
        &&& forall|i: int, j: int|
            0 <= i < j < self.daos.len() ==> !(#[trigger] self.daos[i].name
                == #[trigger] self.daos[j].name && self.daos[i].admin == self.daos[j].admin)
    }

    pub open spec fn wf_proposals(self) -> bool {
        &&& forall|i: int|
            0 <= i < self.proposals.len() ==> {
                let p = #[trigger] self.proposals[i];
                &&& p.id.dao_id < self.daos.len()
                &&& p.id.seq < self.daos[p.id.dao_id as int].proposal_count
                &&& p.tallies.len() == OPTION_COUNT
                &&& valid_metadata(p.metadata)
            }
        &&& forall|i: int, j: int|
            0 <= i < j < self.proposals.len() ==> #[trigger] self.proposals[i].id
                != #[trigger] self.proposals[j].id
    }

    pub open spec fn wf_votes(self) -> bool {
        &&& forall|i: int|
            0 <= i < self.votes.len() ==> {
                let v = #[trigger] self.votes[i];
                &&& self.has_proposal(v.proposal_id)
                &&& self.has_credit(v.proposal_id.dao_id, v.voter_id)
                &&& v.option < OPTION_COUNT
                &&& valid_magnitude(v.votes_cast)
                &&& v.credits_spent == quadratic_cost(v.votes_cast as nat)
            }
        &&& forall|i: int, j: int|
            0 <= i < j < self.votes.len() ==> !(#[trigger] self.votes[i].proposal_id
                == #[trigger] self.votes[j].proposal_id && self.votes[i].voter_id
                == self.votes[j].voter_id)
    }

    pub open spec fn wf_credits(self) -> bool {
        &&& forall|i: int, j: int|
            0 <= i < j < self.credits.len() ==> !(#[trigger] self.credits[i].dao_id
                == #[trigger] self.credits[j].dao_id && self.credits[i].voter_id
                == self.credits[j].voter_id)
        &&& forall|i: int|
            0 <= i < self.credits.len() ==> {
                let c = #[trigger] self.credits[i];
                c.balance + spent_in(self.votes, c.dao_id, c.voter_id) == self.granted_to(
                    c.dao_id,
                    c.voter_id,
                )
            }
        &&& forall|k: (u64, u64)|
            #[trigger] self.granted.contains_key(k) ==> self.has_credit(k.0, k.1)
    }

    /// Each tally is the weight of the vote records behind it.
    pub open spec fn wf_tallies(self) -> bool {
        forall|i: int, o: u8|
            0 <= i < self.proposals.len() && o < OPTION_COUNT ==> #[trigger] self.proposals[i].tallies[o as int]
                == weight_in(self.votes, self.proposals[i].id, o)
    }

    /// The invariant of every reachable state.
    pub open spec fn wf(self) -> bool {
        &&& self.wf_daos()
        &&& self.wf_proposals()
        &&& self.wf_votes()
        &&& self.wf_credits()
        &&& self.wf_tallies()
    }
}

/// Outcome of registering a DAO named `name` by `caller`.
pub open spec fn init_dao_next(s: GovState, caller: u64, name: Seq<char>) -> (Result<
    u64,
    GovError,
>, GovState) {
    if !valid_name(name) {
        (Err(GovError::InvalidName), s)
    } else if s.has_dao_named(name, caller) {
        (Err(GovError::DaoAlreadyExists), s)
    } else {
        let id = s.daos.len() as u64;
        let dao = DaoView { id, name, admin: caller, proposal_count: 0 };
        (Ok(id), GovState { daos: s.daos.push(dao), ..s })
    }
}

/// Outcome of looking up the DAO `id`.
pub open spec fn get_dao_spec(s: GovState, id: u64) -> Result<DaoView, GovError> {
    if s.has_dao(id) {
        Ok(s.dao(id))
    } else {
        Err(GovError::DaoNotFound)
    }
}

/// Outcome of creating a proposal described by `metadata` under DAO `dao_id`.
pub open spec fn init_proposal_next(s: GovState, caller: u64, dao_id: u64, metadata: Seq<char>) -> (
    Result<ProposalId, GovError>,
    GovState,
) {
    if !s.has_dao(dao_id) {
        (Err(GovError::DaoNotFound), s)
    } else if s.admin_only_proposals && caller != s.dao(dao_id).admin {
        (Err(GovError::Unauthorized), s)
    } else if !valid_metadata(metadata) {
        (Err(GovError::InvalidMetadata), s)
    } else if s.dao(dao_id).proposal_count == u64::MAX {
        (Err(GovError::ArithmeticOverflow), s)
    } else {
        let d = s.dao(dao_id);
        let pid = ProposalId { dao_id, seq: d.proposal_count };
        let d2 = DaoView {
            id: d.id,
            name: d.name,
            admin: d.admin,
            proposal_count: (d.proposal_count + 1) as u64,
        };
        let p = ProposalView {
            id: pid,
            metadata,
            status: ProposalStatus::Open,
            tallies: zero_tallies(),
        };
        (
            Ok(pid),
            GovState {
                daos: s.daos.update(dao_id as int, d2),
                proposals: s.proposals.push(p),
                ..s
            },
        )
    }
}

/// Outcome of looking up the proposal `pid`.
pub open spec fn get_proposal_spec(s: GovState, pid: ProposalId) -> Result<ProposalView, GovError> {
    if s.has_proposal(pid) {
        Ok(s.proposal(pid))
    } else {
        Err(GovError::ProposalNotFound)
    }
}

/// Outcome of closing the proposal `pid` at the request of `caller`.
pub open spec fn close_proposal_next(s: GovState, caller: u64, pid: ProposalId) -> (Result<
    (),
    GovError,
>, GovState) {
    if !s.has_proposal(pid) {
        (Err(GovError::ProposalNotFound), s)
    } else if caller != s.dao(pid.dao_id).admin {
        (Err(GovError::Unauthorized), s)
    } else if s.proposal(pid).status == ProposalStatus::Closed {
        (Err(GovError::ProposalAlreadyClosed), s)
    } else {
        let p = s.proposal(pid);
        let p2 = ProposalView {
            id: p.id,
            metadata: p.metadata,
            status: ProposalStatus::Closed,
            tallies: p.tallies,
        };
        (Ok(()), GovState { proposals: s.proposals.update(s.proposal_index(pid), p2), ..s })
    }
}

/// Outcome of the admin `caller` of DAO `dao_id` granting `amount` credits to
/// `voter`.
pub open spec fn grant_credits_next(
    s: GovState,
    caller: u64,
    dao_id: u64,
    voter: u64,
    amount: u64,
) -> (Result<(), GovError>, GovState) {
    if !s.has_dao(dao_id) {
        (Err(GovError::DaoNotFound), s)
    } else if caller != s.dao(dao_id).admin {
        (Err(GovError::Unauthorized), s)
    } else if s.balance(dao_id, voter) + amount > u64::MAX {
        (Err(GovError::ArithmeticOverflow), s)
    } else {
        let entry = VoterCredit {
            dao_id,
            voter_id: voter,
            balance: (s.balance(dao_id, voter) + amount) as u64,
        };
        let credits = if s.has_credit(dao_id, voter) {
            s.credits.update(s.credit_index(dao_id, voter), entry)
        } else {
            s.credits.push(entry)
        };
        let granted = s.granted.insert((dao_id, voter), (s.granted_to(dao_id, voter) + amount) as nat);
        (Ok(()), GovState { credits, granted, ..s })
    }
}

/// The rejection, if any, of `caller` casting `votes_cast` votes on option
/// `option` of proposal `pid`, checked in this order.
pub open spec fn cast_vote_error(
    s: GovState,
    caller: u64,
    pid: ProposalId,
    option: u8,
    votes_cast: u64,
) -> Option<GovError> {
    if !s.has_proposal(pid) {
        Some(GovError::ProposalNotFound)
    } else if s.proposal(pid).status == ProposalStatus::Closed {
        Some(GovError::ProposalClosed)
    } else if option >= OPTION_COUNT {
        Some(GovError::InvalidOption)
    } else if s.has_vote(pid, caller) {
        Some(GovError::DuplicateVote)
    } else if !valid_magnitude(votes_cast) {
        Some(GovError::InvalidVoteMagnitude)
    } else if s.balance(pid.dao_id, caller) < quadratic_cost(votes_cast as nat) {
        Some(GovError::InsufficientCredits)
    } else if s.proposal(pid).tallies[option as int] + votes_cast > u64::MAX {
        Some(GovError::ArithmeticOverflow)
    } else {
        None
    }
}

/// Outcome of `caller` casting `votes_cast` votes on option `option` of
/// proposal `pid`: on success the voter pays `votes_cast²` credits, the vote
/// is recorded and the option's tally grows by `votes_cast`.
pub open spec fn cast_vote_next(
    s: GovState,
    caller: u64,
    pid: ProposalId,
    option: u8,
    votes_cast: u64,
) -> (Result<(), GovError>, GovState) {
    match cast_vote_error(s, caller, pid, option, votes_cast) {
        Some(e) => (Err(e), s),
        None => {
            let cost = quadratic_cost(votes_cast as nat) as u64;
            let p = s.proposal(pid);
            let p2 = ProposalView {
                id: p.id,
                metadata: p.metadata,
                status: p.status,
                tallies: p.tallies.update(
                    option as int,
                    (p.tallies[option as int] + votes_cast) as u64,
                ),
            };
            let ci = s.credit_index(pid.dao_id, caller);
            let c = s.credits[ci];
            let c2 = VoterCredit {
                dao_id: c.dao_id,
                voter_id: c.voter_id,
                balance: (c.balance - cost) as u64,
            };
            let record = VoteRecord {
                proposal_id: pid,
                voter_id: caller,
                option,
                votes_cast,
                credits_spent: cost,
            };
            (
                Ok(()),
                GovState {
                    proposals: s.proposals.update(s.proposal_index(pid), p2),
                    votes: s.votes.push(record),
                    credits: s.credits.update(ci, c2),
                    ..s
                },
            )
        },
    }
}

} // verus!
