use vstd::prelude::*;

use crate::credit::{cost_for, validate_budget};
use crate::error::GovError;
use crate::invariants::{
    lemma_cast_vote_wf, lemma_close_proposal_wf, lemma_credit_index_unique,
    lemma_grant_credits_wf, lemma_init_dao_wf, lemma_init_proposal_wf,
    lemma_proposal_index_unique,
};
use crate::model::{
    cast_vote_error, cast_vote_next, close_proposal_next, get_dao_spec, get_proposal_spec,
    grant_credits_next, init_dao_next, init_proposal_next, zero_tallies, Dao, DaoView, GovState,
    Proposal, ProposalId, ProposalStatus, ProposalView, VoteRecord, VoterCredit,
    MAX_METADATA_LEN, MAX_NAME_LEN, OPTION_COUNT,
};

verus! {

/// The registry of DAOs, proposals, vote records and credit balances. All
/// mutation goes through the operations of this module; each takes the
/// registry by `&mut`, so it runs alone and either completes or leaves the
/// state exactly as it was.
pub struct Governance {
    daos: Vec<Dao>,
    proposals: Vec<Proposal>,
    votes: Vec<VoteRecord>,
    credits: Vec<VoterCredit>,
    granted: Ghost<Map<(u64, u64), nat>>,
    admin_only_proposals: bool,
}

impl View for Governance {
    type V = GovState;

    closed spec fn view(&self) -> GovState {
        GovState {
            daos: self.daos@.map_values(|d: Dao| d@),
            proposals: self.proposals@.map_values(|p: Proposal| p@),
            votes: self.votes@,
            credits: self.credits@,
            granted: self.granted@,
            admin_only_proposals: self.admin_only_proposals,
        }
    }
}

impl Governance {
    pub open spec fn wf(&self) -> bool {
        self@.wf()
    }

    /// An empty registry. With `admin_only_proposals`, only a DAO's admin may
    /// create proposals under it.
    pub fn new(admin_only_proposals: bool) -> (r: Governance)
        ensures
            r.wf(),
            r@ == (GovState {
                daos: Seq::empty(),
                proposals: Seq::empty(),
                votes: Seq::empty(),
                credits: Seq::empty(),
                granted: Map::empty(),
                admin_only_proposals,
            }),
    {
        let r = Governance {
            daos: Vec::new(),
            proposals: Vec::new(),
            votes: Vec::new(),
            credits: Vec::new(),
            granted: Ghost(Map::empty()),
            admin_only_proposals,
        };
        assert(r@.daos =~= Seq::empty());
        assert(r@.proposals =~= Seq::empty());
        r
    }

    /// Whether proposal creation is restricted to a DAO's admin.
    pub fn admin_only_proposals(&self) -> (r: bool)
        ensures
            r == self@.admin_only_proposals,
    {
        self.admin_only_proposals
    }

    /// Number of registered DAOs.
    pub fn dao_count(&self) -> (r: usize)
        ensures
            r == self@.daos.len(),
    {
        self.daos.len()
    }

    /// The DAO with id `id`.
    pub fn get_dao(&self, id: u64) -> (r: Result<&Dao, GovError>)
        ensures
            match r {
                Ok(d) => get_dao_spec(self@, id) == Ok::<DaoView, GovError>(d@),
                Err(e) => get_dao_spec(self@, id) == Err::<DaoView, GovError>(e),
            },
    {
        if (id as u128) < (self.daos.len() as u128) {
            Ok(&self.daos[id as usize])
        } else {
            Err(GovError::DaoNotFound)
        }
    }

    /// The proposal with id `pid`.
    pub fn get_proposal(&self, pid: ProposalId) -> (r: Result<&Proposal, GovError>)
        requires
            self.wf(),
        ensures
            match r {
                Ok(p) => get_proposal_spec(self@, pid) == Ok::<ProposalView, GovError>(p@),
                Err(e) => get_proposal_spec(self@, pid) == Err::<ProposalView, GovError>(e),
            },
    {
        match self.find_proposal(pid) {
            Some(i) => Ok(&self.proposals[i]),
            None => Err(GovError::ProposalNotFound),
        }
    }

    /// Running tally of the proposal `pid`: entry `o` is the vote weight of
    /// option `o`. Available while the proposal is open and after it closed.
    pub fn read_tally(&self, pid: ProposalId) -> (r: Result<&Vec<u64>, GovError>)
        requires
            self.wf(),
        ensures
            match r {
                Ok(t) => self@.has_proposal(pid) && t@ == self@.proposal(pid).tallies,
                Err(e) => !self@.has_proposal(pid) && e == GovError::ProposalNotFound,
            },
    {
        match self.find_proposal(pid) {
            Some(i) => Ok(&self.proposals[i].tallies),
            None => Err(GovError::ProposalNotFound),
        }
    }

    /// Position of the proposal `pid` in storage.
    fn find_proposal(&self, pid: ProposalId) -> (r: Option<usize>)
        requires
            self.wf(),
        ensures
            match r {
                Some(i) => i < self.proposals@.len() && i == self@.proposal_index(pid)
                    && self@.has_proposal(pid),
                None => !self@.has_proposal(pid),
            },
    {
        let mut i: usize = 0;
        while i < self.proposals.len()
            invariant
                self.wf(),
                i <= self.proposals@.len(),
                self@.proposals.len() == self.proposals@.len(),
                forall|j: int| 0 <= j < i ==> #[trigger] self@.proposals[j].id != pid,
            decreases self.proposals.len() - i,
        {
            if self.proposals[i].id == pid {
                proof {
                    lemma_proposal_index_unique(self@, pid, i as int);
                }
                return Some(i);
            }
            i = i + 1;
        }
        None
    }

    /// Credit balance of `voter` in DAO `dao_id`; zero if none was granted.
    pub fn balance_of(&self, dao_id: u64, voter: u64) -> (r: u64)
        requires
            self.wf(),
        ensures
            r == self@.balance(dao_id, voter),
    {
        match self.find_credit(dao_id, voter) {
            Some(i) => self.credits[i].balance,
            None => 0,
        }
    }

    /// The vote of `voter` on proposal `pid`, if any.
    pub fn get_vote(&self, pid: ProposalId, voter: u64) -> (r: Option<VoteRecord>)
        requires
            self.wf(),
        ensures
            match r {
                Some(v) => self@.votes.contains(v) && v.proposal_id == pid && v.voter_id == voter,
                None => !self@.has_vote(pid, voter),
            },
    {
        let mut i: usize = 0;
        while i < self.votes.len()
            invariant
                i <= self.votes@.len(),
                self@.votes == self.votes@,
                forall|j: int|
                    0 <= j < i ==> !(#[trigger] self.votes@[j].proposal_id == pid
                        && self.votes@[j].voter_id == voter),
            decreases self.votes.len() - i,
        {
            let v = self.votes[i];
            if v.proposal_id == pid && v.voter_id == voter {
                assert(self@.votes[i as int] == v);
                return Some(v);
            }
            i = i + 1;
        }
        None
    }

    /// Number of vote records over all proposals.
    pub fn vote_count(&self) -> (r: usize)
        ensures
            r == self@.votes.len(),
    {
        self.votes.len()
    }

    /// Position of the credit entry of `voter` in DAO `dao_id`.
    fn find_credit(&self, dao_id: u64, voter: u64) -> (r: Option<usize>)
        requires
            self.wf(),
        ensures
            match r {
                Some(i) => i < self.credits@.len() && i == self@.credit_index(dao_id, voter)
                    && self@.has_credit(dao_id, voter) && self@.balance(dao_id, voter)
                    == self.credits@[i as int].balance,
                None => !self@.has_credit(dao_id, voter),
            },
    {
        let mut i: usize = 0;
        while i < self.credits.len()
            invariant
                self.wf(),
                i <= self.credits@.len(),
                self@.credits == self.credits@,
                forall|j: int|
                    0 <= j < i ==> !(#[trigger] self@.credits[j].dao_id == dao_id
                        && self@.credits[j].voter_id == voter),
            decreases self.credits.len() - i,
        {
            if self.credits[i].dao_id == dao_id && self.credits[i].voter_id == voter {
                proof {
                    lemma_credit_index_unique(self@, dao_id, voter, i as int);
                }
                return Some(i);
            }
            i = i + 1;
        }
        None
    }

    fn has_dao_named(&self, name: &String, admin: u64) -> (r: bool)
        ensures
            r == self@.has_dao_named(name@, admin),
    {
        let mut i: usize = 0;
        while i < self.daos.len()
            invariant
                i <= self.daos@.len(),
                self@.daos.len() == self.daos@.len(),
                forall|j: int|
                    0 <= j < i ==> !(#[trigger] self@.daos[j].name == name@ && self@.daos[j].admin
                        == admin),
            decreases self.daos.len() - i,
        {
            if self.daos[i].admin == admin && self.daos[i].name == *name {
                assert(self@.daos[i as int].name == name@);
                return true;
            }
            i = i + 1;
        }
        false
    }
}

/// Registers a DAO named `name` with `caller` as its admin and returns its id.
/// A DAO's identity is its (name, admin) pair: registering it twice fails.
pub fn init_dao(gov: &mut Governance, caller: u64, name: String) -> (r: Result<u64, GovError>)
    requires
        old(gov).wf(),
    ensures
        final(gov).wf(),
        (r, final(gov)@) == init_dao_next(old(gov)@, caller, name@),
{
    let len = name.unicode_len();
    if len == 0 || len > MAX_NAME_LEN {
        return Err(GovError::InvalidName);
    }
    if gov.has_dao_named(&name, caller) {
        return Err(GovError::DaoAlreadyExists);
    }
    let id = gov.daos.len() as u64;
    let ghost s = gov@;
    gov.daos.push(Dao { id, name, admin: caller, proposal_count: 0 });
    // The registry still fits in a `usize`, so the next id fits in a `u64`.
    let _ = gov.daos.len();
    proof {
        lemma_init_dao_wf(s, caller, name@);
        let t = init_dao_next(s, caller, name@).1;
        assert(gov@.daos =~= t.daos);
        assert(gov@ == t);
    }
    Ok(id)
}

/// Creates a proposal described by `metadata` under the DAO `dao_id` and
/// returns its id, `(dao_id, n)` for the DAO's `n`-th proposal. The proposal
/// starts open with every tally at zero.
pub fn init_proposal(gov: &mut Governance, caller: u64, dao_id: u64, metadata: String) -> (r:
    Result<ProposalId, GovError>)
    requires
        old(gov).wf(),
    ensures
        final(gov).wf(),
        (r, final(gov)@) == init_proposal_next(old(gov)@, caller, dao_id, metadata@),
{
    if dao_id as u128 >= gov.daos.len() as u128 {
        return Err(GovError::DaoNotFound);
    }
    let di = dao_id as usize;
    if gov.admin_only_proposals && caller != gov.daos[di].admin {
        return Err(GovError::Unauthorized);
    }
    let len = metadata.unicode_len();
    if len == 0 || len > MAX_METADATA_LEN {
        return Err(GovError::InvalidMetadata);
    }
    let seq = gov.daos[di].proposal_count;
    if seq == u64::MAX {
        return Err(GovError::ArithmeticOverflow);
    }
    let ghost s = gov@;
    let pid = ProposalId { dao_id, seq };
    let mut tallies: Vec<u64> = Vec::new();
    let mut o: u8 = 0;
    while o < OPTION_COUNT
        invariant
            o <= OPTION_COUNT,
            tallies@ =~= zero_tallies().take(o as int),
        decreases OPTION_COUNT - o,
    {
        tallies.push(0);
        o = o + 1;
    }
    assert(tallies@ =~= zero_tallies());
    gov.daos[di].proposal_count = seq + 1;
    gov.proposals.push(Proposal { id: pid, metadata, status: ProposalStatus::Open, tallies });
    proof {
        lemma_init_proposal_wf(s, caller, dao_id, metadata@);
        let t = init_proposal_next(s, caller, dao_id, metadata@).1;
        assert(gov@.daos =~= t.daos);
        assert(gov@.proposals =~= t.proposals);
    }
    Ok(pid)
}

/// Closes the proposal `pid`; only the admin of its DAO may do so. A closed
/// proposal takes no more votes and its tallies are final.
pub fn close_proposal(gov: &mut Governance, caller: u64, pid: ProposalId) -> (r: Result<
    (),
    GovError,
>)
    requires
        old(gov).wf(),
    ensures
        final(gov).wf(),
        (r, final(gov)@) == close_proposal_next(old(gov)@, caller, pid),
{
    let i = match gov.find_proposal(pid) {
        Some(i) => i,
        None => {
            return Err(GovError::ProposalNotFound);
        },
    };
    let ghost s = gov@;
    assert(s.proposals[i as int] == gov.proposals@[i as int]@);
    assert(s.proposals[i as int].id == pid);
    assert(pid.dao_id < s.daos.len());
    let n = gov.daos.len();
    assert(s.daos.len() == n);
    let di = pid.dao_id as usize;
    assert(gov.daos@[di as int]@ == s.daos[pid.dao_id as int]);
    if caller != gov.daos[di].admin {
        return Err(GovError::Unauthorized);
    }
    if gov.proposals[i].status == ProposalStatus::Closed {
        return Err(GovError::ProposalAlreadyClosed);
    }
    gov.proposals[i].status = ProposalStatus::Closed;
    proof {
        lemma_close_proposal_wf(s, caller, pid);
        let t = close_proposal_next(s, caller, pid).1;
        assert(gov@.proposals =~= t.proposals);
    }
    Ok(())
}

/// Adds `amount` credits to the balance of `voter` in DAO `dao_id`; only the
/// DAO's admin may grant credits.
pub fn grant_credits(gov: &mut Governance, caller: u64, dao_id: u64, voter: u64, amount: u64) -> (r:
    Result<(), GovError>)
    requires
        old(gov).wf(),
    ensures
        final(gov).wf(),
        (r, final(gov)@) == grant_credits_next(old(gov)@, caller, dao_id, voter, amount),
{
    if dao_id as u128 >= gov.daos.len() as u128 {
        return Err(GovError::DaoNotFound);
    }
    if caller != gov.daos[dao_id as usize].admin {
        return Err(GovError::Unauthorized);
    }
    let ghost s = gov@;
    let found = gov.find_credit(dao_id, voter);
    let balance = match found {
        Some(i) => gov.credits[i].balance,
        None => 0,
    };
    if balance > u64::MAX - amount {
        return Err(GovError::ArithmeticOverflow);
    }
    let entry = VoterCredit { dao_id, voter_id: voter, balance: balance + amount };
    match found {
        Some(i) => {
            gov.credits[i] = entry;
        },
        None => {
            gov.credits.push(entry);
        },
    }
    proof {
        gov.granted@ = gov.granted@.insert(
            (dao_id, voter),
            (s.granted_to(dao_id, voter) + amount) as nat,
        );
        lemma_grant_credits_wf(s, caller, dao_id, voter, amount);
        let t = grant_credits_next(s, caller, dao_id, voter, amount).1;
        assert(gov@.credits =~= t.credits);
        assert(gov@.daos =~= t.daos);
        assert(gov@.proposals =~= t.proposals);
    }
    Ok(())
}

/// Casts `votes_cast` votes of `caller` on option `option` of proposal
/// `proposal_id`. The voter pays `votes_cast²` credits from their balance in
/// the proposal's DAO, the vote is recorded, and the option's tally grows by
/// `votes_cast`. Each voter votes at most once per proposal; a rejected vote
/// changes nothing.
pub fn cast_vote(
    gov: &mut Governance,
    caller: u64,
    proposal_id: ProposalId,
    option: u8,
    votes_cast: u64,
) -> (r: Result<(), GovError>)
    requires
        old(gov).wf(),
    ensures
        final(gov).wf(),
        (r, final(gov)@) == cast_vote_next(old(gov)@, caller, proposal_id, option, votes_cast),
{
    let ghost s = gov@;
    let pi = match gov.find_proposal(proposal_id) {
        Some(i) => i,
        None => {
            return Err(GovError::ProposalNotFound);
        },
    };
    assert(s.proposals[pi as int] == gov.proposals@[pi as int]@);
    if gov.proposals[pi].status == ProposalStatus::Closed {
        return Err(GovError::ProposalClosed);
    }
    if option >= OPTION_COUNT {
        return Err(GovError::InvalidOption);
    }
    if gov.get_vote(proposal_id, caller).is_some() {
        return Err(GovError::DuplicateVote);
    }
    let cost = match cost_for(votes_cast) {
        Ok(c) => c,
        Err(e) => {
            return Err(e);
        },
    };
    let found = gov.find_credit(proposal_id.dao_id, caller);
    let balance = match found {
        Some(i) => gov.credits[i].balance,
        None => 0,
    };
    match validate_budget(balance, cost) {
        Ok(()) => {},
        Err(e) => {
            return Err(e);
        },
    }
    let ci = match found {
        Some(i) => i,
        None => {
            proof {
                assert(votes_cast * votes_cast >= 1) by (nonlinear_arith)
                    requires
                        votes_cast >= 1,
                ;
            }
            return Err(GovError::InsufficientCredits);
        },
    };
    let o = option as usize;
    let tally = gov.proposals[pi].tallies[o];
    if tally > u64::MAX - votes_cast {
        return Err(GovError::ArithmeticOverflow);
    }
    assert(cast_vote_error(s, caller, proposal_id, option, votes_cast) is None);
    gov.credits[ci].balance = balance - cost;
    gov.votes.push(
        VoteRecord {
            proposal_id,
            voter_id: caller,
            option,
            votes_cast,
            credits_spent: cost,
        },
    );
    gov.proposals[pi].tallies[o] = tally + votes_cast;
    proof {
        lemma_cast_vote_wf(s, caller, proposal_id, option, votes_cast);
        let t = cast_vote_next(s, caller, proposal_id, option, votes_cast).1;
        assert(gov@.proposals[pi as int].tallies =~= t.proposals[pi as int].tallies);
        assert(gov@.proposals =~= t.proposals);
        assert(gov@.daos =~= t.daos);
        assert(gov@.credits =~= t.credits);
    }
    Ok(())
}

} // verus!
