use vstd::prelude::*;

use crate::credit::quadratic_cost;
use crate::error::GovError;
use crate::invariants::{
    lemma_cast_vote_wf, lemma_close_proposal_wf, lemma_init_proposal_wf,
    lemma_proposal_index_unique, lemma_spent_none, lemma_spent_push,
};
use crate::model::{
    cast_vote_next, close_proposal_next, get_dao_spec, grant_credits_next, init_dao_next,
    init_proposal_next, spent_in, valid_metadata, valid_name, weight_in, DaoView, GovState,
    ProposalId, ProposalStatus, OPTION_COUNT,
};

verus! {

/// Registering a DAO and then looking it up yields a DAO with the given name,
/// the caller as admin and no proposals.
pub proof fn lemma_init_then_get_dao(s: GovState, caller: u64, name: Seq<char>)
    requires
        s.wf(),
        valid_name(name),
        !s.has_dao_named(name, caller),
    ensures
        ({
            let (r, t) = init_dao_next(s, caller, name);
            &&& r is Ok
            &&& get_dao_spec(t, r->Ok_0) == Ok::<DaoView, GovError>(
                DaoView { id: r->Ok_0, name, admin: caller, proposal_count: 0 },
            )
        }),
{
}

/// Creates one proposal per entry of `metadata`, in order, under DAO
/// `dao_id`; returns every outcome and the final state.
pub open spec fn init_proposals_run(
    s: GovState,
    caller: u64,
    dao_id: u64,
    metadata: Seq<Seq<char>>,
) -> (Seq<Result<ProposalId, GovError>>, GovState)
    decreases metadata.len(),
{
    if metadata.len() == 0 {
        (Seq::empty(), s)
    } else {
        let (rs, s1) = init_proposals_run(s, caller, dao_id, metadata.drop_last());
        let (r, s2) = init_proposal_next(s1, caller, dao_id, metadata.last());
        (rs.push(r), s2)
    }
}

/// Creating N proposals under a DAO whose counter starts at `c` yields the N
/// distinct ids `(dao_id, c)`, ..., `(dao_id, c + N - 1)` and leaves the
/// counter at `c + N`; for a new DAO, the counter ends at N.
pub proof fn lemma_init_proposals_distinct(
    s: GovState,
    caller: u64,
    dao_id: u64,
    metadata: Seq<Seq<char>>,
)
    requires
        s.has_dao(dao_id),
        !s.admin_only_proposals || caller == s.dao(dao_id).admin,
        forall|i: int| 0 <= i < metadata.len() ==> valid_metadata(#[trigger] metadata[i]),
        s.dao(dao_id).proposal_count + metadata.len() <= u64::MAX,
    ensures
        ({
            let (rs, t) = init_proposals_run(s, caller, dao_id, metadata);
            let c = s.dao(dao_id).proposal_count;
            &&& rs.len() == metadata.len()
            &&& forall|k: int|
                0 <= k < rs.len() ==> #[trigger] rs[k] == Ok::<ProposalId, GovError>(
                    ProposalId { dao_id, seq: (c + k) as u64 },
                )
            &&& forall|j: int, k: int| 0 <= j < k < rs.len() ==> #[trigger] rs[j] != #[trigger] rs[k]
            &&& t.has_dao(dao_id)
            &&& t.dao(dao_id).admin == s.dao(dao_id).admin
            &&& t.dao(dao_id).proposal_count == c + metadata.len()
            &&& t.admin_only_proposals == s.admin_only_proposals
        }),
    decreases metadata.len(),
{
    if metadata.len() > 0 {
        let init = metadata.drop_last();
        assert forall|i: int| 0 <= i < init.len() implies valid_metadata(#[trigger] init[i]) by {
            assert(init[i] == metadata[i]);
        }
        lemma_init_proposals_distinct(s, caller, dao_id, init);
        assert(valid_metadata(metadata[metadata.len() - 1]));
        let (rs, t) = init_proposals_run(s, caller, dao_id, metadata);
        let (rs1, s1) = init_proposals_run(s, caller, dao_id, init);
        assert(rs =~= rs1.push(init_proposal_next(s1, caller, dao_id, metadata.last()).0));
        let c = s.dao(dao_id).proposal_count;
        assert forall|k: int|
            0 <= k < rs.len() implies #[trigger] rs[k] == Ok::<ProposalId, GovError>(
            ProposalId { dao_id, seq: (c + k) as u64 },
        ) by {
            if k < rs1.len() {
                assert(rs[k] == rs1[k]);
            }
        }
        assert forall|j: int, k: int| 0 <= j < k < rs.len() implies #[trigger] rs[j]
            != #[trigger] rs[k] by {
            assert(rs[j] == Ok::<ProposalId, GovError>(ProposalId { dao_id, seq: (c + j) as u64 }));
            assert(rs[k] == Ok::<ProposalId, GovError>(ProposalId { dao_id, seq: (c + k) as u64 }));
        }
    }
}

/// Every vote record spends exactly the square of the votes it cast, and a
/// successful vote records exactly that cost.
pub proof fn lemma_credits_spent_is_square(
    s: GovState,
    caller: u64,
    pid: ProposalId,
    option: u8,
    votes_cast: u64,
)
    requires
        s.wf(),
    ensures
        forall|i: int|
            0 <= i < s.votes.len() ==> #[trigger] s.votes[i].credits_spent == s.votes[i].votes_cast
                * s.votes[i].votes_cast,
        cast_vote_next(s, caller, pid, option, votes_cast).0 is Ok ==> cast_vote_next(
            s,
            caller,
            pid,
            option,
            votes_cast,
        ).1.votes.last().credits_spent == votes_cast * votes_cast,
{
    assert forall|i: int| 0 <= i < s.votes.len() implies #[trigger] s.votes[i].credits_spent
        == s.votes[i].votes_cast * s.votes[i].votes_cast by {
        assert(s.votes[i].credits_spent == quadratic_cost(s.votes[i].votes_cast as nat));
    }
}

/// Once a voter's vote on a proposal succeeded, a second vote by the same
/// voter on the same proposal, for any valid option and any magnitude, fails
/// with `DuplicateVote` and changes nothing.
pub proof fn lemma_second_vote_rejected(
    s: GovState,
    caller: u64,
    pid: ProposalId,
    option: u8,
    votes_cast: u64,
    option2: u8,
    votes_cast2: u64,
)
    requires
        s.wf(),
        cast_vote_next(s, caller, pid, option, votes_cast).0 is Ok,
        option2 < OPTION_COUNT,
    ensures
        ({
            let s1 = cast_vote_next(s, caller, pid, option, votes_cast).1;
            cast_vote_next(s1, caller, pid, option2, votes_cast2) == (Err::<(), GovError>(
                GovError::DuplicateVote,
            ), s1)
        }),
{
    let s1 = cast_vote_next(s, caller, pid, option, votes_cast).1;
    lemma_cast_vote_wf(s, caller, pid, option, votes_cast);
    let k = s.proposal_index(pid);
    lemma_proposal_index_unique(s, pid, k);
    assert(s1.proposals[k].id == pid);
    lemma_proposal_index_unique(s1, pid, k);
    assert(s1.votes[s1.votes.len() - 1].proposal_id == pid);
}

/// A vote by a voter who already voted on the proposal, whatever the option
/// or magnitude, is rejected and changes nothing.
pub proof fn lemma_duplicate_vote_changes_nothing(
    s: GovState,
    caller: u64,
    pid: ProposalId,
    option: u8,
    votes_cast: u64,
)
    requires
        s.has_vote(pid, caller),
    ensures
        cast_vote_next(s, caller, pid, option, votes_cast).0 is Err,
        cast_vote_next(s, caller, pid, option, votes_cast).1 == s,
{
}

/// For every DAO and voter, the current balance plus the credits spent on
/// all the voter's vote records in that DAO equals the credits granted.
pub proof fn lemma_credits_conserved(s: GovState, dao: u64, voter: u64)
    requires
        s.wf(),
    ensures
        s.balance(dao, voter) + spent_in(s.votes, dao, voter) == s.granted_to(dao, voter),
{
    if s.has_credit(dao, voter) {
        let i = s.credit_index(dao, voter);
        assert(s.credits[i].dao_id == dao);
    } else {
        assert forall|i: int|
            0 <= i < s.votes.len() implies !(#[trigger] s.votes[i].proposal_id.dao_id == dao
            && s.votes[i].voter_id == voter) by {
            let v = s.votes[i];
            assert(s.has_credit(v.proposal_id.dao_id, v.voter_id));
        }
        lemma_spent_none(s.votes, dao, voter);
        assert(!s.granted.contains_key((dao, voter)));
    }
}

/// A successful vote moves exactly its recorded cost from the voter's
/// balance to the voter's spending, and leaves every other balance alone.
pub proof fn lemma_vote_moves_cost(
    s: GovState,
    caller: u64,
    pid: ProposalId,
    option: u8,
    votes_cast: u64,
    dao: u64,
    voter: u64,
)
    requires
        s.wf(),
        cast_vote_next(s, caller, pid, option, votes_cast).0 is Ok,
    ensures
        ({
            let t = cast_vote_next(s, caller, pid, option, votes_cast).1;
            let cost = t.votes.last().credits_spent;
            &&& cost == votes_cast * votes_cast
            &&& (dao == pid.dao_id && voter == caller) ==> t.balance(dao, voter) + cost == s.balance(
                dao,
                voter,
            ) && spent_in(t.votes, dao, voter) == spent_in(s.votes, dao, voter) + cost
            &&& !(dao == pid.dao_id && voter == caller) ==> t.balance(dao, voter) == s.balance(
                dao,
                voter,
            ) && spent_in(t.votes, dao, voter) == spent_in(s.votes, dao, voter)
        }),
{
    let t = cast_vote_next(s, caller, pid, option, votes_cast).1;
    lemma_cast_vote_wf(s, caller, pid, option, votes_cast);
    lemma_spent_push(s.votes, t.votes.last(), dao, voter);
    assert(t.votes =~= s.votes.push(t.votes.last()));
    lemma_credits_conserved(s, dao, voter);
    lemma_credits_conserved(t, dao, voter);
}

/// Every tally of a proposal is the sum of `votes_cast` over the vote records
/// for that proposal and option.
pub proof fn lemma_tally_is_recorded_weight(s: GovState, pid: ProposalId, option: u8)
    requires
        s.wf(),
        s.has_proposal(pid),
        option < OPTION_COUNT,
    ensures
        s.proposal(pid).tallies[option as int] == weight_in(s.votes, pid, option),
{
    let k = s.proposal_index(pid);
    assert(s.proposals[k].tallies[option as int] == weight_in(s.votes, s.proposals[k].id, option));
}

/// The proposal `pid` is still present in `t`, closed, with the tallies it
/// had in `s`.
pub open spec fn stays_closed(s: GovState, t: GovState, pid: ProposalId) -> bool {
    &&& t.has_proposal(pid)
    &&& t.proposal(pid).status == ProposalStatus::Closed
    &&& t.proposal(pid).tallies == s.proposal(pid).tallies
}

proof fn lemma_position_kept(s: GovState, t: GovState, pid: ProposalId)
    requires
        s.wf(),
        t.wf(),
        s.has_proposal(pid),
        s.proposal_index(pid) < t.proposals.len(),
        t.proposals[s.proposal_index(pid)] == s.proposals[s.proposal_index(pid)],
    ensures
        t.has_proposal(pid),
        t.proposal(pid) == s.proposal(pid),
{
    let k = s.proposal_index(pid);
    lemma_proposal_index_unique(s, pid, k);
    lemma_proposal_index_unique(t, pid, k);
}

/// A closed proposal takes no vote, and no operation reopens it or changes
/// its tallies.
pub proof fn lemma_closed_proposal_is_final(s: GovState, pid: ProposalId)
    requires
        s.wf(),
        s.has_proposal(pid),
        s.proposal(pid).status == ProposalStatus::Closed,
    ensures
        forall|c: u64, o: u8, n: u64|
            #[trigger] cast_vote_next(s, c, pid, o, n) == (Err::<(), GovError>(
                GovError::ProposalClosed,
            ), s),
        forall|c: u64, p: ProposalId, o: u8, n: u64|
            stays_closed(s, #[trigger] cast_vote_next(s, c, p, o, n).1, pid),
        forall|c: u64, p: ProposalId| stays_closed(s, #[trigger] close_proposal_next(s, c, p).1, pid),
        forall|c: u64, d: u64, m: Seq<char>|
            stays_closed(s, #[trigger] init_proposal_next(s, c, d, m).1, pid),
        forall|c: u64, d: u64, v: u64, a: u64|
            stays_closed(s, #[trigger] grant_credits_next(s, c, d, v, a).1, pid),
        forall|c: u64, name: Seq<char>| stays_closed(s, #[trigger] init_dao_next(s, c, name).1, pid),
{
    let k = s.proposal_index(pid);
    lemma_proposal_index_unique(s, pid, k);
    assert forall|c: u64, p: ProposalId, o: u8, n: u64|
        stays_closed(s, #[trigger] cast_vote_next(s, c, p, o, n).1, pid) by {
        let (r, t) = cast_vote_next(s, c, p, o, n);
        lemma_cast_vote_wf(s, c, p, o, n);
        if r is Ok {
            let kp = s.proposal_index(p);
            lemma_proposal_index_unique(s, p, kp);
            assert(kp != k);
        }
        lemma_position_kept(s, t, pid);
    }
    assert forall|c: u64, p: ProposalId|
        stays_closed(s, #[trigger] close_proposal_next(s, c, p).1, pid) by {
        let (r, t) = close_proposal_next(s, c, p);
        lemma_close_proposal_wf(s, c, p);
        if r is Ok {
            let kp = s.proposal_index(p);
            lemma_proposal_index_unique(s, p, kp);
            assert(kp != k);
        }
        lemma_position_kept(s, t, pid);
    }
    assert forall|c: u64, d: u64, m: Seq<char>|
        stays_closed(s, #[trigger] init_proposal_next(s, c, d, m).1, pid) by {
        let t = init_proposal_next(s, c, d, m).1;
        lemma_init_proposal_wf(s, c, d, m);
        lemma_position_kept(s, t, pid);
    }
    assert forall|c: u64, d: u64, v: u64, a: u64|
        stays_closed(s, #[trigger] grant_credits_next(s, c, d, v, a).1, pid) by {
        let t = grant_credits_next(s, c, d, v, a).1;
        assert(t.proposals == s.proposals);
    }
    assert forall|c: u64, name: Seq<char>|
        stays_closed(s, #[trigger] init_dao_next(s, c, name).1, pid) by {
        let t = init_dao_next(s, c, name).1;
        assert(t.proposals == s.proposals);
    }
}

} // verus!
