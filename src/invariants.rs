use vstd::prelude::*;

use crate::credit::quadratic_cost;
use crate::model::{
    cast_vote_next, close_proposal_next, grant_credits_next, init_dao_next, init_proposal_next,
    spent_in, weight_in, zero_tallies, GovState, ProposalId, VoteRecord, OPTION_COUNT,
};

verus! {

/// A proposal that exists in `s` exists in `t` at the same position when `t`
/// keeps the ids of `s`'s proposals.
pub proof fn lemma_proposals_kept(s: GovState, t: GovState)
    requires
        s.proposals.len() <= t.proposals.len(),
        forall|i: int| 0 <= i < s.proposals.len() ==> #[trigger] t.proposals[i].id == s.proposals[i].id,
    ensures
        forall|pid: ProposalId| s.has_proposal(pid) ==> #[trigger] t.has_proposal(pid),
{
    assert forall|pid: ProposalId| s.has_proposal(pid) implies #[trigger] t.has_proposal(pid) by {
        let k = s.proposal_index(pid);
        assert(t.proposals[k].id == pid);
    }
}

/// The vote invariant survives a step that keeps the vote records, every
/// proposal and every credit pair.
pub proof fn lemma_wf_votes_kept(s: GovState, t: GovState)
    requires
        s.wf_votes(),
        t.votes == s.votes,
        forall|pid: ProposalId| s.has_proposal(pid) ==> #[trigger] t.has_proposal(pid),
        t.credits == s.credits || forall|d: u64, v: u64|
            s.has_credit(d, v) ==> #[trigger] t.has_credit(d, v),
    ensures
        t.wf_votes(),
{
    assert forall|d: u64, v: u64| s.has_credit(d, v) implies #[trigger] t.has_credit(d, v) by {
        if t.credits == s.credits {
            let k = s.credit_index(d, v);
            assert(t.credits[k].dao_id == d && t.credits[k].voter_id == v);
        }
    }
    assert forall|i: int| 0 <= i < t.votes.len() implies t.has_proposal(
        #[trigger] t.votes[i].proposal_id,
    ) && t.has_credit(t.votes[i].proposal_id.dao_id, t.votes[i].voter_id) by {
        assert(s.has_proposal(s.votes[i].proposal_id));
        assert(s.has_credit(s.votes[i].proposal_id.dao_id, s.votes[i].voter_id));
    }
}

/// The credit invariant survives a step that keeps the vote records, the
/// credit entries and the grants.
pub proof fn lemma_wf_credits_kept(s: GovState, t: GovState)
    requires
        s.wf_credits(),
        t.votes == s.votes,
        t.credits == s.credits,
        t.granted == s.granted,
    ensures
        t.wf_credits(),
{
    assert forall|k: (u64, u64)| #[trigger] t.granted.contains_key(k) implies t.has_credit(
        k.0,
        k.1,
    ) by {
        assert(s.has_credit(k.0, k.1));
        let i = s.credit_index(k.0, k.1);
        assert(t.credits[i].dao_id == k.0);
    }
}

/// In a well-formed state, the position chosen for `pid` is the only one.
pub proof fn lemma_proposal_index_unique(s: GovState, pid: ProposalId, i: int)
    requires
        s.wf(),
        0 <= i < s.proposals.len(),
        s.proposals[i].id == pid,
    ensures
        s.has_proposal(pid),
        s.proposal_index(pid) == i,
        s.proposal(pid) == s.proposals[i],
{
    let k = s.proposal_index(pid);
    assert(s.proposals[k].id == pid);
    if k < i {
        assert(s.proposals[k].id != s.proposals[i].id);
    } else if i < k {
        assert(s.proposals[i].id != s.proposals[k].id);
    }
}

pub proof fn lemma_init_dao_wf(s: GovState, caller: u64, name: Seq<char>)
    requires
        s.wf(),
        s.daos.len() < u64::MAX,
    ensures
        init_dao_next(s, caller, name).1.wf(),
{
    let t = init_dao_next(s, caller, name).1;
    if t != s {
        assert forall|i: int| 0 <= i < t.proposals.len() implies {
            let p = #[trigger] t.proposals[i];
            &&& p.id.dao_id < t.daos.len()
            &&& p.id.seq < t.daos[p.id.dao_id as int].proposal_count
        } by {
            let p = s.proposals[i];
            assert(t.daos[p.id.dao_id as int] == s.daos[p.id.dao_id as int]);
        }
        assert forall|i: int, j: int| 0 <= i < j < t.daos.len() implies !(
        #[trigger] t.daos[i].name == #[trigger] t.daos[j].name && t.daos[i].admin
            == t.daos[j].admin) by {
            if j == s.daos.len() {
                if t.daos[i].name == name && t.daos[i].admin == caller {
                    assert(s.daos[i].name == name);
                }
            }
        }
        assert forall|i: int| 0 <= i < t.daos.len() implies #[trigger] t.daos[i].id == i
            && crate::model::valid_name(t.daos[i].name) by {
            if i < s.daos.len() {
                assert(s.daos[i].id == i);
            }
        }
        lemma_proposals_kept(s, t);
        lemma_wf_votes_kept(s, t);
        lemma_wf_credits_kept(s, t);
        lemma_wf_tallies_kept(s, t);
        assert(t.wf_daos());
        assert(t.wf_proposals());
        assert(t.wf_votes());
        assert(t.wf_credits());
    }
}

pub proof fn lemma_init_proposal_wf(s: GovState, caller: u64, dao_id: u64, metadata: Seq<char>)
    requires
        s.wf(),
    ensures
        init_proposal_next(s, caller, dao_id, metadata).1.wf(),
        init_proposal_next(s, caller, dao_id, metadata).0 is Ok ==> !s.has_proposal(
            init_proposal_next(s, caller, dao_id, metadata).0->Ok_0,
        ),
{
    let (r, t) = init_proposal_next(s, caller, dao_id, metadata);
    if r is Ok {
        let pid = r->Ok_0;
        assert forall|i: int| 0 <= i < s.proposals.len() implies #[trigger] s.proposals[i].id
            != pid by {
            let p = s.proposals[i];
            assert(p.id.seq < s.daos[p.id.dao_id as int].proposal_count);
        }
        assert forall|i: int| 0 <= i < t.proposals.len() implies {
            let p = #[trigger] t.proposals[i];
            &&& p.id.dao_id < t.daos.len()
            &&& p.id.seq < t.daos[p.id.dao_id as int].proposal_count
            &&& p.tallies.len() == crate::model::OPTION_COUNT
            &&& crate::model::valid_metadata(p.metadata)
        } by {
            if i < s.proposals.len() {
                let p = s.proposals[i];
                assert(p.id.seq < s.daos[p.id.dao_id as int].proposal_count);
            }
        }
        assert forall|i: int, j: int|
            0 <= i < j < t.proposals.len() implies #[trigger] t.proposals[i].id
            != #[trigger] t.proposals[j].id by {
            if j < s.proposals.len() {
                assert(s.proposals[i].id != s.proposals[j].id);
            } else {
                assert(s.proposals[i].id != pid);
            }
        }
        assert forall|i: int, j: int| 0 <= i < j < t.daos.len() implies !(
        #[trigger] t.daos[i].name == #[trigger] t.daos[j].name && t.daos[i].admin
            == t.daos[j].admin) by {
            assert(!(s.daos[i].name == s.daos[j].name && s.daos[i].admin == s.daos[j].admin));
        }
        assert forall|i: int| 0 <= i < t.daos.len() implies #[trigger] t.daos[i].id == i
            && crate::model::valid_name(t.daos[i].name) by {
            assert(s.daos[i].id == i);
        }
        lemma_proposals_kept(s, t);
        lemma_wf_votes_kept(s, t);
        lemma_wf_credits_kept(s, t);
        assert forall|i: int| 0 <= i < s.votes.len() implies #[trigger] s.votes[i].proposal_id
            != pid by {
            if s.votes[i].proposal_id == pid {
                let k = s.proposal_index(pid);
                assert(s.proposals[k].id == pid);
            }
        }
        assert forall|i: int, o: u8|
            0 <= i < t.proposals.len() && o < OPTION_COUNT implies #[trigger] t.proposals[i].tallies[o as int]
            == weight_in(t.votes, t.proposals[i].id, o) by {
            if i < s.proposals.len() {
                assert(s.proposals[i].tallies[o as int] == weight_in(s.votes, s.proposals[i].id, o));
            } else {
                lemma_weight_none(s.votes, pid, o);
            }
        }
        assert(t.wf_daos());
        assert(t.wf_proposals());
        assert(t.wf_votes());
        assert(t.wf_credits());
    }
}

pub proof fn lemma_close_proposal_wf(s: GovState, caller: u64, pid: ProposalId)
    requires
        s.wf(),
    ensures
        close_proposal_next(s, caller, pid).1.wf(),
{
    let (r, t) = close_proposal_next(s, caller, pid);
    if r is Ok {
        let k = s.proposal_index(pid);
        assert forall|i: int| 0 <= i < t.proposals.len() implies #[trigger] t.proposals[i].id
            == s.proposals[i].id by {}
        assert forall|i: int| 0 <= i < t.proposals.len() implies {
            let p = #[trigger] t.proposals[i];
            &&& p.id.dao_id < t.daos.len()
            &&& p.id.seq < t.daos[p.id.dao_id as int].proposal_count
            &&& p.tallies.len() == crate::model::OPTION_COUNT
            &&& crate::model::valid_metadata(p.metadata)
        } by {
            let p = s.proposals[i];
        }
        assert forall|i: int, j: int|
            0 <= i < j < t.proposals.len() implies #[trigger] t.proposals[i].id
            != #[trigger] t.proposals[j].id by {
            assert(s.proposals[i].id != s.proposals[j].id);
        }
        lemma_proposals_kept(s, t);
        lemma_wf_votes_kept(s, t);
        lemma_wf_credits_kept(s, t);
        lemma_wf_tallies_kept(s, t);
        assert(t.wf_daos());
        assert(t.wf_proposals());
        assert(t.wf_votes());
        assert(t.wf_credits());
    }
}

/// Appending a record adds its cost to the spending of its own (DAO, voter)
/// pair only.
pub proof fn lemma_spent_push(votes: Seq<VoteRecord>, r: VoteRecord, dao: u64, voter: u64)
    ensures
        spent_in(votes.push(r), dao, voter) == spent_in(votes, dao, voter) + if r.proposal_id.dao_id
            == dao && r.voter_id == voter {
            r.credits_spent as nat
        } else {
            0
        },
{
    assert(votes.push(r).drop_last() =~= votes);
}

/// Appending a record adds its weight to its own (proposal, option) pair only.
pub proof fn lemma_weight_push(votes: Seq<VoteRecord>, r: VoteRecord, pid: ProposalId, option: u8)
    ensures
        weight_in(votes.push(r), pid, option) == weight_in(votes, pid, option) + if r.proposal_id
            == pid && r.option == option {
            r.votes_cast as nat
        } else {
            0
        },
{
    assert(votes.push(r).drop_last() =~= votes);
}

/// A proposal with no vote record has no weight.
pub proof fn lemma_weight_none(votes: Seq<VoteRecord>, pid: ProposalId, option: u8)
    requires
        forall|i: int| 0 <= i < votes.len() ==> #[trigger] votes[i].proposal_id != pid,
    ensures
        weight_in(votes, pid, option) == 0,
    decreases votes.len(),
{
    if votes.len() > 0 {
        let init = votes.drop_last();
        assert forall|i: int| 0 <= i < init.len() implies #[trigger] init[i].proposal_id != pid by {
            assert(init[i] == votes[i]);
        }
        lemma_weight_none(init, pid, option);
        assert(votes[votes.len() - 1] == votes.last());
    }
}

/// The tally invariant survives a step that keeps the vote records and every
/// proposal.
pub proof fn lemma_wf_tallies_kept(s: GovState, t: GovState)
    requires
        s.wf_tallies(),
        t.votes == s.votes,
        t.proposals.len() == s.proposals.len(),
        forall|i: int|
            0 <= i < s.proposals.len() ==> #[trigger] t.proposals[i].id == s.proposals[i].id
                && t.proposals[i].tallies == s.proposals[i].tallies,
    ensures
        t.wf_tallies(),
{
    assert forall|i: int, o: u8|
        0 <= i < t.proposals.len() && o < OPTION_COUNT implies #[trigger] t.proposals[i].tallies[o as int]
        == weight_in(t.votes, t.proposals[i].id, o) by {
        assert(s.proposals[i].tallies[o as int] == weight_in(s.votes, s.proposals[i].id, o));
    }
}

/// A pair with no vote record has spent nothing.
pub proof fn lemma_spent_none(votes: Seq<VoteRecord>, dao: u64, voter: u64)
    requires
        forall|i: int|
            0 <= i < votes.len() ==> !(#[trigger] votes[i].proposal_id.dao_id == dao
                && votes[i].voter_id == voter),
    ensures
        spent_in(votes, dao, voter) == 0,
    decreases votes.len(),
{
    if votes.len() > 0 {
        let init = votes.drop_last();
        assert forall|i: int|
            0 <= i < init.len() implies !(#[trigger] init[i].proposal_id.dao_id == dao
            && init[i].voter_id == voter) by {
            assert(init[i] == votes[i]);
        }
        lemma_spent_none(init, dao, voter);
        assert(votes[votes.len() - 1] == votes.last());
    }
}

/// In a well-formed state, the position chosen for a credit entry is the only
/// one.
pub proof fn lemma_credit_index_unique(s: GovState, dao: u64, voter: u64, i: int)
    requires
        s.wf(),
        0 <= i < s.credits.len(),
        s.credits[i].dao_id == dao,
        s.credits[i].voter_id == voter,
    ensures
        s.has_credit(dao, voter),
        s.credit_index(dao, voter) == i,
        s.balance(dao, voter) == s.credits[i].balance,
{
    let k = s.credit_index(dao, voter);
    assert(s.credits[k].dao_id == dao);
    if k < i {
        assert(!(s.credits[k].dao_id == s.credits[i].dao_id && s.credits[k].voter_id
            == s.credits[i].voter_id));
    } else if i < k {
        assert(!(s.credits[i].dao_id == s.credits[k].dao_id && s.credits[i].voter_id
            == s.credits[k].voter_id));
    }
}

pub proof fn lemma_grant_credits_wf(s: GovState, caller: u64, dao_id: u64, voter: u64, amount: u64)
    requires
        s.wf(),
    ensures
        grant_credits_next(s, caller, dao_id, voter, amount).1.wf(),
{
    let (r, t) = grant_credits_next(s, caller, dao_id, voter, amount);
    if r is Ok {
        let had = s.has_credit(dao_id, voter);
        let ci = if had {
            s.credit_index(dao_id, voter)
        } else {
            s.credits.len() as int
        };
        if had {
            lemma_credit_index_unique(s, dao_id, voter, ci);
        } else {
            assert forall|i: int|
                0 <= i < s.votes.len() implies !(#[trigger] s.votes[i].proposal_id.dao_id
                == dao_id && s.votes[i].voter_id == voter) by {
                let v = s.votes[i];
                assert(s.has_credit(v.proposal_id.dao_id, v.voter_id));
            }
            lemma_spent_none(s.votes, dao_id, voter);
            assert(!s.granted.contains_key((dao_id, voter)));
        }
        assert(t.credits[ci].dao_id == dao_id && t.credits[ci].voter_id == voter);
        assert forall|d: u64, v: u64| s.has_credit(d, v) implies #[trigger] t.has_credit(d, v) by {
            let k = s.credit_index(d, v);
            assert(t.credits[k].dao_id == d && t.credits[k].voter_id == v);
        }
        assert(t.has_credit(dao_id, voter));
        lemma_wf_votes_kept(s, t);
        assert forall|i: int, j: int| 0 <= i < j < t.credits.len() implies !(
        #[trigger] t.credits[i].dao_id == #[trigger] t.credits[j].dao_id && t.credits[i].voter_id
            == t.credits[j].voter_id) by {
            if j < s.credits.len() {
                assert(!(s.credits[i].dao_id == s.credits[j].dao_id && s.credits[i].voter_id
                    == s.credits[j].voter_id));
            } else {
                assert(!(s.credits[i].dao_id == dao_id && s.credits[i].voter_id == voter));
            }
        }
        assert forall|i: int| 0 <= i < t.credits.len() implies {
            let c = #[trigger] t.credits[i];
            c.balance + spent_in(t.votes, c.dao_id, c.voter_id) == t.granted_to(
                c.dao_id,
                c.voter_id,
            )
        } by {
            if i != ci {
                let c = s.credits[i];
                assert(!(c.dao_id == dao_id && c.voter_id == voter));
            }
        }
        assert forall|k: (u64, u64)| #[trigger] t.granted.contains_key(k) implies t.has_credit(
            k.0,
            k.1,
        ) by {
            if k != (dao_id, voter) {
                assert(s.has_credit(k.0, k.1));
            }
        }
        lemma_wf_tallies_kept(s, t);
        assert(t.wf_daos());
        assert(t.wf_proposals());
        assert(t.wf_votes());
        assert(t.wf_credits());
    }
}

pub proof fn lemma_cast_vote_wf(
    s: GovState,
    caller: u64,
    pid: ProposalId,
    option: u8,
    votes_cast: u64,
)
    requires
        s.wf(),
    ensures
        cast_vote_next(s, caller, pid, option, votes_cast).1.wf(),
{
    let (r, t) = cast_vote_next(s, caller, pid, option, votes_cast);
    if r is Ok {
        let pi = s.proposal_index(pid);
        let ci = s.credit_index(pid.dao_id, caller);
        let cost = quadratic_cost(votes_cast as nat);
        assert(cost >= 1) by (nonlinear_arith)
            requires
                cost == votes_cast * votes_cast,
                votes_cast >= 1,
        ;
        assert(s.has_credit(pid.dao_id, caller));
        lemma_credit_index_unique(s, pid.dao_id, caller, ci);
        let rec = t.votes.last();
        assert forall|i: int| 0 <= i < t.proposals.len() implies #[trigger] t.proposals[i].id
            == s.proposals[i].id by {}
        lemma_proposals_kept(s, t);
        assert forall|d: u64, v: u64| s.has_credit(d, v) implies #[trigger] t.has_credit(d, v) by {
            let k = s.credit_index(d, v);
            assert(t.credits[k].dao_id == d && t.credits[k].voter_id == v);
        }
        assert forall|i: int| 0 <= i < t.proposals.len() implies {
            let p = #[trigger] t.proposals[i];
            &&& p.id.dao_id < t.daos.len()
            &&& p.id.seq < t.daos[p.id.dao_id as int].proposal_count
            &&& p.tallies.len() == crate::model::OPTION_COUNT
            &&& crate::model::valid_metadata(p.metadata)
        } by {
            let p = s.proposals[i];
        }
        assert forall|i: int, j: int|
            0 <= i < j < t.proposals.len() implies #[trigger] t.proposals[i].id
            != #[trigger] t.proposals[j].id by {
            assert(s.proposals[i].id != s.proposals[j].id);
        }
        assert forall|i: int| 0 <= i < t.votes.len() implies {
            let v = #[trigger] t.votes[i];
            &&& t.has_proposal(v.proposal_id)
            &&& t.has_credit(v.proposal_id.dao_id, v.voter_id)
            &&& v.option < crate::model::OPTION_COUNT
            &&& crate::credit::valid_magnitude(v.votes_cast)
            &&& v.credits_spent == quadratic_cost(v.votes_cast as nat)
        } by {
            if i < s.votes.len() {
                let v = s.votes[i];
                assert(s.has_proposal(v.proposal_id));
                assert(s.has_credit(v.proposal_id.dao_id, v.voter_id));
            } else {
                assert(s.has_proposal(pid));
            }
        }
        assert forall|i: int, j: int| 0 <= i < j < t.votes.len() implies !(
        #[trigger] t.votes[i].proposal_id == #[trigger] t.votes[j].proposal_id
            && t.votes[i].voter_id == t.votes[j].voter_id) by {
            if j < s.votes.len() {
                assert(!(s.votes[i].proposal_id == s.votes[j].proposal_id && s.votes[i].voter_id
                    == s.votes[j].voter_id));
            } else {
                assert(!(s.votes[i].proposal_id == pid && s.votes[i].voter_id == caller));
            }
        }
        assert forall|i: int| 0 <= i < t.credits.len() implies {
            let c = #[trigger] t.credits[i];
            c.balance + spent_in(t.votes, c.dao_id, c.voter_id) == t.granted_to(
                c.dao_id,
                c.voter_id,
            )
        } by {
            let c = s.credits[i];
            lemma_spent_push(s.votes, rec, c.dao_id, c.voter_id);
            if i != ci {
                assert(!(c.dao_id == pid.dao_id && c.voter_id == caller));
            }
        }
        assert forall|i: int, j: int| 0 <= i < j < t.credits.len() implies !(
        #[trigger] t.credits[i].dao_id == #[trigger] t.credits[j].dao_id && t.credits[i].voter_id
            == t.credits[j].voter_id) by {
            assert(!(s.credits[i].dao_id == s.credits[j].dao_id && s.credits[i].voter_id
                == s.credits[j].voter_id));
        }
        assert forall|k: (u64, u64)| #[trigger] t.granted.contains_key(k) implies t.has_credit(
            k.0,
            k.1,
        ) by {
            assert(s.has_credit(k.0, k.1));
        }
        assert forall|i: int, o: u8|
            0 <= i < t.proposals.len() && o < OPTION_COUNT implies #[trigger] t.proposals[i].tallies[o as int]
            == weight_in(t.votes, t.proposals[i].id, o) by {
            lemma_weight_push(s.votes, rec, s.proposals[i].id, o);
            assert(s.proposals[i].tallies[o as int] == weight_in(s.votes, s.proposals[i].id, o));
            if i < pi {
                assert(s.proposals[i].id != s.proposals[pi].id);
            } else if pi < i {
                assert(s.proposals[pi].id != s.proposals[i].id);
            }
        }
        assert(t.wf_daos());
        assert(t.wf_proposals());
        assert(t.wf_votes());
        assert(t.wf_credits());
    }
}

} // verus!
