use quadratic_voting::{
    cast_vote, close_proposal, cost_for, grant_credits, init_dao, init_proposal, validate_budget,
    GovError, Governance, ProposalId, ProposalStatus, MAX_METADATA_LEN, MAX_NAME_LEN,
    MAX_VOTES_CAST,
};

const A: u64 = 1;
const B: u64 = 2;
const C: u64 = 3;
const D: u64 = 4;

/// DAO "treasury" by A, proposal "fund grant X", credits 10 for B and C and 3 for D.
fn treasury() -> (Governance, u64, ProposalId) {
    let mut g = Governance::new(true);
    let dao = init_dao(&mut g, A, "treasury".to_string()).unwrap();
    let pid = init_proposal(&mut g, A, dao, "fund grant X".to_string()).unwrap();
    grant_credits(&mut g, A, dao, B, 10).unwrap();
    grant_credits(&mut g, A, dao, C, 10).unwrap();
    grant_credits(&mut g, A, dao, D, 3).unwrap();
    (g, dao, pid)
}

fn snapshot(g: &Governance, dao: u64, pid: ProposalId) -> (Vec<u64>, Vec<u64>, usize) {
    let tallies = g.read_tally(pid).unwrap().clone();
    let balances = vec![g.balance_of(dao, B), g.balance_of(dao, C), g.balance_of(dao, D)];
    (tallies, balances, g.vote_count())
}

#[test]
fn two_voters_scenario() {
    let (mut g, dao, pid) = treasury();
    assert_eq!(cast_vote(&mut g, B, pid, 1, 2), Ok(()));
    assert_eq!(cast_vote(&mut g, C, pid, 0, 1), Ok(()));
    assert_eq!(g.read_tally(pid).unwrap(), &vec![1, 2]);
    assert_eq!(g.balance_of(dao, B), 6);
    assert_eq!(g.balance_of(dao, C), 9);
    assert_eq!(g.vote_count(), 2);
    let vb = g.get_vote(pid, B).unwrap();
    assert_eq!((vb.option, vb.votes_cast, vb.credits_spent), (1, 2, 4));
    let vc = g.get_vote(pid, C).unwrap();
    assert_eq!((vc.option, vc.votes_cast, vc.credits_spent), (0, 1, 1));
}

#[test]
fn second_vote_is_duplicate() {
    let (mut g, dao, pid) = treasury();
    cast_vote(&mut g, B, pid, 1, 2).unwrap();
    cast_vote(&mut g, C, pid, 0, 1).unwrap();
    let before = snapshot(&g, dao, pid);
    assert_eq!(cast_vote(&mut g, B, pid, 1, 2), Err(GovError::DuplicateVote));
    assert_eq!(cast_vote(&mut g, B, pid, 0, 1), Err(GovError::DuplicateVote));
    assert_eq!(snapshot(&g, dao, pid), before);
}

#[test]
fn insufficient_credits_scenario() {
    let (mut g, dao, pid) = treasury();
    assert_eq!(cast_vote(&mut g, D, pid, 1, 2), Err(GovError::InsufficientCredits));
    assert!(g.get_vote(pid, D).is_none());
    assert_eq!(g.balance_of(dao, D), 3);
    assert_eq!(g.vote_count(), 0);
}

#[test]
fn init_then_get_dao() {
    let mut g = Governance::new(false);
    let id = init_dao(&mut g, A, "treasury".to_string()).unwrap();
    let dao = g.get_dao(id).unwrap();
    assert_eq!(dao.name, "treasury");
    assert_eq!(dao.admin, A);
    assert_eq!(dao.proposal_count, 0);
    assert_eq!(dao.id, id);
    let id2 = init_dao(&mut g, B, "treasury".to_string()).unwrap();
    assert_ne!(id, id2);
    assert_eq!(g.dao_count(), 2);
}

#[test]
fn get_missing_dao() {
    let g = Governance::new(false);
    assert_eq!(g.get_dao(0).err(), Some(GovError::DaoNotFound));
}

#[test]
fn dao_name_validation() {
    let mut g = Governance::new(false);
    assert_eq!(init_dao(&mut g, A, String::new()), Err(GovError::InvalidName));
    let long: String = "x".repeat(MAX_NAME_LEN + 1);
    assert_eq!(init_dao(&mut g, A, long), Err(GovError::InvalidName));
    let longest: String = "x".repeat(MAX_NAME_LEN);
    assert_eq!(init_dao(&mut g, A, longest), Ok(0));
    assert_eq!(g.dao_count(), 1);
}

#[test]
fn dao_already_exists() {
    let mut g = Governance::new(false);
    init_dao(&mut g, A, "treasury".to_string()).unwrap();
    assert_eq!(init_dao(&mut g, A, "treasury".to_string()), Err(GovError::DaoAlreadyExists));
    assert_eq!(g.dao_count(), 1);
}

#[test]
fn proposals_get_distinct_ids() {
    let mut g = Governance::new(false);
    let dao = init_dao(&mut g, A, "treasury".to_string()).unwrap();
    let n: u64 = 5;
    let mut ids = Vec::new();
    for k in 0..n {
        let pid = init_proposal(&mut g, B, dao, format!("item {}", k)).unwrap();
        assert_eq!(pid, ProposalId { dao_id: dao, seq: k });
        assert!(!ids.contains(&pid));
        ids.push(pid);
    }
    assert_eq!(g.get_dao(dao).unwrap().proposal_count, n);
    let p = g.get_proposal(ids[3]).unwrap();
    assert_eq!(p.metadata, "item 3");
    assert_eq!(p.status, ProposalStatus::Open);
    assert_eq!(p.tallies, vec![0, 0]);
}

#[test]
fn proposal_errors() {
    let mut g = Governance::new(true);
    assert_eq!(init_proposal(&mut g, A, 0, "m".to_string()), Err(GovError::DaoNotFound));
    let dao = init_dao(&mut g, A, "treasury".to_string()).unwrap();
    assert_eq!(init_proposal(&mut g, B, dao, "m".to_string()), Err(GovError::Unauthorized));
    assert_eq!(init_proposal(&mut g, A, dao, String::new()), Err(GovError::InvalidMetadata));
    let long = "m".repeat(MAX_METADATA_LEN + 1);
    assert_eq!(init_proposal(&mut g, A, dao, long), Err(GovError::InvalidMetadata));
    assert_eq!(g.get_dao(dao).unwrap().proposal_count, 0);
    assert!(init_proposal(&mut g, A, dao, "m".repeat(MAX_METADATA_LEN)).is_ok());
}

#[test]
fn open_policy_lets_members_propose() {
    let mut g = Governance::new(false);
    assert!(!g.admin_only_proposals());
    let dao = init_dao(&mut g, A, "treasury".to_string()).unwrap();
    assert_eq!(
        init_proposal(&mut g, B, dao, "m".to_string()),
        Ok(ProposalId { dao_id: dao, seq: 0 })
    );
}

#[test]
fn quadratic_cost_values() {
    assert_eq!(cost_for(1), Ok(1));
    assert_eq!(cost_for(2), Ok(4));
    assert_eq!(cost_for(3), Ok(9));
    assert_eq!(cost_for(10), Ok(100));
    assert_eq!(cost_for(MAX_VOTES_CAST), Ok(18446744065119617025));
    assert_eq!(cost_for(0), Err(GovError::InvalidVoteMagnitude));
    assert_eq!(cost_for(MAX_VOTES_CAST + 1), Err(GovError::InvalidVoteMagnitude));
}

#[test]
fn budget_validation() {
    assert_eq!(validate_budget(4, 4), Ok(()));
    assert_eq!(validate_budget(3, 4), Err(GovError::InsufficientCredits));
    assert_eq!(validate_budget(0, 0), Ok(()));
}

#[test]
fn recorded_cost_is_square() {
    let (mut g, _dao, pid) = treasury();
    cast_vote(&mut g, B, pid, 0, 3).unwrap();
    let v = g.get_vote(pid, B).unwrap();
    assert_eq!(v.votes_cast, 3);
    assert_eq!(v.credits_spent, 9);
}

#[test]
fn credits_are_conserved() {
    let mut g = Governance::new(true);
    let dao = init_dao(&mut g, A, "treasury".to_string()).unwrap();
    let p1 = init_proposal(&mut g, A, dao, "one".to_string()).unwrap();
    let p2 = init_proposal(&mut g, A, dao, "two".to_string()).unwrap();
    grant_credits(&mut g, A, dao, B, 20).unwrap();
    grant_credits(&mut g, A, dao, C, 7).unwrap();
    cast_vote(&mut g, B, p1, 0, 2).unwrap();
    cast_vote(&mut g, B, p2, 1, 3).unwrap();
    cast_vote(&mut g, C, p1, 1, 2).unwrap();
    assert_eq!(cast_vote(&mut g, C, p2, 1, 2), Err(GovError::InsufficientCredits));
    let spent_b = g.get_vote(p1, B).unwrap().credits_spent + g.get_vote(p2, B).unwrap().credits_spent;
    let spent_c = g.get_vote(p1, C).unwrap().credits_spent;
    assert_eq!(spent_b, 20 - g.balance_of(dao, B));
    assert_eq!(spent_c, 7 - g.balance_of(dao, C));
    assert_eq!(g.balance_of(dao, B), 7);
    assert_eq!(g.balance_of(dao, C), 3);
}

#[test]
fn closed_proposal_is_final() {
    let (mut g, dao, pid) = treasury();
    cast_vote(&mut g, B, pid, 1, 2).unwrap();
    assert_eq!(close_proposal(&mut g, B, pid), Err(GovError::Unauthorized));
    assert_eq!(close_proposal(&mut g, A, pid), Ok(()));
    assert_eq!(g.get_proposal(pid).unwrap().status, ProposalStatus::Closed);
    let before = snapshot(&g, dao, pid);
    assert_eq!(cast_vote(&mut g, C, pid, 0, 1), Err(GovError::ProposalClosed));
    assert_eq!(close_proposal(&mut g, A, pid), Err(GovError::ProposalAlreadyClosed));
    init_proposal(&mut g, A, dao, "next".to_string()).unwrap();
    grant_credits(&mut g, A, dao, C, 5).unwrap();
    assert_eq!(g.read_tally(pid).unwrap(), &before.0);
    assert_eq!(g.read_tally(pid).unwrap(), &vec![0, 2]);
    assert_eq!(g.vote_count(), before.2);
}

#[test]
fn vote_errors() {
    let (mut g, dao, pid) = treasury();
    let missing = ProposalId { dao_id: dao, seq: 7 };
    assert_eq!(cast_vote(&mut g, B, missing, 0, 1), Err(GovError::ProposalNotFound));
    assert_eq!(cast_vote(&mut g, B, pid, 2, 1), Err(GovError::InvalidOption));
    assert_eq!(cast_vote(&mut g, B, pid, 0, 0), Err(GovError::InvalidVoteMagnitude));
    assert_eq!(
        cast_vote(&mut g, B, pid, 0, MAX_VOTES_CAST + 1),
        Err(GovError::InvalidVoteMagnitude)
    );
    let stranger: u64 = 99;
    assert_eq!(cast_vote(&mut g, stranger, pid, 0, 1), Err(GovError::InsufficientCredits));
    assert_eq!(g.vote_count(), 0);
    assert_eq!(g.balance_of(dao, B), 10);
    assert_eq!(g.read_tally(missing).err(), Some(GovError::ProposalNotFound));
    assert_eq!(g.get_proposal(missing).err(), Some(GovError::ProposalNotFound));
}

#[test]
fn exact_budget_is_spent_to_zero() {
    let (mut g, dao, pid) = treasury();
    grant_credits(&mut g, A, dao, B, 6).unwrap();
    assert_eq!(g.balance_of(dao, B), 16);
    assert_eq!(cast_vote(&mut g, B, pid, 1, 4), Ok(()));
    assert_eq!(g.balance_of(dao, B), 0);
    assert_eq!(g.read_tally(pid).unwrap(), &vec![0, 4]);
}

#[test]
fn grant_errors() {
    let mut g = Governance::new(true);
    assert_eq!(grant_credits(&mut g, A, 0, B, 1), Err(GovError::DaoNotFound));
    let dao = init_dao(&mut g, A, "treasury".to_string()).unwrap();
    assert_eq!(grant_credits(&mut g, B, dao, B, 1), Err(GovError::Unauthorized));
    grant_credits(&mut g, A, dao, B, u64::MAX).unwrap();
    assert_eq!(grant_credits(&mut g, A, dao, B, 1), Err(GovError::ArithmeticOverflow));
    assert_eq!(g.balance_of(dao, B), u64::MAX);
}

#[test]
fn credits_are_per_dao() {
    let mut g = Governance::new(true);
    let d1 = init_dao(&mut g, A, "one".to_string()).unwrap();
    let d2 = init_dao(&mut g, A, "two".to_string()).unwrap();
    let p2 = init_proposal(&mut g, A, d2, "m".to_string()).unwrap();
    grant_credits(&mut g, A, d1, B, 10).unwrap();
    assert_eq!(g.balance_of(d2, B), 0);
    assert_eq!(cast_vote(&mut g, B, p2, 0, 1), Err(GovError::InsufficientCredits));
}
