use simple_dao::{
    DaoError, ProposalInput, ProposalStatus, ProposalType, Transfer, Vote, Weight, DAO,
};

fn acct(name: &str) -> String {
    name.to_string()
}

fn input(target: &str, kind: ProposalType) -> ProposalInput {
    ProposalInput { target: acct(target), description: acct("why"), kind }
}

fn pay(to: &str, amount: u128) -> Transfer {
    Transfer { to: acct(to), amount }
}

/// A council of `alice` (stake 60) and `bob` (stake 40), bond 10, vote period 1000.
/// Proposal 0 is the admission of `bob`, closed with success.
fn two_member_dao() -> DAO {
    let mut dao = DAO::new(acct("treasury"), 10, 1000, 7, acct("alice"), 60);
    let id = dao
        .add_proposal(input("bob", ProposalType::NewCouncil { amount: 40 }), acct("alice"), 10, 0)
        .unwrap();
    assert_eq!(id, 0);
    assert!(dao.can_admit(id));
    let transfers = dao.vote(id, Vote::Yes, &acct("alice"), 0).unwrap();
    assert_eq!(transfers, vec![pay("alice", 10)]);
    dao
}

fn status_of(dao: &DAO, id: u64) -> ProposalStatus {
    dao.proposals().get(id).unwrap().status()
}

fn weight_of(dao: &DAO, account: &str) -> Weight {
    let members = dao.council().members();
    let i = dao.council().find(&acct(account)).unwrap();
    members[i].weight()
}

#[test]
fn new_makes_the_owner_the_only_member() {
    let dao = DAO::new(acct("treasury"), 10, 1000, 7, acct("alice"), 60);
    assert_eq!(dao.purpose(), "treasury");
    assert_eq!(dao.bond(), 10);
    assert_eq!(dao.vote_period(), 1000);
    assert_eq!(dao.grace_period(), 7);
    assert_eq!(dao.council().len(), 1);
    let owner = &dao.council().members()[0];
    assert_eq!(owner.account(), "alice");
    assert_eq!(owner.locked_tokens(), 60);
    assert_eq!(owner.weight(), Weight { numerator: 60, denominator: 60 });
    assert_eq!(dao.proposals().len(), 0);
}

#[test]
fn new_with_no_deposit_gives_the_owner_weight_zero() {
    let dao = DAO::new(acct("treasury"), 10, 1000, 0, acct("alice"), 0);
    assert_eq!(dao.council().members()[0].weight(), Weight { numerator: 0, denominator: 1 });
}

#[test]
fn add_proposal_returns_sequential_indices() {
    let mut dao = DAO::new(acct("treasury"), 10, 1000, 0, acct("alice"), 60);
    let a = dao.add_proposal(input("carol", ProposalType::Payout { amount: 5 }), acct("dan"), 10, 3);
    let b = dao.add_proposal(input("erin", ProposalType::DeleteCouncil), acct("dan"), 11, 4);
    assert_eq!(a, Ok(0));
    assert_eq!(b, Ok(1));
    assert_eq!(dao.proposals().len(), 2);
    let first = dao.proposals().get(0).unwrap();
    assert_eq!(first.status(), ProposalStatus::Vote);
    assert_eq!(first.proposer(), "dan");
    assert_eq!(first.receiver(), "carol");
    assert_eq!(first.description(), "why");
    assert_eq!(first.kind(), ProposalType::Payout { amount: 5 });
    assert_eq!(first.vote_period_end(), 1003);
    assert!(first.votes().is_empty());
    assert_eq!(dao.proposals().get(1).unwrap().vote_period_end(), 1004);
}

#[test]
fn add_proposal_below_the_bond_is_rejected() {
    let mut dao = DAO::new(acct("treasury"), 10, 1000, 0, acct("alice"), 60);
    let before = dao.clone();
    let r = dao.add_proposal(input("carol", ProposalType::Payout { amount: 5 }), acct("dan"), 9, 0);
    assert_eq!(r, Err(DaoError::InsufficientBond));
    assert_eq!(dao.clone(), before);
}

#[test]
fn add_proposal_with_exactly_the_bond_is_accepted() {
    let mut dao = DAO::new(acct("treasury"), 10, 1000, 0, acct("alice"), 60);
    let r = dao.add_proposal(input("carol", ProposalType::Payout { amount: 5 }), acct("dan"), 10, 0);
    assert_eq!(r, Ok(0));
}

#[test]
fn admission_makes_weights_sixty_and_forty() {
    let dao = two_member_dao();
    assert_eq!(dao.council().len(), 2);
    assert_eq!(weight_of(&dao, "alice"), Weight { numerator: 60, denominator: 100 });
    assert_eq!(weight_of(&dao, "bob"), Weight { numerator: 40, denominator: 100 });
    assert_eq!(status_of(&dao, 0), ProposalStatus::Success);
}

#[test]
fn majority_vote_closes_a_payout_at_once() {
    let mut dao = two_member_dao();
    let id = dao
        .add_proposal(input("carol", ProposalType::Payout { amount: 5 }), acct("dan"), 10, 0)
        .unwrap();
    let transfers = dao.vote(id, Vote::Yes, &acct("alice"), 0).unwrap();
    assert_eq!(transfers, vec![pay("dan", 10), pay("carol", 5)]);
    assert_eq!(status_of(&dao, id), ProposalStatus::Success);
    let ledger = dao.proposals().get(id).unwrap().votes();
    assert_eq!(ledger.len(), 1);
    assert_eq!(ledger[0].voter, "alice");
    assert_eq!(ledger[0].choice, Vote::Yes);
    assert_eq!(dao.council().len(), 2);
}

#[test]
fn minority_vote_fails_after_the_deadline_on_finalize() {
    let mut dao = two_member_dao();
    let id = dao
        .add_proposal(input("carol", ProposalType::Payout { amount: 5 }), acct("dan"), 10, 0)
        .unwrap();
    assert_eq!(dao.vote(id, Vote::Yes, &acct("bob"), 0), Ok(vec![]));
    assert_eq!(status_of(&dao, id), ProposalStatus::Vote);
    assert_eq!(dao.finalized(id, 1000), Err(DaoError::NotReady));
    let transfers = dao.finalized(id, 1001).unwrap();
    assert_eq!(transfers, vec![pay("dan", 10)]);
    assert_eq!(status_of(&dao, id), ProposalStatus::Fail);
}

#[test]
fn minority_vote_fails_after_the_deadline_on_vote() {
    let mut dao = two_member_dao();
    let id = dao
        .add_proposal(input("carol", ProposalType::Payout { amount: 5 }), acct("dan"), 10, 0)
        .unwrap();
    assert_eq!(dao.vote(id, Vote::Yes, &acct("bob"), 0), Ok(vec![]));
    let transfers = dao.vote(id, Vote::Yes, &acct("alice"), 1001).unwrap();
    assert_eq!(transfers, vec![pay("dan", 10)]);
    assert_eq!(status_of(&dao, id), ProposalStatus::Fail);
    let ledger = dao.proposals().get(id).unwrap().votes();
    assert_eq!(ledger.len(), 1);
    assert_eq!(ledger[0].voter, "bob");
}

#[test]
fn double_vote_is_rejected_and_keeps_one_ballot() {
    let mut dao = two_member_dao();
    let id = dao
        .add_proposal(input("carol", ProposalType::Payout { amount: 5 }), acct("dan"), 10, 0)
        .unwrap();
    assert_eq!(dao.vote(id, Vote::No, &acct("alice"), 0), Ok(vec![]));
    let before = dao.clone();
    assert_eq!(dao.vote(id, Vote::Yes, &acct("alice"), 1), Err(DaoError::DuplicateVote));
    assert_eq!(dao.clone(), before);
    let ledger = dao.proposals().get(id).unwrap().votes();
    let of_alice = ledger.iter().filter(|b| b.voter == "alice").count();
    assert_eq!(of_alice, 1);
    assert_eq!(ledger[0].choice, Vote::No);
}

#[test]
fn admitting_thirty_redistributes_the_weights() {
    let mut dao = two_member_dao();
    let id = dao
        .add_proposal(input("carol", ProposalType::NewCouncil { amount: 30 }), acct("dan"), 10, 0)
        .unwrap();
    let transfers = dao.vote(id, Vote::Yes, &acct("alice"), 0).unwrap();
    assert_eq!(transfers, vec![pay("dan", 10)]);
    assert_eq!(dao.council().len(), 3);
    let carol = &dao.council().members()[2];
    assert_eq!(carol.account(), "carol");
    assert_eq!(carol.locked_tokens(), 30);
    assert_eq!(weight_of(&dao, "alice"), Weight { numerator: 60, denominator: 130 });
    assert_eq!(weight_of(&dao, "bob"), Weight { numerator: 40, denominator: 130 });
    assert_eq!(weight_of(&dao, "carol"), Weight { numerator: 30, denominator: 130 });
    let sum: u128 = dao.council().members().iter().map(|m| m.weight().numerator).sum();
    assert_eq!(sum, 130);
}

#[test]
fn removal_hands_the_stake_back_and_redistributes() {
    let mut dao = two_member_dao();
    let id = dao.add_proposal(input("bob", ProposalType::DeleteCouncil), acct("dan"), 10, 0).unwrap();
    let transfers = dao.vote(id, Vote::Yes, &acct("alice"), 0).unwrap();
    assert_eq!(transfers, vec![pay("dan", 10), pay("bob", 40)]);
    assert_eq!(dao.council().len(), 1);
    assert!(!dao.council().contains(&acct("bob")));
    assert_eq!(weight_of(&dao, "alice"), Weight { numerator: 60, denominator: 60 });
    assert_eq!(status_of(&dao, id), ProposalStatus::Success);
}

#[test]
fn removing_the_last_member_leaves_an_empty_council() {
    let mut dao = DAO::new(acct("treasury"), 10, 1000, 0, acct("alice"), 60);
    let id = dao.add_proposal(input("alice", ProposalType::DeleteCouncil), acct("dan"), 10, 0).unwrap();
    let transfers = dao.vote(id, Vote::Yes, &acct("alice"), 0).unwrap();
    assert_eq!(transfers, vec![pay("dan", 10), pay("alice", 60)]);
    assert_eq!(dao.council().len(), 0);
    assert_eq!(dao.council().total_locked(), 0);
}

#[test]
fn vote_by_outsider_is_rejected_and_changes_nothing() {
    let mut dao = two_member_dao();
    let id = dao
        .add_proposal(input("carol", ProposalType::Payout { amount: 5 }), acct("dan"), 10, 0)
        .unwrap();
    let before = dao.clone();
    assert_eq!(dao.vote(id, Vote::Yes, &acct("mallory"), 0), Err(DaoError::NotCouncilMember));
    assert_eq!(dao.vote(99, Vote::Yes, &acct("mallory"), 0), Err(DaoError::NotCouncilMember));
    assert_eq!(dao.vote(0, Vote::Yes, &acct("mallory"), 5000), Err(DaoError::NotCouncilMember));
    assert_eq!(dao.clone(), before);
    assert!(dao.proposals().get(id).unwrap().votes().is_empty());
}

#[test]
fn vote_on_unknown_proposal_is_not_found() {
    let mut dao = two_member_dao();
    assert_eq!(dao.vote(1, Vote::Yes, &acct("alice"), 0), Err(DaoError::NotFound));
}

#[test]
fn finalize_unknown_proposal_is_not_found() {
    let mut dao = two_member_dao();
    assert_eq!(dao.finalized(1, 0), Err(DaoError::NotFound));
}

#[test]
fn closed_proposal_rejects_vote_and_finalize() {
    let mut dao = two_member_dao();
    let before = dao.clone();
    assert_eq!(dao.vote(0, Vote::No, &acct("bob"), 1), Err(DaoError::AlreadyFinalized));
    assert_eq!(dao.finalized(0, 1), Err(DaoError::AlreadyFinalized));
    assert_eq!(dao.finalized(0, 5000), Err(DaoError::AlreadyFinalized));
    assert_eq!(dao.vote(0, Vote::No, &acct("bob"), 5000), Err(DaoError::AlreadyFinalized));
    assert_eq!(dao.clone(), before);
    assert_eq!(status_of(&dao, 0), ProposalStatus::Success);
}

#[test]
fn failed_proposal_stays_failed() {
    let mut dao = two_member_dao();
    let id = dao
        .add_proposal(input("carol", ProposalType::Payout { amount: 5 }), acct("dan"), 10, 0)
        .unwrap();
    assert_eq!(dao.finalized(id, 1001), Ok(vec![pay("dan", 10)]));
    assert_eq!(dao.finalized(id, 1002), Err(DaoError::AlreadyFinalized));
    assert_eq!(dao.vote(id, Vote::Yes, &acct("alice"), 1002), Err(DaoError::AlreadyFinalized));
    assert_eq!(status_of(&dao, id), ProposalStatus::Fail);
}

#[test]
fn finalize_twice_pays_once() {
    let mut dao = two_member_dao();
    let id = dao
        .add_proposal(input("carol", ProposalType::Payout { amount: 5 }), acct("dan"), 10, 0)
        .unwrap();
    assert_eq!(dao.vote(id, Vote::Yes, &acct("bob"), 0), Ok(vec![]));
    assert_eq!(dao.vote(id, Vote::Yes, &acct("alice"), 1), Ok(vec![pay("dan", 10), pay("carol", 5)]));
    let after_first = dao.clone();
    assert_eq!(dao.finalized(id, 2), Err(DaoError::AlreadyFinalized));
    assert_eq!(dao.clone(), after_first);
}

#[test]
fn finalize_before_majority_and_deadline_is_not_ready() {
    let mut dao = two_member_dao();
    let id = dao
        .add_proposal(input("carol", ProposalType::Payout { amount: 5 }), acct("dan"), 10, 0)
        .unwrap();
    let before = dao.clone();
    assert_eq!(dao.finalized(id, 0), Err(DaoError::NotReady));
    assert_eq!(dao.finalized(id, 1000), Err(DaoError::NotReady));
    assert_eq!(dao.clone(), before);
}

#[test]
fn finalize_succeeds_once_majority_stands_in_the_ledger() {
    let mut dao = two_member_dao();
    let pay_id = dao
        .add_proposal(input("carol", ProposalType::Payout { amount: 5 }), acct("dan"), 10, 0)
        .unwrap();
    assert_eq!(dao.vote(pay_id, Vote::Yes, &acct("bob"), 0), Ok(vec![]));
    // alice leaves, so bob's weight becomes 40/40
    let out = dao.add_proposal(input("alice", ProposalType::DeleteCouncil), acct("dan"), 10, 0).unwrap();
    assert_eq!(dao.vote(out, Vote::Yes, &acct("alice"), 0), Ok(vec![pay("dan", 10), pay("alice", 60)]));
    assert_eq!(dao.finalized(pay_id, 1), Ok(vec![pay("dan", 10), pay("carol", 5)]));
    assert_eq!(status_of(&dao, pay_id), ProposalStatus::Success);
}

#[test]
fn exactly_half_the_weight_is_enough() {
    let mut dao = DAO::new(acct("treasury"), 1, 1000, 0, acct("alice"), 50);
    let id = dao
        .add_proposal(input("bob", ProposalType::NewCouncil { amount: 50 }), acct("alice"), 1, 0)
        .unwrap();
    dao.vote(id, Vote::Yes, &acct("alice"), 0).unwrap();
    let id = dao
        .add_proposal(input("carol", ProposalType::Payout { amount: 5 }), acct("dan"), 1, 0)
        .unwrap();
    assert_eq!(dao.vote(id, Vote::Yes, &acct("bob"), 0), Ok(vec![pay("dan", 1), pay("carol", 5)]));
}

#[test]
fn just_under_half_the_weight_is_not_enough() {
    let mut dao = DAO::new(acct("treasury"), 1, 1000, 0, acct("alice"), 51);
    let id = dao
        .add_proposal(input("bob", ProposalType::NewCouncil { amount: 49 }), acct("alice"), 1, 0)
        .unwrap();
    dao.vote(id, Vote::Yes, &acct("alice"), 0).unwrap();
    let id = dao
        .add_proposal(input("carol", ProposalType::Payout { amount: 5 }), acct("dan"), 1, 0)
        .unwrap();
    assert_eq!(dao.vote(id, Vote::Yes, &acct("bob"), 0), Ok(vec![]));
    assert_eq!(status_of(&dao, id), ProposalStatus::Vote);
}

#[test]
fn no_votes_count_for_nothing() {
    let mut dao = two_member_dao();
    let id = dao
        .add_proposal(input("carol", ProposalType::Payout { amount: 5 }), acct("dan"), 10, 0)
        .unwrap();
    assert_eq!(dao.vote(id, Vote::No, &acct("alice"), 0), Ok(vec![]));
    assert_eq!(dao.vote(id, Vote::No, &acct("bob"), 0), Ok(vec![]));
    assert_eq!(status_of(&dao, id), ProposalStatus::Vote);
    assert_eq!(dao.finalized(id, 1001), Ok(vec![pay("dan", 10)]));
    assert_eq!(status_of(&dao, id), ProposalStatus::Fail);
}

#[test]
fn council_without_stake_never_reaches_consensus() {
    let mut dao = DAO::new(acct("treasury"), 1, 1000, 0, acct("alice"), 0);
    let id = dao
        .add_proposal(input("carol", ProposalType::Payout { amount: 5 }), acct("dan"), 1, 0)
        .unwrap();
    assert_eq!(dao.vote(id, Vote::Yes, &acct("alice"), 0), Ok(vec![]));
    assert_eq!(dao.finalized(id, 1001), Ok(vec![pay("dan", 1)]));
    assert_eq!(status_of(&dao, id), ProposalStatus::Fail);
}

#[test]
fn majority_counts_even_after_the_deadline() {
    let mut dao = two_member_dao();
    let id = dao
        .add_proposal(input("carol", ProposalType::Payout { amount: 5 }), acct("dan"), 10, 0)
        .unwrap();
    assert_eq!(dao.vote(id, Vote::Yes, &acct("bob"), 0), Ok(vec![]));
    let out = dao.add_proposal(input("alice", ProposalType::DeleteCouncil), acct("dan"), 10, 0).unwrap();
    dao.vote(out, Vote::Yes, &acct("alice"), 0).unwrap();
    assert_eq!(dao.finalized(id, 5000), Ok(vec![pay("dan", 10), pay("carol", 5)]));
    assert_eq!(status_of(&dao, id), ProposalStatus::Success);
}

#[test]
fn admitting_a_member_twice_is_rejected_whole() {
    let mut dao = two_member_dao();
    let id = dao
        .add_proposal(input("bob", ProposalType::NewCouncil { amount: 5 }), acct("dan"), 10, 0)
        .unwrap();
    let before = dao.clone();
    assert_eq!(dao.vote(id, Vote::Yes, &acct("alice"), 0), Err(DaoError::DuplicateMember));
    assert_eq!(dao.clone(), before);
    assert!(dao.proposals().get(id).unwrap().votes().is_empty());
    assert_eq!(status_of(&dao, id), ProposalStatus::Vote);
}

#[test]
fn removing_a_stranger_is_rejected_whole() {
    let mut dao = two_member_dao();
    let id = dao.add_proposal(input("zed", ProposalType::DeleteCouncil), acct("dan"), 10, 0).unwrap();
    let before = dao.clone();
    assert_eq!(dao.vote(id, Vote::Yes, &acct("alice"), 0), Err(DaoError::NotFound));
    assert_eq!(dao.clone(), before);
    assert_eq!(dao.vote(id, Vote::Yes, &acct("bob"), 0), Ok(vec![]));
    // after the deadline without a majority the proposal fails, and no removal is tried
    assert_eq!(dao.finalized(id, 1001), Ok(vec![pay("dan", 10)]));
    assert_eq!(status_of(&dao, id), ProposalStatus::Fail);
}

#[test]
fn can_admit_tells_when_the_stake_would_overflow() {
    let mut dao = two_member_dao();
    let fits = dao
        .add_proposal(
            input("carol", ProposalType::NewCouncil { amount: u128::MAX - 100 }),
            acct("dan"),
            10,
            0,
        )
        .unwrap();
    let too_much = dao
        .add_proposal(
            input("erin", ProposalType::NewCouncil { amount: u128::MAX - 99 }),
            acct("dan"),
            10,
            0,
        )
        .unwrap();
    let payout = dao
        .add_proposal(input("carol", ProposalType::Payout { amount: u128::MAX }), acct("dan"), 10, 0)
        .unwrap();
    assert!(dao.can_admit(fits));
    assert!(!dao.can_admit(too_much));
    assert!(dao.can_admit(payout));
    assert!(dao.can_admit(77));
    assert_eq!(dao.vote(fits, Vote::Yes, &acct("alice"), 0), Ok(vec![pay("dan", 10)]));
    assert_eq!(dao.council().total_locked(), u128::MAX);
    assert_eq!(weight_of(&dao, "carol"), Weight { numerator: u128::MAX - 100, denominator: u128::MAX });
}

#[test]
fn proposals_are_found_by_status() {
    let mut dao = two_member_dao();
    let open = dao
        .add_proposal(input("carol", ProposalType::Payout { amount: 5 }), acct("dan"), 10, 0)
        .unwrap();
    let failed = dao
        .add_proposal(input("carol", ProposalType::Payout { amount: 6 }), acct("dan"), 10, 0)
        .unwrap();
    dao.vote(open, Vote::Yes, &acct("bob"), 0).unwrap();
    let late = dao
        .add_proposal(input("carol", ProposalType::Payout { amount: 7 }), acct("dan"), 10, 500)
        .unwrap();
    // closes `failed` only: `open` is not touched by a call on another index
    dao.finalized(failed, 1001).unwrap();

    let voting = dao.get_proposals_by_status(ProposalStatus::Vote);
    let mut keys: Vec<u64> = voting.keys().copied().collect();
    keys.sort();
    assert_eq!(keys, vec![open, late]);
    assert_eq!(voting[&open], *dao.proposals().get(open).unwrap());
    assert_eq!(voting[&open].votes().len(), 1);
    assert_eq!(voting[&late].get_amount(), Some(7));

    let succeeded = dao.get_proposals_by_status(ProposalStatus::Success);
    assert_eq!(succeeded.len(), 1);
    assert_eq!(succeeded[&0].kind(), ProposalType::NewCouncil { amount: 40 });

    let lost = dao.get_proposals_by_status(ProposalStatus::Fail);
    assert_eq!(lost.len(), 1);
    assert_eq!(lost[&failed].get_amount(), Some(6));
}

#[test]
fn a_call_on_one_proposal_leaves_the_others_alone() {
    let mut dao = two_member_dao();
    let a = dao
        .add_proposal(input("carol", ProposalType::Payout { amount: 5 }), acct("dan"), 10, 0)
        .unwrap();
    let b = dao
        .add_proposal(input("carol", ProposalType::Payout { amount: 6 }), acct("dan"), 10, 0)
        .unwrap();
    let closed = dao.proposals().get(0).unwrap().clone();
    let first = dao.proposals().get(a).unwrap().clone();
    dao.vote(b, Vote::Yes, &acct("alice"), 0).unwrap();
    assert_eq!(*dao.proposals().get(0).unwrap(), closed);
    assert_eq!(*dao.proposals().get(a).unwrap(), first);
}
