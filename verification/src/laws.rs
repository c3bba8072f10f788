//! Laws of the engine, proved over the model that the calls are stated in.

use vstd::prelude::*;
use crate::council::{
    distinct_accounts, is_member, lemma_current_weights_sum_to_one, lemma_recomputed_is_current,
    lemma_total_stake_push, lemma_total_stake_remove, member_index, recomputed, total_stake,
    weights_all_zero, weights_current, weights_sum_to_one, CouncilView,
};
use crate::dao::{
    admission_fits, finalize_step, refund, settle, valid, vote_step, DaoView, Step,
};
use crate::proposal::{distinct_voters, evaluate, has_voted, with_ballot, ProposalView};
use crate::store::same_subject;
use crate::types::{DaoError, ProposalStatus, ProposalType, Vote, Weight};

verus! {

/// After the weights of any council have been recomputed, they add up to one
/// where the council holds any stake, and to zero where it holds none.
pub proof fn lemma_recomputed_weights_sum_to_one(ms: Seq<CouncilView>)
    requires
        total_stake(ms) <= u128::MAX,
    ensures
        total_stake(ms) > 0 ==> weights_sum_to_one(recomputed(ms)),
        total_stake(ms) == 0 ==> weights_all_zero(recomputed(ms)),
        ms.len() == 0 ==> weights_all_zero(recomputed(ms)),
{
    lemma_recomputed_is_current(ms);
    lemma_current_weights_sum_to_one(recomputed(ms));
    if ms.len() == 0 {
        assert(total_stake(ms) == 0);
    }
}

/// In every state that the engine can be in, the council's weights add up to
/// one where it holds any stake, and are all zero where it holds none.
pub proof fn lemma_valid_state_weights_sum_to_one(d: DaoView)
    requires
        valid(d),
    ensures
        total_stake(d.council) > 0 ==> weights_sum_to_one(d.council),
        total_stake(d.council) == 0 ==> weights_all_zero(d.council),
{
    lemma_current_weights_sum_to_one(d.council);
}

/// Closing a proposal leads from one state that the engine can be in to
/// another, where the proposal written back holds no account's ballot twice
/// and the stake that it admits, if any, fits beside the council's total.
pub proof fn lemma_settle_keeps_state_valid(
    d: DaoView,
    id: int,
    p: ProposalView,
    status: ProposalStatus,
)
    requires
        valid(d),
        0 <= id < d.proposals.len(),
        distinct_voters(p.votes),
        p.kind matches ProposalType::NewCouncil { amount } ==> total_stake(d.council) + amount
            <= u128::MAX,
    ensures
        settle(d, id, p, status) matches Ok(s) ==> valid(s.after),
{
    if settle(d, id, p, status) is Ok && status == ProposalStatus::Success {
        match p.kind {
            ProposalType::NewCouncil { amount } => {
                let joining = CouncilView {
                    account: p.receiver,
                    weight: Weight::spec_zero(),
                    locked_tokens: amount,
                };
                let grown = d.council.push(joining);
                lemma_total_stake_push(d.council, joining);
                assert(distinct_accounts(grown)) by {
                    assert forall|i: int, j: int| 0 <= i < j < grown.len() implies (
                    #[trigger] grown[i]).account != (#[trigger] grown[j]).account by {
                        if j == d.council.len() {
                            assert(d.council[i].account != p.receiver);
                        }
                    }
                }
                lemma_recomputed_is_current(grown);
            },
            ProposalType::DeleteCouncil => {
                let at = member_index(d.council, p.receiver);
                let shrunk = d.council.remove(at);
                lemma_total_stake_remove(d.council, at);
                assert(distinct_accounts(shrunk)) by {
                    assert forall|i: int, j: int| 0 <= i < j < shrunk.len() implies (
                    #[trigger] shrunk[i]).account != (#[trigger] shrunk[j]).account by {
                        let oi = if i < at { i } else { i + 1 };
                        let oj = if j < at { j } else { j + 1 };
                        assert(shrunk[i] == d.council[oi]);
                        assert(shrunk[j] == d.council[oj]);
                    }
                }
                lemma_recomputed_is_current(shrunk);
            },
            ProposalType::Payout { .. } => {},
        }
    }
}

/// Every call leads from one state that the engine can be in to another:
/// after a vote or a closing that succeeds, no account is a member twice, the
/// weights are current and so add up to one, and no ledger holds two ballots
/// of one account.
pub proof fn lemma_steps_keep_state_valid(
    d: DaoView,
    id: u64,
    voter: Seq<char>,
    choice: Vote,
    now: u64,
)
    requires
        valid(d),
        admission_fits(d, id),
    ensures
        finalize_step(d, id, now) matches Ok(s) ==> valid(s.after),
        vote_step(d, id, voter, choice, now) matches Ok(s) ==> valid(s.after),
{
    if id < d.proposals.len() {
        let p = d.proposals[id as int];
        lemma_settle_keeps_state_valid(d, id as int, p, evaluate(p, d.council, now));
        if !has_voted(p.votes, voter) {
            let q = with_ballot(p, voter, choice);
            assert(distinct_voters(q.votes)) by {
                assert forall|i: int, j: int| 0 <= i < j < q.votes.len() implies (
                #[trigger] q.votes[i]).voter != (#[trigger] q.votes[j]).voter by {
                    if j == p.votes.len() {
                        assert(p.votes[i].voter != voter);
                    }
                }
            }
            lemma_settle_keeps_state_valid(d, id as int, q, evaluate(q, d.council, now));
        }
    }
}

/// No call takes a proposal out of the store or gives an index a new
/// subject: after a vote or a closing that succeeds, the store is as long as
/// before, and every proposal has the proposer, receiver, description, action
/// and deadline that it had.
pub proof fn lemma_proposals_keep_their_index(
    d: DaoView,
    id: u64,
    voter: Seq<char>,
    choice: Vote,
    now: u64,
    k: int,
)
    requires
        0 <= k < d.proposals.len(),
    ensures
        finalize_step(d, id, now) matches Ok(s) ==> s.after.proposals.len()
            == d.proposals.len() && same_subject(d.proposals[k], s.after.proposals[k]),
        vote_step(d, id, voter, choice, now) matches Ok(s) ==> s.after.proposals.len()
            == d.proposals.len() && same_subject(d.proposals[k], s.after.proposals[k]),
{
}

/// Recomputing weights that are current changes nothing.
pub proof fn lemma_recompute_is_idempotent(ms: Seq<CouncilView>)
    requires
        weights_current(ms),
    ensures
        recomputed(ms) == ms,
        recomputed(recomputed(ms)) == recomputed(ms),
{
    assert(recomputed(ms) =~= ms);
}

/// A closed proposal stays as it is. Closing it again fails with
/// `AlreadyFinalized`, and so does a member's vote on it; a vote by anyone
/// else fails with `NotCouncilMember`. A call on another proposal, where it
/// succeeds, leaves the closed one untouched.
pub proof fn lemma_final_status_is_permanent(
    d: DaoView,
    id: u64,
    other: u64,
    voter: Seq<char>,
    choice: Vote,
    now: u64,
)
    requires
        id < d.proposals.len(),
        d.proposals[id as int].status.finalized(),
    ensures
        finalize_step(d, id, now) == Err::<Step, DaoError>(DaoError::AlreadyFinalized),
        is_member(d.council, voter) ==> vote_step(d, id, voter, choice, now) == Err::<
            Step,
            DaoError,
        >(DaoError::AlreadyFinalized),
        !is_member(d.council, voter) ==> vote_step(d, id, voter, choice, now) == Err::<
            Step,
            DaoError,
        >(DaoError::NotCouncilMember),
        finalize_step(d, other, now) matches Ok(s) ==> s.after.proposals.len()
            == d.proposals.len() && s.after.proposals[id as int] == d.proposals[id as int],
        vote_step(d, other, voter, choice, now) matches Ok(s) ==> s.after.proposals.len()
            == d.proposals.len() && s.after.proposals[id as int] == d.proposals[id as int],
{
}

/// Closing a proposal happens once. Where `finalized` succeeds, the proposal
/// is left with a final status, the bond goes back to the proposer exactly
/// once, at most one more transfer is asked for, and closing the proposal
/// again, at any later time, fails with `AlreadyFinalized`.
pub proof fn lemma_finalize_happens_once(d: DaoView, id: u64, now: u64, later: u64)
    requires
        finalize_step(d, id, now) is Ok,
    ensures
        ({
            let s = finalize_step(d, id, now)->Ok_0;
            let p = d.proposals[id as int];
            let status = evaluate(p, d.council, now);
            &&& id < d.proposals.len()
            &&& status.finalized()
            &&& s.after.proposals[id as int].status == status
            &&& s.transfers[0] == refund(d, p)
            &&& s.transfers.len() == (if status == ProposalStatus::Success && !(p.kind
                is NewCouncil) {
                2nat
            } else {
                1nat
            })
            &&& finalize_step(s.after, id, later) == Err::<Step, DaoError>(
                DaoError::AlreadyFinalized,
            )
        }),
{
}

/// A vote that decides a proposal closes it for good: closing it again fails
/// with `AlreadyFinalized`. A vote that does not decide it asks for no
/// transfer.
pub proof fn lemma_deciding_vote_closes_once(
    d: DaoView,
    id: u64,
    voter: Seq<char>,
    choice: Vote,
    now: u64,
    later: u64,
)
    requires
        vote_step(d, id, voter, choice, now) is Ok,
    ensures
        ({
            let s = vote_step(d, id, voter, choice, now)->Ok_0;
            &&& id < d.proposals.len()
            &&& s.after.proposals[id as int].status.finalized() ==> finalize_step(
                s.after,
                id,
                later,
            ) == Err::<Step, DaoError>(DaoError::AlreadyFinalized)
            &&& !s.after.proposals[id as int].status.finalized() ==> s.transfers.len() == 0
        }),
{
}

/// Whoever is not a council member cannot vote: the call fails with
/// `NotCouncilMember`, whatever the proposal and the time.
pub proof fn lemma_outsider_cannot_vote(
    d: DaoView,
    id: u64,
    voter: Seq<char>,
    choice: Vote,
    now: u64,
)
    requires
        !is_member(d.council, voter),
    ensures
        vote_step(d, id, voter, choice, now) == Err::<Step, DaoError>(
            DaoError::NotCouncilMember,
        ),
{
}

/// A member votes once: after a vote that was recorded, a second vote of the
/// same member on the same proposal fails, with `DuplicateVote` while the
/// proposal is open before its deadline.
pub proof fn lemma_second_vote_rejected(
    d: DaoView,
    id: u64,
    voter: Seq<char>,
    first: Vote,
    second: Vote,
    now: u64,
    later: u64,
)
    requires
        valid(d),
        vote_step(d, id, voter, first, now) is Ok,
        now <= d.proposals[id as int].vote_period_end,
        later <= d.proposals[id as int].vote_period_end,
    ensures
        ({
            let s = vote_step(d, id, voter, first, now)->Ok_0;
            let again = vote_step(s.after, id, voter, second, later);
            &&& again is Err
            &&& !s.after.proposals[id as int].status.finalized() && is_member(
                s.after.council,
                voter,
            ) ==> again == Err::<Step, DaoError>(DaoError::DuplicateVote)
        }),
{
    let s = vote_step(d, id, voter, first, now)->Ok_0;
    let p = with_ballot(d.proposals[id as int], voter, first);
    let last = p.votes.len() - 1;
    assert(p.votes[last].voter == voter);
    let after = s.after.proposals[id as int];
    assert(after.votes == p.votes);
    if !after.status.finalized() && is_member(s.after.council, voter) {
        assert(after.votes[last].voter == voter);
    }
}

} // verus!
