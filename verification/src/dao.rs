//! The governance engine: configuration, council and proposals, and the calls
//! that open a proposal, vote on it and close it.
//!
//! Each call is stated against a model of the whole state, `DaoView`: a spec
//! function gives the state and the transfers that the call must end with, or
//! the error it must fail with. A call that fails leaves the state as it was.

use std::collections::HashMap;
use vstd::prelude::*;
use crate::council::{
    distinct_accounts, is_member, lemma_total_stake_push, member_index, recomputed, total_stake,
    weights_current, Council, CouncilRegistry, CouncilView,
};
use crate::proposal::{
    evaluate, has_voted, with_ballot, with_status, BallotView, Proposal, ProposalInput,
    ProposalView,
};
use crate::store::{all_ledgers_distinct, same_subject, ProposalStore};
use crate::types::{
    transfers_view, DaoError, ProposalStatus, ProposalType, Transfer, TransferView, Vote, Weight,
};

verus! {

/// The engine's state: what was fixed at construction, the council registry
/// and the proposal store.
#[derive(Debug, PartialEq, Eq)]
pub struct DAO {
    purpose: String,
    bond: u128,
    vote_period: u64,
    grace_period: u64,
    council: CouncilRegistry,
    proposals: ProposalStore,
}

/// The state as plain mathematical values.
pub struct DaoView {
    pub purpose: Seq<char>,
    pub bond: u128,
    pub vote_period: u64,
    pub grace_period: u64,
    pub council: Seq<CouncilView>,
    pub proposals: Seq<ProposalView>,
}

/// What a successful call leaves behind: the state after it, and the transfers
/// to carry out, in order.
pub struct Step {
    pub after: DaoView,
    pub transfers: Seq<TransferView>,
}

impl View for DAO {
    type V = DaoView;

    closed spec fn view(&self) -> DaoView {
        DaoView {
            purpose: self.purpose@,
            bond: self.bond,
            vote_period: self.vote_period,
            grace_period: self.grace_period,
            council: self.council@,
            proposals: self.proposals@,
        }
    }
}

/// A state that the engine can be in: no account is a member twice, the total
/// stake fits in a `u128`, every weight is current, and no ledger holds two
/// ballots of one account.
pub open spec fn valid(d: DaoView) -> bool {
    &&& distinct_accounts(d.council)
    &&& total_stake(d.council) <= u128::MAX
    &&& weights_current(d.council)
    &&& all_ledgers_distinct(d.proposals)
}

/// The stake that proposal `id` would admit, if it is an admission, fits
/// beside the council's total stake in a `u128`.
pub open spec fn admission_fits(d: DaoView, id: u64) -> bool {
    id < d.proposals.len() ==> (d.proposals[id as int].kind matches ProposalType::NewCouncil {
        amount,
    } ==> total_stake(d.council) + amount <= u128::MAX)
}

/// The bond going back to the proposer of `p`.
pub open spec fn refund(d: DaoView, p: ProposalView) -> TransferView {
    TransferView { to: p.proposer, amount: d.bond }
}

/// The council after `account` has joined with the stake `amount` and the
/// weights have been recomputed.
pub open spec fn council_with(ms: Seq<CouncilView>, account: Seq<char>, amount: u128) -> Seq<
    CouncilView,
> {
    recomputed(
        ms.push(CouncilView { account, weight: Weight::spec_zero(), locked_tokens: amount }),
    )
}

/// The council after the member with the account `account` has left and the
/// weights have been recomputed.
pub open spec fn council_without(ms: Seq<CouncilView>, account: Seq<char>) -> Seq<CouncilView> {
    recomputed(ms.remove(member_index(ms, account)))
}

/// Closes proposal `id`, whose content is `p`, with the status `status`.
///
/// The bond goes back to the proposer whatever the outcome. On `Success` the
/// action is carried out: an admission adds the receiver to the council, a
/// removal takes it out and hands its stake back, a payout pays the receiver.
/// `Vote` is no outcome (`NotReady`); admitting a member (`DuplicateMember`)
/// or removing an account that is none (`NotFound`) fails.
pub open spec fn settle(d: DaoView, id: int, p: ProposalView, status: ProposalStatus) -> Result<
    Step,
    DaoError,
> {
    let closed = d.proposals.update(id, with_status(p, status));
    match status {
        ProposalStatus::Vote => Err(DaoError::NotReady),
        ProposalStatus::Fail => Ok(
            Step { after: DaoView { proposals: closed, ..d }, transfers: seq![refund(d, p)] },
        ),
        ProposalStatus::Success => match p.kind {
            ProposalType::NewCouncil { amount } => if is_member(d.council, p.receiver) {
                Err(DaoError::DuplicateMember)
            } else {
                Ok(
                    Step {
                        after: DaoView {
                            council: council_with(d.council, p.receiver, amount),
                            proposals: closed,
                            ..d
                        },
                        transfers: seq![refund(d, p)],
                    },
                )
            },
            ProposalType::DeleteCouncil => if !is_member(d.council, p.receiver) {
                Err(DaoError::NotFound)
            } else {
                let leaving = d.council[member_index(d.council, p.receiver)];
                Ok(
                    Step {
                        after: DaoView {
                            council: council_without(d.council, p.receiver),
                            proposals: closed,
                            ..d
                        },
                        transfers: seq![
                            refund(d, p),
                            TransferView { to: leaving.account, amount: leaving.locked_tokens },
                        ],
                    },
                )
            },
            ProposalType::Payout { amount } => Ok(
                Step {
                    after: DaoView { proposals: closed, ..d },
                    transfers: seq![refund(d, p), TransferView { to: p.receiver, amount }],
                },
            ),
        },
    }
}

/// What `finalized` must do in the state `d` at time `now`.
pub open spec fn finalize_step(d: DaoView, id: u64, now: u64) -> Result<Step, DaoError> {
    if id >= d.proposals.len() {
        Err(DaoError::NotFound)
    } else if d.proposals[id as int].status.finalized() {
        Err(DaoError::AlreadyFinalized)
    } else {
        let p = d.proposals[id as int];
        settle(d, id as int, p, evaluate(p, d.council, now))
    }
}

/// What `vote` must do in the state `d` at time `now`, for the caller `voter`.
pub open spec fn vote_step(d: DaoView, id: u64, voter: Seq<char>, choice: Vote, now: u64) -> Result<
    Step,
    DaoError,
> {
    if !is_member(d.council, voter) {
        Err(DaoError::NotCouncilMember)
    } else if id >= d.proposals.len() {
        Err(DaoError::NotFound)
    } else if d.proposals[id as int].status.finalized() {
        Err(DaoError::AlreadyFinalized)
    } else if now > d.proposals[id as int].vote_period_end {
        finalize_step(d, id, now)
    } else if has_voted(d.proposals[id as int].votes, voter) {
        Err(DaoError::DuplicateVote)
    } else {
        let p = with_ballot(d.proposals[id as int], voter, choice);
        let status = evaluate(p, d.council, now);
        if status.finalized() {
            settle(d, id as int, p, status)
        } else {
            Ok(
                Step {
                    after: DaoView { proposals: d.proposals.update(id as int, p), ..d },
                    transfers: Seq::<TransferView>::empty(),
                },
            )
        }
    }
}

/// The proposal that `add_proposal` stores.
pub open spec fn opened(
    d: DaoView,
    target: Seq<char>,
    description: Seq<char>,
    kind: ProposalType,
    proposer: Seq<char>,
    now: u64,
) -> ProposalView {
    ProposalView {
        status: ProposalStatus::Vote,
        proposer,
        receiver: target,
        description,
        kind,
        vote_period_end: (now + d.vote_period) as u64,
        votes: Seq::<BallotView>::empty(),
    }
}

impl DAO {
    /// The state is one that the engine can be in.
    pub open spec fn wf(&self) -> bool {
        valid(self@)
    }

    /// Sets the engine up with its configuration and `owner` as the first
    /// council member, `deposit` being its locked stake.
    pub fn new(
        purpose: String,
        bond: u128,
        vote_period: u64,
        grace_period: u64,
        owner: String,
        deposit: u128,
    ) -> (dao: DAO)
        ensures
            dao.wf(),
            dao@ == (DaoView {
                purpose: purpose@,
                bond,
                vote_period,
                grace_period,
                council: seq![
                    CouncilView {
                        account: owner@,
                        weight: Weight::share(deposit, deposit),
                        locked_tokens: deposit,
                    },
                ],
                proposals: Seq::<ProposalView>::empty(),
            }),
    {
        let mut council = CouncilRegistry::new();
        let ghost first = CouncilView {
            account: owner@,
            weight: Weight::spec_zero(),
            locked_tokens: deposit,
        };
        proof {
            lemma_total_stake_push(Seq::<CouncilView>::empty(), first);
        }
        let _ = council.insert(Council::new(owner, deposit));
        council.recompute_weights();
        let dao = DAO {
            purpose,
            bond,
            vote_period,
            grace_period,
            council,
            proposals: ProposalStore::new(),
        };
        proof {
            let one = Seq::<CouncilView>::empty().push(first);
            assert(total_stake(one) == deposit);
            assert(dao@.council =~= seq![
                CouncilView {
                    account: owner@,
                    weight: Weight::share(deposit, deposit),
                    locked_tokens: deposit,
                },
            ]);
        }
        dao
    }

    /// Puts an engine back together from its configuration, a council and a
    /// store of proposals, as a host does that keeps the state between calls.
    /// The weights are recomputed, so a council whose weights were current
    /// comes back unchanged.
    pub fn restore(
        purpose: String,
        bond: u128,
        vote_period: u64,
        grace_period: u64,
        council: CouncilRegistry,
        proposals: ProposalStore,
    ) -> (dao: DAO)
        requires
            council.wf(),
            proposals.wf(),
        ensures
            dao.wf(),
            dao@ == (DaoView {
                purpose: purpose@,
                bond,
                vote_period,
                grace_period,
                council: recomputed(council@),
                proposals: proposals@,
            }),
    {
        let mut council = council;
        council.recompute_weights();
        DAO { purpose, bond, vote_period, grace_period, council, proposals }
    }

    /// What the engine is for.
    pub fn purpose(&self) -> (p: &String)
        ensures
            p@ == self@.purpose,
    {
        &self.purpose
    }

    /// The deposit that opening a proposal takes, handed back when it closes.
    pub fn bond(&self) -> (b: u128)
        ensures
            b == self@.bond,
    {
        self.bond
    }

    /// How long a proposal stays open for voting.
    pub fn vote_period(&self) -> (t: u64)
        ensures
            t == self@.vote_period,
    {
        self.vote_period
    }

    /// The grace period given at construction. No rule of the engine reads it.
    pub fn grace_period(&self) -> (t: u64)
        ensures
            t == self@.grace_period,
    {
        self.grace_period
    }

    /// The council registry.
    pub fn council(&self) -> (c: &CouncilRegistry)
        ensures
            c@ == self@.council,
    {
        &self.council
    }

    /// The proposal store.
    pub fn proposals(&self) -> (s: &ProposalStore)
        ensures
            s@ == self@.proposals,
    {
        &self.proposals
    }

    /// Tells whether the stake that proposal `id` would admit fits beside the
    /// council's total stake, which `vote` and `finalized` ask for.
    pub fn can_admit(&self, id: u64) -> (b: bool)
        requires
            self.wf(),
        ensures
            b == admission_fits(self@, id),
    {
        match self.proposals.get(id) {
            Err(_) => true,
            Ok(p) => match p.kind() {
                ProposalType::NewCouncil { amount } => {
                    let total = self.council.total_locked();
                    amount <= u128::MAX - total
                },
                _ => true,
            },
        }
    }

    /// Opens a proposal on behalf of `proposer`, who attached `deposit`, and
    /// returns its index. Voting on it ends at `now + vote_period`. A deposit
    /// below the bond is rejected with `InsufficientBond`.
    pub fn add_proposal(
        &mut self,
        proposal: ProposalInput,
        proposer: String,
        deposit: u128,
        now: u64,
    ) -> (r: Result<u64, DaoError>)
        requires
            old(self).wf(),
            now + old(self)@.vote_period <= u64::MAX,
        ensures
            final(self).wf(),
            deposit < old(self)@.bond ==> r == Err::<u64, DaoError>(DaoError::InsufficientBond)
                && final(self)@ == old(self)@,
            deposit >= old(self)@.bond ==> r == Ok::<u64, DaoError>(
                old(self)@.proposals.len() as u64,
            ) && final(self)@ == (DaoView {
                proposals: old(self)@.proposals.push(
                    opened(
                        old(self)@,
                        proposal.target@,
                        proposal.description@,
                        proposal.kind,
                        proposer@,
                        now,
                    ),
                ),
                ..old(self)@
            }),
    {
        if deposit < self.bond {
            return Err(DaoError::InsufficientBond);
        }
        let p = Proposal::new(
            proposer,
            proposal.target,
            proposal.description,
            proposal.kind,
            now + self.vote_period,
        );
        let index = self.proposals.append(p);
        Ok(index)
    }

    /// Every proposal whose status is `status`, by index.
    pub fn get_proposals_by_status(&self, status: ProposalStatus) -> (m: HashMap<u64, Proposal>)
        requires
            self.wf(),
        ensures
            forall|k: u64|
                m@.contains_key(k) <==> (k < self@.proposals.len() && self@.proposals[k as int].status
                    == status),
            forall|k: u64| m@.contains_key(k) ==> (#[trigger] m@[k])@ == self@.proposals[k as int],
    {
        self.proposals.filter_by_status(status)
    }

    /// Closes proposal `id` with `status`, storing `p` in its place, and
    /// returns the transfers that this takes. Every check comes before the
    /// first write.
    fn settle(&mut self, id: u64, p: Proposal, status: ProposalStatus) -> (r: Result<
        Vec<Transfer>,
        DaoError,
    >)
        requires
            old(self).wf(),
            p.wf(),
            id < old(self)@.proposals.len(),
            !p@.status.finalized(),
            same_subject(old(self)@.proposals[id as int], p@),
            admission_fits(old(self)@, id),
        ensures
            final(self).wf(),
            match r {
                Ok(ts) => settle(old(self)@, id as int, p@, status) == Ok::<Step, DaoError>(
                    Step { after: final(self)@, transfers: transfers_view(ts@) },
                ),
                Err(e) => settle(old(self)@, id as int, p@, status) == Err::<Step, DaoError>(e)
                    && final(self)@ == old(self)@,
            },
    {
        let ghost before = self@;
        let ghost content = p@;
        if !status.is_finalized() {
            return Err(DaoError::NotReady);
        }
        let mut p = p;
        let mut transfers: Vec<Transfer> = Vec::new();
        transfers.push(Transfer { to: p.proposer().clone(), amount: self.bond });
        if status == ProposalStatus::Success {
            match p.kind() {
                ProposalType::NewCouncil { amount } => {
                    if self.council.contains(p.receiver()) {
                        return Err(DaoError::DuplicateMember);
                    }
                    let _ = self.council.insert(Council::new(p.receiver().clone(), amount));
                    proof {
                        lemma_total_stake_push(
                            before.council,
                            CouncilView {
                                account: p@.receiver,
                                weight: Weight::spec_zero(),
                                locked_tokens: amount,
                            },
                        );
                    }
                    self.council.recompute_weights();
                },
                ProposalType::DeleteCouncil => {
                    match self.council.remove(p.receiver()) {
                        Err(_) => {
                            return Err(DaoError::NotFound);
                        },
                        Ok(m) => {
                            transfers.push(
                                Transfer { to: m.account().clone(), amount: m.locked_tokens() },
                            );
                            self.council.recompute_weights();
                        },
                    }
                },
                ProposalType::Payout { amount } => {
                    transfers.push(Transfer { to: p.receiver().clone(), amount });
                },
            }
        }
        let _ = p.conclude(status);
        let _ = self.proposals.replace(id, p);
        proof {
            let expected = settle(before, id as int, content, status);
            assert(expected is Ok);
            assert(transfers_view(transfers@) =~= expected->Ok_0.transfers);
            assert(self@.council =~= expected->Ok_0.after.council);
            assert(self@.proposals =~= expected->Ok_0.after.proposals);
        }
        Ok(transfers)
    }

    /// Closes proposal `id` at time `now` and returns the transfers to carry
    /// out: the bond back to the proposer and, on success, what the action
    /// pays. Fails with `NotFound` for an unknown index, `AlreadyFinalized`
    /// for a closed proposal, `NotReady` while it has neither a majority nor a
    /// passed deadline, and with the action's own error where it cannot be
    /// carried out.
    pub fn finalized(&mut self, id: u64, now: u64) -> (r: Result<Vec<Transfer>, DaoError>)
        requires
            old(self).wf(),
            admission_fits(old(self)@, id),
        ensures
            final(self).wf(),
            match r {
                Ok(ts) => finalize_step(old(self)@, id, now) == Ok::<Step, DaoError>(
                    Step { after: final(self)@, transfers: transfers_view(ts@) },
                ),
                Err(e) => finalize_step(old(self)@, id, now) == Err::<Step, DaoError>(e)
                    && final(self)@ == old(self)@,
            },
            id < old(self)@.proposals.len() && old(self)@.proposals[id as int].status.finalized()
                ==> r == Err::<Vec<Transfer>, DaoError>(DaoError::AlreadyFinalized),
    {
        let p = match self.proposals.get(id) {
            Err(_) => {
                return Err(DaoError::NotFound);
            },
            Ok(stored) => stored.clone(),
        };
        if p.status().is_finalized() {
            return Err(DaoError::AlreadyFinalized);
        }
        let status = p.vote_status(&self.council, now);
        self.settle(id, p, status)
    }

    /// Casts the ballot `vote` of `voter` on proposal `id` at time `now`.
    ///
    /// Only a council member may vote (`NotCouncilMember`), on a stored
    /// (`NotFound`) proposal that is still open (`AlreadyFinalized`). After the
    /// deadline the ballot is not recorded and the proposal is closed instead.
    /// A member votes once (`DuplicateVote`). Where the ballot decides the
    /// proposal, it is closed at once. Returns the transfers to carry out,
    /// none while the proposal stays open.
    pub fn vote(&mut self, id: u64, vote: Vote, voter: &String, now: u64) -> (r: Result<
        Vec<Transfer>,
        DaoError,
    >)
        requires
            old(self).wf(),
            admission_fits(old(self)@, id),
        ensures
            final(self).wf(),
            match r {
                Ok(ts) => vote_step(old(self)@, id, voter@, vote, now) == Ok::<Step, DaoError>(
                    Step { after: final(self)@, transfers: transfers_view(ts@) },
                ),
                Err(e) => vote_step(old(self)@, id, voter@, vote, now) == Err::<Step, DaoError>(e)
                    && final(self)@ == old(self)@,
            },
            !is_member(old(self)@.council, voter@) ==> r == Err::<Vec<Transfer>, DaoError>(
                DaoError::NotCouncilMember,
            ) && final(self)@ == old(self)@,
            is_member(old(self)@.council, voter@) && id < old(self)@.proposals.len() && old(
                self,
            )@.proposals[id as int].status.finalized() ==> r == Err::<Vec<Transfer>, DaoError>(
                DaoError::AlreadyFinalized,
            ),
    {
        let ghost before = self@;
        if !self.council.contains(voter) {
            return Err(DaoError::NotCouncilMember);
        }
        let mut p = match self.proposals.get(id) {
            Err(_) => {
                return Err(DaoError::NotFound);
            },
            Ok(stored) => stored.clone(),
        };
        if p.status().is_finalized() {
            return Err(DaoError::AlreadyFinalized);
        }
        if now > p.vote_period_end() {
            return self.finalized(id, now);
        }
        match p.record_vote(voter.clone(), vote) {
            Err(e) => {
                return Err(e);
            },
            Ok(()) => {},
        }
        let status = p.vote_status(&self.council, now);
        if status.is_finalized() {
            self.settle(id, p, status)
        } else {
            let _ = self.proposals.replace(id, p);
            let transfers: Vec<Transfer> = Vec::new();
            proof {
                let expected = vote_step(before, id, voter@, vote, now);
                assert(expected is Ok);
                assert(transfers_view(transfers@) =~= expected->Ok_0.transfers);
                assert(self@.proposals =~= expected->Ok_0.after.proposals);
            }
            Ok(transfers)
        }
    }
}

impl Clone for DAO {
    /// A copy in the same state.
    fn clone(&self) -> (d: DAO)
        ensures
            d@ == self@,
    {
        DAO {
            purpose: self.purpose.clone(),
            bond: self.bond,
            vote_period: self.vote_period,
            grace_period: self.grace_period,
            council: self.council.clone(),
            proposals: self.proposals.clone(),
        }
    }
}

} // verus!
