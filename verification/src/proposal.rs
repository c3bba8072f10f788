//! A proposal, its vote ledger, and the tally that decides where it stands.

use vstd::prelude::*;
use crate::council::{
    lemma_total_stake_prefix, total_stake, weights_current, CouncilRegistry, CouncilView,
};
use crate::types::{DaoError, ProposalStatus, ProposalType, Vote, CONSENSUS_PERCENTAGE};

verus! {

/// One entry of a proposal's vote ledger: who voted, and how.
#[derive(Debug, PartialEq, Eq)]
pub struct Ballot {
    pub voter: String,
    pub choice: Vote,
}

impl Clone for Ballot {
    /// A copy that says the same as `self`.
    fn clone(&self) -> (b: Ballot)
        ensures
            b@ == self@,
    {
        Ballot { voter: self.voter.clone(), choice: self.choice }
    }
}

/// What a `Ballot` says, with the voter as a sequence of characters.
pub struct BallotView {
    pub voter: Seq<char>,
    pub choice: Vote,
}

impl View for Ballot {
    type V = BallotView;

    open spec fn view(&self) -> BallotView {
        BallotView { voter: self.voter@, choice: self.choice }
    }
}

/// What a caller hands in to open a proposal.
#[derive(Clone, Debug, PartialEq, Eq)]
pub struct ProposalInput {
    pub target: String,
    pub description: String,
    pub kind: ProposalType,
}

/// A governance action awaiting the council's decision.
#[derive(Debug, PartialEq, Eq)]
pub struct Proposal {
    status: ProposalStatus,
    proposer: String,
    receiver: String,
    description: String,
    kind: ProposalType,
    vote_period_end: u64,
    votes: Vec<Ballot>,
}

/// What a `Proposal` says: its fields, with text as sequences of characters
/// and the ledger as the sequence of ballots in the order they were cast.
pub struct ProposalView {
    pub status: ProposalStatus,
    pub proposer: Seq<char>,
    pub receiver: Seq<char>,
    pub description: Seq<char>,
    pub kind: ProposalType,
    pub vote_period_end: u64,
    pub votes: Seq<BallotView>,
}

impl View for Proposal {
    type V = ProposalView;

    closed spec fn view(&self) -> ProposalView {
        ProposalView {
            status: self.status,
            proposer: self.proposer@,
            receiver: self.receiver@,
            description: self.description@,
            kind: self.kind,
            vote_period_end: self.vote_period_end,
            votes: Seq::new(self.votes@.len(), |i: int| self.votes@[i]@),
        }
    }
}

/// The account `account` has a ballot in the ledger.
pub open spec fn has_voted(votes: Seq<BallotView>, account: Seq<char>) -> bool {
    exists|i: int| 0 <= i < votes.len() && (#[trigger] votes[i]).voter == account
}

/// The account `account` has a `Yes` ballot in the ledger.
pub open spec fn voted_yes(votes: Seq<BallotView>, account: Seq<char>) -> bool {
    exists|i: int|
        0 <= i < votes.len() && (#[trigger] votes[i]).voter == account && votes[i].choice
            == Vote::Yes
}

/// No account has two ballots.
pub open spec fn distinct_voters(votes: Seq<BallotView>) -> bool {
    forall|i: int, j: int|
        0 <= i < j < votes.len() ==> (#[trigger] votes[i]).voter != (#[trigger] votes[j]).voter
}

/// What member `m` adds to the "yes" side: the numerator of its weight if it
/// voted `Yes`, nothing if it voted `No` or not at all.
pub open spec fn yes_share(m: CouncilView, votes: Seq<BallotView>) -> nat {
    if voted_yes(votes, m.account) {
        m.weight.numerator as nat
    } else {
        0
    }
}

/// The summed weight of the members who voted `Yes`, as a numerator over the
/// council's total stake (the denominator that current weights share).
pub open spec fn yes_weight(ms: Seq<CouncilView>, votes: Seq<BallotView>) -> nat
    decreases ms.len(),
{
    if ms.len() == 0 {
        0
    } else {
        yes_weight(ms.drop_last(), votes) + yes_share(ms.last(), votes)
    }
}

/// The "yes" weight is at least `CONSENSUS_PERCENTAGE` percent of the whole:
/// `yes / total >= CONSENSUS_PERCENTAGE / 100`, with a council that holds stake.
pub open spec fn reaches_consensus(ms: Seq<CouncilView>, votes: Seq<BallotView>) -> bool {
    total_stake(ms) > 0 && 100 * yes_weight(ms, votes) >= CONSENSUS_PERCENTAGE * total_stake(ms)
}

/// Where the proposal stands at time `now` with the council `ms`: `Success`
/// once the "yes" weight reaches the threshold, else `Fail` once the deadline
/// has passed, else still `Vote`.
pub open spec fn evaluate(p: ProposalView, ms: Seq<CouncilView>, now: u64) -> ProposalStatus {
    if reaches_consensus(ms, p.votes) {
        ProposalStatus::Success
    } else if now > p.vote_period_end {
        ProposalStatus::Fail
    } else {
        ProposalStatus::Vote
    }
}

/// The proposal `p` with one more ballot at the end of its ledger.
pub open spec fn with_ballot(p: ProposalView, voter: Seq<char>, choice: Vote) -> ProposalView {
    ProposalView { votes: p.votes.push(BallotView { voter, choice }), ..p }
}

/// The proposal `p` with the status `status`.
pub open spec fn with_status(p: ProposalView, status: ProposalStatus) -> ProposalView {
    ProposalView { status, ..p }
}

/// The "yes" weight of the first `i + 1` members is that of the first `i`
/// plus what member `i` adds.
pub proof fn lemma_yes_weight_prefix(ms: Seq<CouncilView>, votes: Seq<BallotView>, i: int)
    requires
        0 <= i < ms.len(),
    ensures
        yes_weight(ms.take(i + 1), votes) == yes_weight(ms.take(i), votes) + yes_share(
            ms[i],
            votes,
        ),
{
    assert(ms.take(i + 1).drop_last() =~= ms.take(i));
}

/// Where no weight's numerator exceeds its member's stake, the "yes" weight
/// is at most the total stake.
pub proof fn lemma_yes_weight_bounded(ms: Seq<CouncilView>, votes: Seq<BallotView>)
    requires
        forall|i: int| 0 <= i < ms.len() ==> (#[trigger] ms[i]).weight.numerator <= ms[i].locked_tokens,
    ensures
        yes_weight(ms, votes) <= total_stake(ms),
    decreases ms.len(),
{
    if ms.len() > 0 {
        assert(ms.last() == ms[ms.len() - 1]);
        lemma_yes_weight_bounded(ms.drop_last(), votes);
    }
}

impl Proposal {
    /// No member has two ballots in the ledger.
    pub open spec fn wf(&self) -> bool {
        distinct_voters(self@.votes)
    }

    /// A proposal open for voting until `vote_period_end`, with no ballots yet.
    pub fn new(
        proposer: String,
        receiver: String,
        description: String,
        kind: ProposalType,
        vote_period_end: u64,
    ) -> (p: Proposal)
        ensures
            p.wf(),
            p@ == (ProposalView {
                status: ProposalStatus::Vote,
                proposer: proposer@,
                receiver: receiver@,
                description: description@,
                kind,
                vote_period_end,
                votes: Seq::<BallotView>::empty(),
            }),
    {
        let p = Proposal {
            status: ProposalStatus::Vote,
            proposer,
            receiver,
            description,
            kind,
            vote_period_end,
            votes: Vec::new(),
        };
        assert(p@.votes =~= Seq::<BallotView>::empty());
        p
    }

    /// The proposal's status.
    pub fn status(&self) -> (s: ProposalStatus)
        ensures
            s == self@.status,
    {
        self.status
    }

    /// The account that opened the proposal and paid the bond.
    pub fn proposer(&self) -> (a: &String)
        ensures
            a@ == self@.proposer,
    {
        &self.proposer
    }

    /// The account that the action is about.
    pub fn receiver(&self) -> (a: &String)
        ensures
            a@ == self@.receiver,
    {
        &self.receiver
    }

    /// The proposal's free text.
    pub fn description(&self) -> (d: &String)
        ensures
            d@ == self@.description,
    {
        &self.description
    }

    /// The action asked for.
    pub fn kind(&self) -> (k: ProposalType)
        ensures
            k == self@.kind,
    {
        self.kind
    }

    /// The time after which the vote is over.
    pub fn vote_period_end(&self) -> (t: u64)
        ensures
            t == self@.vote_period_end,
    {
        self.vote_period_end
    }

    /// The ledger: the ballots in the order they were cast.
    pub fn votes(&self) -> (bs: &Vec<Ballot>)
        ensures
            bs@.len() == self@.votes.len(),
            forall|i: int| 0 <= i < bs@.len() ==> (#[trigger] bs@[i])@ == self@.votes[i],
    {
        &self.votes
    }

    /// The amount to pay out, if the proposal is a payout.
    pub fn get_amount(&self) -> (r: Option<u128>)
        ensures
            r == (match self@.kind {
                ProposalType::Payout { amount } => Some(amount),
                _ => None,
            }),
    {
        match self.kind {
            ProposalType::Payout { amount } => Some(amount),
            _ => None,
        }
    }

    /// The ballot that `account` cast, if any.
    pub fn ballot_of(&self, account: &String) -> (r: Option<Vote>)
        requires
            self.wf(),
        ensures
            r.is_some() == has_voted(self@.votes, account@),
            (r == Some(Vote::Yes)) == voted_yes(self@.votes, account@),
    {
        let n = self.votes.len();
        let mut i: usize = 0;
        while i < n
            invariant
                n == self.votes@.len(),
                i <= n,
                self.wf(),
                forall|j: int| 0 <= j < i ==> (#[trigger] self@.votes[j]).voter != account@,
            decreases n - i,
        {
            if self.votes[i].voter == *account {
                proof {
                    assert(self@.votes[i as int].voter == account@);
                    if voted_yes(self@.votes, account@) {
                        let k = choose|k: int|
                            0 <= k < self@.votes.len() && (#[trigger] self@.votes[k]).voter
                                == account@ && self@.votes[k].choice == Vote::Yes;
                        assert(k == i);
                    }
                }
                return Some(self.votes[i].choice);
            }
            i += 1;
        }
        None
    }

    /// Adds a ballot to the ledger. A proposal that is no longer open rejects
    /// it with `AlreadyFinalized`, a second ballot of one account with
    /// `DuplicateVote`; either way the proposal stays as it was.
    pub fn record_vote(&mut self, voter: String, choice: Vote) -> (r: Result<(), DaoError>)
        requires
            old(self).wf(),
        ensures
            final(self).wf(),
            r == (if old(self)@.status.finalized() {
                Err::<(), DaoError>(DaoError::AlreadyFinalized)
            } else if has_voted(old(self)@.votes, voter@) {
                Err::<(), DaoError>(DaoError::DuplicateVote)
            } else {
                Ok::<(), DaoError>(())
            }),
            r.is_ok() ==> final(self)@ == with_ballot(old(self)@, voter@, choice),
            r.is_err() ==> final(self)@ == old(self)@,
    {
        if self.status.is_finalized() {
            return Err(DaoError::AlreadyFinalized);
        }
        if self.ballot_of(&voter).is_some() {
            return Err(DaoError::DuplicateVote);
        }
        let ghost before = self@;
        self.votes.push(Ballot { voter, choice });
        proof {
            assert(self@.votes =~= before.votes.push(BallotView { voter: voter@, choice }));
        }
        Ok(())
    }

    /// Closes the proposal with a final status. A proposal that is already
    /// closed rejects this with `AlreadyFinalized`; `Vote` is no final status
    /// and is rejected with `NotReady`.
    pub fn conclude(&mut self, status: ProposalStatus) -> (r: Result<(), DaoError>)
        requires
            old(self).wf(),
        ensures
            final(self).wf(),
            r == (if old(self)@.status.finalized() {
                Err::<(), DaoError>(DaoError::AlreadyFinalized)
            } else if !status.finalized() {
                Err::<(), DaoError>(DaoError::NotReady)
            } else {
                Ok::<(), DaoError>(())
            }),
            r.is_ok() ==> final(self)@ == with_status(old(self)@, status),
            r.is_err() ==> final(self)@ == old(self)@,
    {
        if self.status.is_finalized() {
            return Err(DaoError::AlreadyFinalized);
        }
        if !status.is_finalized() {
            return Err(DaoError::NotReady);
        }
        self.status = status;
        Ok(())
    }

    /// Tallies the ledger against the council's current weights and says where
    /// the proposal stands at time `now`. Reads only; the same inputs give the
    /// same answer.
    pub fn vote_status(&self, council: &CouncilRegistry, now: u64) -> (s: ProposalStatus)
        requires
            self.wf(),
            council.wf(),
            weights_current(council@),
        ensures
            s == evaluate(self@, council@, now),
    {
        let total = council.total_locked();
        let ms = council.members();
        let n = ms.len();
        let mut yes: u128 = 0;
        let mut i: usize = 0;
        proof {
            assert forall|j: int| 0 <= j < council@.len() implies (#[trigger] council@[j]).weight.numerator
                <= council@[j].locked_tokens by {}
        }
        while i < n
            invariant
                n == ms@.len(),
                n == council@.len(),
                i <= n,
                self.wf(),
                forall|j: int| 0 <= j < n ==> (#[trigger] ms@[j])@ == council@[j],
                forall|j: int|
                    0 <= j < council@.len() ==> (#[trigger] council@[j]).weight.numerator
                        <= council@[j].locked_tokens,
                yes == yes_weight(council@.take(i as int), self@.votes),
                total_stake(council@) <= u128::MAX,
            decreases n - i,
        {
            let m = &ms[i];
            proof {
                lemma_yes_weight_prefix(council@, self@.votes, i as int);
                lemma_yes_weight_bounded(council@.take(i as int + 1), self@.votes);
                lemma_total_stake_prefix(council@, i as int + 1);
                assert(ms@[i as int]@ == council@[i as int]);
            }
            match self.ballot_of(m.account()) {
                Some(Vote::Yes) => {
                    yes = yes + m.weight().numerator;
                },
                _ => {},
            }
            i += 1;
        }
        proof {
            assert(council@.take(n as int) =~= council@);
            lemma_yes_weight_bounded(council@, self@.votes);
        }
        if total > 0 && yes >= total - yes {
            ProposalStatus::Success
        } else if now > self.vote_period_end {
            ProposalStatus::Fail
        } else {
            ProposalStatus::Vote
        }
    }
}

impl Clone for Proposal {
    /// A copy that says the same as `self`, ledger included.
    fn clone(&self) -> (p: Proposal)
        ensures
            p@ == self@,
            p.wf() == self.wf(),
    {
        let n = self.votes.len();
        let mut votes: Vec<Ballot> = Vec::new();
        let mut i: usize = 0;
        while i < n
            invariant
                n == self.votes@.len(),
                i <= n,
                votes@.len() == i,
                forall|j: int| 0 <= j < i ==> (#[trigger] votes@[j])@ == self.votes@[j]@,
            decreases n - i,
        {
            let b = &self.votes[i];
            votes.push(b.clone());
            i += 1;
        }
        let p = Proposal {
            status: self.status,
            proposer: self.proposer.clone(),
            receiver: self.receiver.clone(),
            description: self.description.clone(),
            kind: self.kind,
            vote_period_end: self.vote_period_end,
            votes,
        };
        assert(p@.votes =~= self@.votes);
        p
    }
}

} // verus!
