//! Plain value types shared by the whole engine.

use vstd::prelude::*;

verus! {

/// Share of the total council weight, in percent, that the "yes" side must
/// reach for a proposal to pass.
pub const CONSENSUS_PERCENTAGE: u128 = 50;

/// A member's ballot on one proposal.
#[derive(Clone, Copy, Debug, PartialEq, Eq, Structural)]
pub enum Vote {
    Yes,
    No,
}

/// Where a proposal stands: `Vote` while open, then `Success` or `Fail` for good.
#[derive(Clone, Copy, Debug, PartialEq, Eq, Structural)]
pub enum ProposalStatus {
    Vote,
    Success,
    Fail,
}

impl ProposalStatus {
    /// A status is final exactly when it is not `Vote`.
    pub open spec fn finalized(self) -> bool {
        self != ProposalStatus::Vote
    }

    /// Tells whether the proposal has left the voting stage.
    pub fn is_finalized(&self) -> (r: bool)
        ensures
            r == self.finalized(),
    {
        match self {
            ProposalStatus::Vote => false,
            _ => true,
        }
    }
}

/// What a proposal asks for. The target account is the proposal's receiver.
#[derive(Clone, Copy, Debug, PartialEq, Eq, Structural)]
pub enum ProposalType {
    /// Admit the receiver to the council with `amount` as its locked stake.
    NewCouncil { amount: u128 },
    /// Remove the receiver from the council and hand its locked stake back.
    DeleteCouncil,
    /// Pay `amount` to the receiver.
    Payout { amount: u128 },
}

/// Why a call was rejected. A rejected call leaves the state as it was.
#[derive(Clone, Copy, Debug, PartialEq, Eq, Structural)]
pub enum DaoError {
    /// No proposal at that index, or no council member with that account.
    NotFound,
    /// The account is already a council member.
    DuplicateMember,
    /// The member has already voted on the proposal.
    DuplicateVote,
    /// The attached deposit is below the bond.
    InsufficientBond,
    /// The caller is not a council member.
    NotCouncilMember,
    /// The proposal has already reached a final status.
    AlreadyFinalized,
    /// Neither a majority nor the deadline has been reached.
    NotReady,
}

/// A member's voting power as an exact fraction of the whole council's.
///
/// A weight that has been brought up to date is `stake / total stake`; the
/// zero weight is written `0 / 1`.
#[derive(Clone, Copy, Debug, PartialEq, Eq, Structural)]
pub struct Weight {
    pub numerator: u128,
    pub denominator: u128,
}

impl Weight {
    /// The weight `0 / 1`.
    pub open spec fn spec_zero() -> Weight {
        Weight { numerator: 0, denominator: 1 }
    }

    /// The share that `stake` is of `total`: `stake / total`, or zero where
    /// there is no stake at all.
    pub open spec fn share(stake: u128, total: u128) -> Weight {
        if total == 0 {
            Weight::spec_zero()
        } else {
            Weight { numerator: stake, denominator: total }
        }
    }

    /// A fraction between zero and one with a positive denominator.
    pub open spec fn wf(self) -> bool {
        0 < self.denominator && self.numerator <= self.denominator
    }

    /// The zero weight, which a member carries until the weights are recomputed.
    #[verifier::when_used_as_spec(spec_zero)]
    pub fn zero() -> (w: Weight)
        ensures
            w == Weight::spec_zero(),
    {
        Weight { numerator: 0, denominator: 1 }
    }

    /// Computes `stake / total` as a weight; zero where `total` is zero.
    pub fn of_stake(stake: u128, total: u128) -> (w: Weight)
        ensures
            w == Weight::share(stake, total),
    {
        if total == 0 {
            Weight::zero()
        } else {
            Weight { numerator: stake, denominator: total }
        }
    }
}

/// A request to move `amount` to the account `to`, for the caller to carry out.
#[derive(Debug, PartialEq, Eq)]
pub struct Transfer {
    pub to: String,
    pub amount: u128,
}

impl Clone for Transfer {
    /// A copy that says the same as `self`.
    fn clone(&self) -> (t: Transfer)
        ensures
            t@ == self@,
    {
        Transfer { to: self.to.clone(), amount: self.amount }
    }
}

/// What a `Transfer` says, with the account as a sequence of characters.
pub struct TransferView {
    pub to: Seq<char>,
    pub amount: u128,
}

impl View for Transfer {
    type V = TransferView;

    open spec fn view(&self) -> TransferView {
        TransferView { to: self.to@, amount: self.amount }
    }
}

/// The views of a list of transfers, in order.
pub open spec fn transfers_view(ts: Seq<Transfer>) -> Seq<TransferView> {
    Seq::new(ts.len(), |i: int| ts[i]@)
}

} // verus!
