//! The proposal store: proposals in the order they were opened, each known by
//! its index. Nothing is ever taken out, so an index never changes its meaning.

use std::collections::HashMap;
use vstd::prelude::*;
use vstd::std_specs::hash::*;
use crate::proposal::{distinct_voters, Proposal, ProposalView};
use crate::types::{DaoError, ProposalStatus};

verus! {

broadcast use group_hash_axioms;

/// `b` is `a` after voting or closing: everything but the status and the
/// ledger is the same.
pub open spec fn same_subject(a: ProposalView, b: ProposalView) -> bool {
    &&& a.proposer == b.proposer
    &&& a.receiver == b.receiver
    &&& a.description == b.description
    &&& a.kind == b.kind
    &&& a.vote_period_end == b.vote_period_end
}

/// Every ledger in the list holds at most one ballot per account.
pub open spec fn all_ledgers_distinct(ps: Seq<ProposalView>) -> bool {
    forall|i: int| 0 <= i < ps.len() ==> distinct_voters((#[trigger] ps[i]).votes)
}

/// The append-only list of proposals.
#[derive(Debug, PartialEq, Eq)]
pub struct ProposalStore {
    items: Vec<Proposal>,
}

impl View for ProposalStore {
    type V = Seq<ProposalView>;

    closed spec fn view(&self) -> Seq<ProposalView> {
        Seq::new(self.items@.len(), |i: int| self.items@[i]@)
    }
}

impl ProposalStore {
    /// Every stored proposal is well formed.
    pub open spec fn wf(&self) -> bool {
        all_ledgers_distinct(self@)
    }

    /// An empty store.
    pub fn new() -> (s: ProposalStore)
        ensures
            s@ == Seq::<ProposalView>::empty(),
            s.wf(),
    {
        let s = ProposalStore { items: Vec::new() };
        assert(s@ =~= Seq::<ProposalView>::empty());
        s
    }

    /// The number of proposals, which is the index that the next one will get.
    pub fn len(&self) -> (n: u64)
        ensures
            n == self@.len(),
    {
        self.items.len() as u64
    }

    /// Stores `proposal` behind all others and returns its index.
    pub fn append(&mut self, proposal: Proposal) -> (index: u64)
        requires
            old(self).wf(),
            proposal.wf(),
        ensures
            final(self).wf(),
            index == old(self)@.len(),
            final(self)@ == old(self)@.push(proposal@),
    {
        let ghost before = self@;
        let index = self.items.len() as u64;
        self.items.push(proposal);
        proof {
            assert(self@ =~= before.push(proposal@));
        }
        index
    }

    /// The proposal at `index`, or `NotFound` where the store is shorter.
    pub fn get(&self, index: u64) -> (r: Result<&Proposal, DaoError>)
        requires
            self.wf(),
        ensures
            match r {
                Ok(p) => index < self@.len() && p@ == self@[index as int] && p.wf(),
                Err(e) => index >= self@.len() && e == DaoError::NotFound,
            },
    {
        if index < self.items.len() as u64 {
            let p = &self.items[index as usize];
            assert(p@ == self@[index as int]);
            Ok(p)
        } else {
            Err(DaoError::NotFound)
        }
    }

    /// Puts `proposal` in the place of the one at `index`, to record a vote or
    /// a final status. Only the engine itself writes a proposal back.
    pub(crate) fn replace(&mut self, index: u64, proposal: Proposal) -> (r: Result<(), DaoError>)
        requires
            old(self).wf(),
            proposal.wf(),
            index < old(self)@.len() ==> same_subject(old(self)@[index as int], proposal@),
        ensures
            final(self).wf(),
            index < old(self)@.len() ==> r.is_ok() && final(self)@ == old(self)@.update(
                index as int,
                proposal@,
            ),
            index >= old(self)@.len() ==> r == Err::<(), DaoError>(DaoError::NotFound)
                && final(self)@ == old(self)@,
    {
        if index < self.items.len() as u64 {
            let ghost before = self@;
            self.items.set(index as usize, proposal);
            proof {
                assert(self@ =~= before.update(index as int, proposal@));
            }
            Ok(())
        } else {
            Err(DaoError::NotFound)
        }
    }

    /// Every stored proposal whose status is `status`, by index.
    pub fn filter_by_status(&self, status: ProposalStatus) -> (m: HashMap<u64, Proposal>)
        requires
            self.wf(),
        ensures
            forall|k: u64|
                m@.contains_key(k) <==> (k < self@.len() && self@[k as int].status == status),
            forall|k: u64| m@.contains_key(k) ==> (#[trigger] m@[k])@ == self@[k as int],
    {
        let n = self.items.len();
        let mut m: HashMap<u64, Proposal> = HashMap::new();
        let mut i: usize = 0;
        while i < n
            invariant
                n == self.items@.len(),
                i <= n,
                forall|k: u64|
                    m@.contains_key(k) <==> (k < i && self@[k as int].status == status),
                forall|k: u64| m@.contains_key(k) ==> (#[trigger] m@[k])@ == self@[k as int],
            decreases n - i,
        {
            let p = &self.items[i];
            assert(p@ == self@[i as int]);
            if p.status() == status {
                let copy = p.clone();
                m.insert(i as u64, copy);
            }
            i += 1;
        }
        m
    }
}

impl Clone for ProposalStore {
    /// A copy that holds the same proposals at the same indices.
    fn clone(&self) -> (s: ProposalStore)
        ensures
            s@ == self@,
    {
        let n = self.items.len();
        let mut items: Vec<Proposal> = Vec::new();
        let mut i: usize = 0;
        while i < n
            invariant
                n == self.items@.len(),
                i <= n,
                items@.len() == i,
                forall|j: int| 0 <= j < i ==> (#[trigger] items@[j])@ == self.items@[j]@,
            decreases n - i,
        {
            items.push(self.items[i].clone());
            i += 1;
        }
        let s = ProposalStore { items };
        assert(s@ =~= self@);
        s
    }
}

} // verus!
