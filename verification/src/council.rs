//! The council registry: members with a locked stake and a weight, found by
//! account. No account occurs twice.

use vstd::prelude::*;
use crate::types::{DaoError, Weight};

verus! {

/// A council member: an account, its voting weight and its locked stake.
#[derive(Debug, PartialEq, Eq)]
pub struct Council {
    account: String,
    weight: Weight,
    locked_tokens: u128,
}

/// What a `Council` entry says, with the account as a sequence of characters.
pub struct CouncilView {
    pub account: Seq<char>,
    pub weight: Weight,
    pub locked_tokens: u128,
}

impl View for Council {
    type V = CouncilView;

    closed spec fn view(&self) -> CouncilView {
        CouncilView {
            account: self.account@,
            weight: self.weight,
            locked_tokens: self.locked_tokens,
        }
    }
}

impl Council {
    /// A member with the given account and stake, and weight zero.
    pub fn new(account: String, locked_tokens: u128) -> (m: Council)
        ensures
            m@ == (CouncilView { account: account@, weight: Weight::spec_zero(), locked_tokens }),
    {
        Council { account, weight: Weight::zero(), locked_tokens }
    }

    /// The member's account.
    pub fn account(&self) -> (a: &String)
        ensures
            a@ == self@.account,
    {
        &self.account
    }

    /// The member's weight as last recomputed.
    pub fn weight(&self) -> (w: Weight)
        ensures
            w == self@.weight,
    {
        self.weight
    }

    /// The member's locked stake.
    pub fn locked_tokens(&self) -> (t: u128)
        ensures
            t == self@.locked_tokens,
    {
        self.locked_tokens
    }

}

impl Clone for Council {
    /// A copy that says the same as `self`.
    fn clone(&self) -> (m: Council)
        ensures
            m@ == self@,
    {
        Council {
            account: self.account.clone(),
            weight: self.weight,
            locked_tokens: self.locked_tokens,
        }
    }
}

/// The sum of the members' locked stakes.
pub open spec fn total_stake(ms: Seq<CouncilView>) -> nat
    decreases ms.len(),
{
    if ms.len() == 0 {
        0
    } else {
        total_stake(ms.drop_last()) + ms.last().locked_tokens as nat
    }
}

/// The sum of the numerators of the members' weights.
pub open spec fn numerator_sum(ms: Seq<CouncilView>) -> nat
    decreases ms.len(),
{
    if ms.len() == 0 {
        0
    } else {
        numerator_sum(ms.drop_last()) + ms.last().weight.numerator as nat
    }
}

/// Some member has the account `account`.
pub open spec fn is_member(ms: Seq<CouncilView>, account: Seq<char>) -> bool {
    exists|i: int| 0 <= i < ms.len() && (#[trigger] ms[i]).account == account
}

/// The position of a member with the account `account`, if there is one.
pub open spec fn member_index(ms: Seq<CouncilView>, account: Seq<char>) -> int {
    choose|i: int| 0 <= i < ms.len() && (#[trigger] ms[i]).account == account
}

/// No two entries share an account.
pub open spec fn distinct_accounts(ms: Seq<CouncilView>) -> bool {
    forall|i: int, j: int|
        0 <= i < j < ms.len() ==> (#[trigger] ms[i]).account != (#[trigger] ms[j]).account
}

/// The entry `m` with the weight that its stake has among a total of `total`.
pub open spec fn with_share(m: CouncilView, total: nat) -> CouncilView {
    CouncilView {
        account: m.account,
        weight: Weight::share(m.locked_tokens, total as u128),
        locked_tokens: m.locked_tokens,
    }
}

/// The entry `m` with weight zero, as a member has it on joining.
pub open spec fn with_zero_weight(m: CouncilView) -> CouncilView {
    CouncilView { account: m.account, weight: Weight::spec_zero(), locked_tokens: m.locked_tokens }
}

/// The members with every weight set to `stake / total stake`, or to zero
/// where the total stake is zero.
pub open spec fn recomputed(ms: Seq<CouncilView>) -> Seq<CouncilView> {
    Seq::new(ms.len(), |i: int| with_share(ms[i], total_stake(ms)))
}

/// Every weight is what `recomputed` would make it.
pub open spec fn weights_current(ms: Seq<CouncilView>) -> bool {
    forall|i: int| 0 <= i < ms.len() ==> #[trigger] ms[i] == with_share(ms[i], total_stake(ms))
}

/// One more member adds its stake to the total.
pub proof fn lemma_total_stake_push(ms: Seq<CouncilView>, m: CouncilView)
    ensures
        total_stake(ms.push(m)) == total_stake(ms) + m.locked_tokens,
{
    assert(ms.push(m).drop_last() =~= ms);
}

/// The total of the first `i + 1` members is that of the first `i` plus the
/// stake of member `i`, and no prefix holds more than the whole.
pub proof fn lemma_total_stake_prefix(ms: Seq<CouncilView>, i: int)
    requires
        0 <= i <= ms.len(),
    ensures
        total_stake(ms.take(i)) <= total_stake(ms),
        i < ms.len() ==> total_stake(ms.take(i + 1)) == total_stake(ms.take(i))
            + ms[i].locked_tokens,
    decreases ms.len() - i,
{
    if i < ms.len() {
        assert(ms.take(i + 1).drop_last() =~= ms.take(i));
        lemma_total_stake_prefix(ms, i + 1);
    } else {
        assert(ms.take(i) =~= ms);
    }
}

/// Taking a member out takes its stake out of the total.
pub proof fn lemma_total_stake_remove(ms: Seq<CouncilView>, i: int)
    requires
        0 <= i < ms.len(),
    ensures
        total_stake(ms.remove(i)) + ms[i].locked_tokens == total_stake(ms),
    decreases ms.len(),
{
    if i == ms.len() - 1 {
        assert(ms.remove(i) =~= ms.drop_last());
    } else {
        assert(ms.remove(i).drop_last() =~= ms.drop_last().remove(i));
        assert(ms.remove(i).last() == ms.last());
        lemma_total_stake_remove(ms.drop_last(), i);
    }
}

/// Two lists that agree on every stake have the same total.
pub proof fn lemma_total_stake_same_stakes(a: Seq<CouncilView>, b: Seq<CouncilView>)
    requires
        a.len() == b.len(),
        forall|i: int| 0 <= i < a.len() ==> a[i].locked_tokens == b[i].locked_tokens,
    ensures
        total_stake(a) == total_stake(b),
    decreases a.len(),
{
    if a.len() > 0 {
        lemma_total_stake_same_stakes(a.drop_last(), b.drop_last());
    }
}

/// Recomputing changes neither accounts nor stakes, and leaves the weights current.
pub proof fn lemma_recomputed_is_current(ms: Seq<CouncilView>)
    ensures
        recomputed(ms).len() == ms.len(),
        total_stake(recomputed(ms)) == total_stake(ms),
        weights_current(recomputed(ms)),
        distinct_accounts(ms) ==> distinct_accounts(recomputed(ms)),
        forall|a: Seq<char>| is_member(recomputed(ms), a) <==> is_member(ms, a),
{
    let r = recomputed(ms);
    lemma_total_stake_same_stakes(r, ms);
    assert forall|a: Seq<char>| is_member(r, a) <==> is_member(ms, a) by {
        if is_member(r, a) {
            let i = member_index(r, a);
            assert(ms[i].account == a);
        }
        if is_member(ms, a) {
            let i = member_index(ms, a);
            assert(r[i].account == a);
        }
    }
}

/// The weights add up to exactly one: they share one denominator, and their
/// numerators add up to it.
pub open spec fn weights_sum_to_one(ms: Seq<CouncilView>) -> bool {
    numerator_sum(ms) > 0 && forall|i: int|
        0 <= i < ms.len() ==> (#[trigger] ms[i]).weight.denominator == numerator_sum(ms)
}

/// Every weight is zero, so the weights add up to zero.
pub open spec fn weights_all_zero(ms: Seq<CouncilView>) -> bool {
    numerator_sum(ms) == 0 && forall|i: int|
        0 <= i < ms.len() ==> (#[trigger] ms[i]).weight == Weight::spec_zero()
}

/// No member holds more than the members hold together.
pub proof fn lemma_stake_within_total(ms: Seq<CouncilView>, i: int)
    requires
        0 <= i < ms.len(),
    ensures
        ms[i].locked_tokens <= total_stake(ms),
    decreases ms.len(),
{
    if i < ms.len() - 1 {
        lemma_stake_within_total(ms.drop_last(), i);
    }
}

/// Where every weight's numerator is its member's stake, the numerators add
/// up to the total stake.
pub proof fn lemma_numerators_are_stakes(ms: Seq<CouncilView>)
    requires
        forall|i: int|
            0 <= i < ms.len() ==> (#[trigger] ms[i]).weight.numerator == ms[i].locked_tokens,
    ensures
        numerator_sum(ms) == total_stake(ms),
    decreases ms.len(),
{
    if ms.len() > 0 {
        assert(ms.last() == ms[ms.len() - 1]);
        lemma_numerators_are_stakes(ms.drop_last());
    }
}

/// Where every weight's numerator is zero, the numerators add up to zero.
pub proof fn lemma_zero_numerators_sum_to_zero(ms: Seq<CouncilView>)
    requires
        forall|i: int| 0 <= i < ms.len() ==> (#[trigger] ms[i]).weight.numerator == 0,
    ensures
        numerator_sum(ms) == 0,
    decreases ms.len(),
{
    if ms.len() > 0 {
        assert(ms.last() == ms[ms.len() - 1]);
        lemma_zero_numerators_sum_to_zero(ms.drop_last());
    }
}

/// Current weights add up to one where the council holds any stake, and are
/// all zero where it holds none, as in an empty council. Either way every
/// weight is a fraction between zero and one.
pub proof fn lemma_current_weights_sum_to_one(ms: Seq<CouncilView>)
    requires
        total_stake(ms) <= u128::MAX,
        weights_current(ms),
    ensures
        total_stake(ms) > 0 ==> weights_sum_to_one(ms),
        total_stake(ms) == 0 ==> weights_all_zero(ms),
        forall|i: int| 0 <= i < ms.len() ==> (#[trigger] ms[i]).weight.wf(),
{
    let total = total_stake(ms);
    assert forall|i: int| 0 <= i < ms.len() implies (#[trigger] ms[i]).weight.wf() by {
        lemma_stake_within_total(ms, i);
    }
    if total > 0 {
        assert forall|i: int| 0 <= i < ms.len() implies (#[trigger] ms[i]).weight.numerator
            == ms[i].locked_tokens by {}
        lemma_numerators_are_stakes(ms);
    } else {
        assert forall|i: int| 0 <= i < ms.len() implies (#[trigger] ms[i]).weight.numerator
            == 0 by {}
        lemma_zero_numerators_sum_to_zero(ms);
    }
}

/// The registry of council members.
#[derive(Debug, PartialEq, Eq)]
pub struct CouncilRegistry {
    members: Vec<Council>,
}

impl View for CouncilRegistry {
    type V = Seq<CouncilView>;

    closed spec fn view(&self) -> Seq<CouncilView> {
        Seq::new(self.members@.len(), |i: int| self.members@[i]@)
    }
}

impl CouncilRegistry {
    /// No account occurs twice, and the total stake fits in a `u128`.
    pub open spec fn wf(&self) -> bool {
        distinct_accounts(self@) && total_stake(self@) <= u128::MAX
    }

    /// An empty registry.
    pub fn new() -> (r: CouncilRegistry)
        ensures
            r@ == Seq::<CouncilView>::empty(),
            r.wf(),
    {
        let r = CouncilRegistry { members: Vec::new() };
        assert(r@ =~= Seq::<CouncilView>::empty());
        r
    }

    /// The number of members.
    pub fn len(&self) -> (n: usize)
        ensures
            n == self@.len(),
    {
        self.members.len()
    }

    /// The current members, in the order the registry keeps them.
    pub fn members(&self) -> (ms: &Vec<Council>)
        ensures
            ms@.len() == self@.len(),
            forall|i: int| 0 <= i < ms@.len() ==> (#[trigger] ms@[i])@ == self@[i],
    {
        &self.members
    }

    /// The position of the member with the account `account`.
    pub fn find(&self, account: &String) -> (r: Option<usize>)
        ensures
            match r {
                Some(i) => i < self@.len() && self@[i as int].account == account@,
                None => !is_member(self@, account@),
            },
            self.wf() && r.is_some() ==> r.unwrap() == member_index(self@, account@),
    {
        let n = self.members.len();
        let mut i: usize = 0;
        while i < n
            invariant
                n == self.members@.len(),
                i <= n,
                forall|j: int| 0 <= j < i ==> (#[trigger] self@[j]).account != account@,
            decreases n - i,
        {
            if self.members[i].account == *account {
                proof {
                    if self.wf() {
                        assert(self@[i as int].account == account@);
                        let k = member_index(self@, account@);
                        assert(self@[k].account == account@);
                    }
                }
                return Some(i);
            }
            i += 1;
        }
        None
    }

    /// Tells whether `account` is a member.
    pub fn contains(&self, account: &String) -> (b: bool)
        ensures
            b == is_member(self@, account@),
    {
        self.find(account).is_some()
    }

    /// The sum of all locked stakes.
    pub fn total_locked(&self) -> (t: u128)
        requires
            self.wf(),
        ensures
            t == total_stake(self@),
    {
        let n = self.members.len();
        let mut t: u128 = 0;
        let mut i: usize = 0;
        while i < n
            invariant
                n == self.members@.len(),
                i <= n,
                t == total_stake(self@.take(i as int)),
                total_stake(self@) <= u128::MAX,
            decreases n - i,
        {
            proof {
                lemma_total_stake_prefix(self@, i as int);
                lemma_total_stake_prefix(self@, i as int + 1);
            }
            t = t + self.members[i].locked_tokens;
            i += 1;
        }
        proof {
            assert(self@.take(n as int) =~= self@);
        }
        t
    }

    /// Adds `member` with weight zero. An account that is already a member is
    /// rejected with `DuplicateMember`, and the registry stays as it was.
    pub fn insert(&mut self, member: Council) -> (r: Result<(), DaoError>)
        requires
            old(self).wf(),
            total_stake(old(self)@) + member@.locked_tokens <= u128::MAX,
        ensures
            final(self).wf(),
            is_member(old(self)@, member@.account) ==> r == Err::<(), DaoError>(
                DaoError::DuplicateMember,
            ) && final(self)@ == old(self)@,
            !is_member(old(self)@, member@.account) ==> r == Ok::<(), DaoError>(())
                && final(self)@ == old(self)@.push(with_zero_weight(member@)),
    {
        if self.contains(&member.account) {
            return Err(DaoError::DuplicateMember);
        }
        let ghost before = self@;
        let entry = Council {
            account: member.account,
            weight: Weight::zero(),
            locked_tokens: member.locked_tokens,
        };
        self.members.push(entry);
        proof {
            assert(self@ =~= before.push(with_zero_weight(member@)));
            lemma_total_stake_push(before, with_zero_weight(member@));
        }
        Ok(())
    }

    /// Takes the member with the account `account` out and returns its entry.
    /// An account that is no member is rejected with `NotFound`.
    pub fn remove(&mut self, account: &String) -> (r: Result<Council, DaoError>)
        requires
            old(self).wf(),
        ensures
            final(self).wf(),
            match r {
                Ok(m) => is_member(old(self)@, account@)
                    && m@ == old(self)@[member_index(old(self)@, account@)]
                    && final(self)@ == old(self)@.remove(member_index(old(self)@, account@)),
                Err(e) => !is_member(old(self)@, account@) && e == DaoError::NotFound
                    && final(self)@ == old(self)@,
            },
    {
        let ghost before = self@;
        match self.find(account) {
            None => Err(DaoError::NotFound),
            Some(i) => {
                let m = self.members.remove(i);
                proof {
                    assert(self@ =~= before.remove(i as int));
                    lemma_total_stake_remove(before, i as int);
                }
                Ok(m)
            },
        }
    }

    /// Sets every member's weight to its stake over the total stake, or to
    /// zero where the total stake is zero.
    pub fn recompute_weights(&mut self)
        requires
            old(self).wf(),
        ensures
            final(self)@ == recomputed(old(self)@),
            final(self).wf(),
            weights_current(final(self)@),
            total_stake(old(self)@) > 0 ==> weights_sum_to_one(final(self)@),
            total_stake(old(self)@) == 0 ==> weights_all_zero(final(self)@),
    {
        let ghost before = self@;
        let total = self.total_locked();
        let n = self.members.len();
        let mut i: usize = 0;
        while i < n
            invariant
                n == self.members@.len(),
                i <= n,
                self@.len() == before.len(),
                total == total_stake(before),
                forall|j: int| 0 <= j < i ==> #[trigger] self@[j] == with_share(before[j], total as nat),
                forall|j: int| i <= j < n ==> #[trigger] self@[j] == before[j],
            decreases n - i,
        {
            let ghost prev = self@;
            let stake = self.members[i].locked_tokens;
            self.members[i].weight = Weight::of_stake(stake, total);
            proof {
                assert(prev[i as int] == before[i as int]);
                assert(self@[i as int] == with_share(before[i as int], total as nat));
                assert forall|j: int| 0 <= j < n && j != i implies #[trigger] self@[j] == prev[j] by {
                    assert(self.members@[j]@ == prev[j]);
                }
            }
            i += 1;
        }
        proof {
            assert(self@ =~= recomputed(before));
            lemma_recomputed_is_current(before);
            lemma_current_weights_sum_to_one(self@);
        }
    }
}

impl Clone for CouncilRegistry {
    /// A copy that holds the same members in the same order.
    fn clone(&self) -> (r: CouncilRegistry)
        ensures
            r@ == self@,
    {
        let n = self.members.len();
        let mut members: Vec<Council> = Vec::new();
        let mut i: usize = 0;
        while i < n
            invariant
                n == self.members@.len(),
                i <= n,
                members@.len() == i,
                forall|j: int| 0 <= j < i ==> (#[trigger] members@[j])@ == self.members@[j]@,
            decreases n - i,
        {
            members.push(self.members[i].clone());
            i += 1;
        }
        let r = CouncilRegistry { members };
        assert(r@ =~= self@);
        r
    }
}

} // verus!
