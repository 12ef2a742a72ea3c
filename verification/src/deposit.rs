//! The staking deposit ledger: deposits in the order they were made, paid
//! out oldest first with the interest that accrued on each.

use crate::uint::{checked_div, checked_mul, lemma_u256_of, pow2_256, u256_of, U256};
use vstd::prelude::*;

verus! {

/// One deposit: what is left of it, when it was made, and the accumulated
/// interest rate at that time.
#[derive(Clone, Copy, Debug, PartialEq, Eq, Structural)]
pub struct DepositInfo {
    pub amount: U256,
    pub deposit_time: u64,
    pub accumulated_interest_rate: U256,
}

/// Deposit times strictly ascend.
pub open spec fn is_ordered(s: Seq<DepositInfo>) -> bool {
    forall|i: int, j: int| 0 <= i < j < s.len() ==> s[i].deposit_time < s[j].deposit_time
}

/// The sum of the amounts left in the ledger.
pub open spec fn total_amount(s: Seq<DepositInfo>) -> nat
    decreases s.len(),
{
    if s.len() == 0 {
        0
    } else {
        s[0].amount@ + total_amount(s.skip(1))
    }
}

/// The interest earned on `portion` between a deposit at accumulated rate
/// `rate_then` and a withdrawal at `rate_now`, rounded down.
pub open spec fn interest_on(portion: nat, rate_now: nat, rate_then: nat) -> nat {
    (portion * (rate_now - rate_then) / (rate_then as int)) as nat
}

/// The part of entry `e` that a withdrawal of `amount` takes.
pub open spec fn portion_of(e: DepositInfo, amount: nat) -> nat {
    if e.amount@ <= amount {
        e.amount@
    } else {
        amount
    }
}

/// Whether the interest on `portion` of entry `e` can be computed: the
/// entry's rate is positive and not above `rate_now`, and the product of
/// the portion and the rate difference fits in 256 bits.
pub open spec fn interest_computable(e: DepositInfo, portion: nat, rate_now: nat) -> bool {
    &&& 0 < e.accumulated_interest_rate@ <= rate_now
    &&& portion * (rate_now - e.accumulated_interest_rate@) < pow2_256()
}

/// Whether `amount` can be withdrawn from `s` at `rate_now`: the ledger
/// holds that much, and the interest on every portion taken can be
/// computed.
pub open spec fn can_withdraw(s: Seq<DepositInfo>, amount: nat, rate_now: nat) -> bool
    decreases s.len(),
{
    amount == 0 || (s.len() > 0 && interest_computable(s[0], portion_of(s[0], amount), rate_now)
        && can_withdraw(s.skip(1), (amount - portion_of(s[0], amount)) as nat, rate_now))
}

/// The interest that a withdrawal of `amount` at `rate_now` earns: the sum
/// over the portions taken, oldest deposit first.
pub open spec fn interest_due(s: Seq<DepositInfo>, amount: nat, rate_now: nat) -> nat
    decreases s.len(),
{
    if amount == 0 || s.len() == 0 {
        0
    } else {
        interest_on(portion_of(s[0], amount), rate_now, s[0].accumulated_interest_rate@)
            + interest_due(s.skip(1), (amount - portion_of(s[0], amount)) as nat, rate_now)
    }
}

/// The number of leading entries that a withdrawal of `amount` uses up.
pub open spec fn consumed_count(s: Seq<DepositInfo>, amount: nat) -> nat
    decreases s.len(),
{
    if amount == 0 || s.len() == 0 || s[0].amount@ > amount {
        0
    } else {
        1 + consumed_count(s.skip(1), (amount - s[0].amount@) as nat)
    }
}

/// What a withdrawal of `amount` takes from the first entry that it does
/// not use up.
pub open spec fn residual(s: Seq<DepositInfo>, amount: nat) -> nat
    decreases s.len(),
{
    if amount == 0 || s.len() == 0 || s[0].amount@ > amount {
        amount
    } else {
        residual(s.skip(1), (amount - s[0].amount@) as nat)
    }
}

/// The ledger after `amount` was withdrawn: entries that were used up are
/// gone from the front, and the first one left has shrunk by what was
/// taken from it.
pub open spec fn after_withdraw(s: Seq<DepositInfo>, amount: nat) -> Seq<DepositInfo>
    decreases s.len(),
{
    if amount == 0 || s.len() == 0 {
        s
    } else if s[0].amount@ <= amount {
        after_withdraw(s.skip(1), (amount - s[0].amount@) as nat)
    } else {
        s.update(
            0,
            DepositInfo {
                amount: u256_of((s[0].amount@ - amount) as nat),
                deposit_time: s[0].deposit_time,
                accumulated_interest_rate: s[0].accumulated_interest_rate,
            },
        )
    }
}

/// Appending an entry adds its amount to the total.
pub proof fn lemma_total_push(s: Seq<DepositInfo>, e: DepositInfo)
    ensures
        total_amount(s.push(e)) == total_amount(s) + e.amount@,
    decreases s.len(),
{
    let t = s.push(e);
    if s.len() == 0 {
        assert(t.skip(1) =~= Seq::<DepositInfo>::empty());
        assert(total_amount(t.skip(1)) == 0);
    } else {
        assert(t.skip(1) =~= s.skip(1).push(e));
        lemma_total_push(s.skip(1), e);
    }
}

/// A withdrawal that can be made takes no more than the ledger holds.
pub proof fn lemma_can_withdraw_bound(s: Seq<DepositInfo>, amount: nat, rate_now: nat)
    requires
        can_withdraw(s, amount, rate_now),
    ensures
        amount <= total_amount(s),
    decreases s.len(),
{
    if amount != 0 {
        lemma_can_withdraw_bound(s.skip(1), (amount - portion_of(s[0], amount)) as nat, rate_now);
    }
}

/// A withdrawal lowers the ledger's total by exactly the amount taken.
pub proof fn lemma_withdraw_total(s: Seq<DepositInfo>, amount: nat)
    requires
        amount <= total_amount(s),
    ensures
        total_amount(after_withdraw(s, amount)) == total_amount(s) - amount,
    decreases s.len(),
{
    if amount == 0 || s.len() == 0 {
    } else if s[0].amount@ <= amount {
        lemma_withdraw_total(s.skip(1), (amount - s[0].amount@) as nat);
    } else {
        let left = (s[0].amount@ - amount) as nat;
        lemma_u256_of(left);
        let t = after_withdraw(s, amount);
        assert(t.skip(1) =~= s.skip(1));
    }
}

/// First in, first out: what a withdrawal leaves is the ledger without the
/// entries it used up, in their order; only the first entry left may have
/// changed, and only in its amount, by what was taken from it.
pub proof fn lemma_withdraw_fifo(s: Seq<DepositInfo>, amount: nat)
    requires
        amount <= total_amount(s),
    ensures
        consumed_count(s, amount) <= s.len(),
        after_withdraw(s, amount).len() == s.len() - consumed_count(s, amount),
        forall|i: int|
            1 <= i < after_withdraw(s, amount).len() ==> #[trigger] after_withdraw(s, amount)[i]
                == s[consumed_count(s, amount) + i],
        after_withdraw(s, amount).len() > 0 ==> {
            let first = after_withdraw(s, amount)[0];
            let was = s[consumed_count(s, amount) as int];
            &&& first.deposit_time == was.deposit_time
            &&& first.accumulated_interest_rate == was.accumulated_interest_rate
            &&& residual(s, amount) <= was.amount@
            &&& first.amount@ == was.amount@ - residual(s, amount)
        },
        after_withdraw(s, amount).len() == 0 ==> residual(s, amount) == 0,
    decreases s.len(),
{
    if amount == 0 || s.len() == 0 {
    } else if s[0].amount@ <= amount {
        let rest = s.skip(1);
        let a = (amount - s[0].amount@) as nat;
        lemma_withdraw_fifo(rest, a);
        let c = consumed_count(rest, a);
        assert forall|i: int| 1 <= i < after_withdraw(s, amount).len() implies #[trigger] after_withdraw(
            s,
            amount,
        )[i] == s[consumed_count(s, amount) + i] by {
            assert(after_withdraw(rest, a)[i] == rest[c + i]);
        }
        if after_withdraw(s, amount).len() > 0 {
            assert(rest[c as int] == s[c as int + 1]);
        }
    } else {
        lemma_u256_of((s[0].amount@ - amount) as nat);
    }
}

/// A withdrawal keeps the deposit times in order.
pub proof fn lemma_withdraw_ordered(s: Seq<DepositInfo>, amount: nat)
    requires
        is_ordered(s),
        amount <= total_amount(s),
    ensures
        is_ordered(after_withdraw(s, amount)),
{
    lemma_withdraw_fifo(s, amount);
    let t = after_withdraw(s, amount);
    let c = consumed_count(s, amount) as int;
    assert forall|i: int, j: int| 0 <= i < j < t.len() implies t[i].deposit_time
        < t[j].deposit_time by {
        assert(t[j] == s[c + j]);
        if i > 0 {
            assert(t[i] == s[c + i]);
        }
    }
}

/// The number of leading entries that a withdrawal of `amount` takes a
/// portion from.
pub open spec fn touched_count(s: Seq<DepositInfo>, amount: nat) -> nat
    decreases s.len(),
{
    if amount == 0 || s.len() == 0 {
        0
    } else {
        1 + touched_count(s.skip(1), (amount - portion_of(s[0], amount)) as nat)
    }
}

/// No interest accrues on a portion between a deposit and a withdrawal at
/// the same accumulated rate.
pub proof fn lemma_zero_interest_on(portion: nat, rate: nat)
    requires
        rate > 0,
    ensures
        interest_on(portion, rate, rate) == 0,
{
    assert(portion * (rate - rate) == 0) by (nonlinear_arith);
    assert(0int / (rate as int) == 0) by (nonlinear_arith)
        requires
            rate > 0,
    ;
}

/// A withdrawal at the accumulated rate that every deposit it takes from
/// was made at earns no interest.
pub proof fn lemma_zero_interest(s: Seq<DepositInfo>, amount: nat, rate: nat)
    requires
        rate > 0,
        forall|i: int|
            0 <= i < touched_count(s, amount) && i < s.len() ==> (
            #[trigger] s[i]).accumulated_interest_rate@ == rate,
    ensures
        interest_due(s, amount, rate) == 0,
    decreases s.len(),
{
    if amount == 0 || s.len() == 0 {
    } else {
        let p = portion_of(s[0], amount);
        assert(s[0].accumulated_interest_rate@ == rate);
        lemma_zero_interest_on(p, rate);
        let rest = s.skip(1);
        assert forall|i: int| 0 <= i < touched_count(rest, (amount - p) as nat) && i
            < rest.len() implies (#[trigger] rest[i]).accumulated_interest_rate@ == rate by {
            assert(rest[i] == s[i + 1]);
        }
        lemma_zero_interest(rest, (amount - p) as nat, rate);
    }
}

/// What staking moves: the balance, the staking balance and the ledger.
pub struct Funds {
    pub balance: nat,
    pub staking_balance: nat,
    pub ledger: Seq<DepositInfo>,
}

/// One staking operation.
pub enum StakingStep {
    /// A deposit, as the ledger records it.
    Deposit(DepositInfo),
    /// A withdrawal of `amount` at the accumulated rate `rate`.
    Withdraw { amount: nat, rate: nat },
}

/// Whether the funds cover the step: a deposit is covered by the balance,
/// a withdrawal by the ledger.
pub open spec fn step_allowed(f: Funds, step: StakingStep) -> bool {
    match step {
        StakingStep::Deposit(d) => d.amount@ <= f.balance,
        StakingStep::Withdraw { amount, rate } => can_withdraw(f.ledger, amount, rate),
    }
}

/// The interest that the step pays: none for a deposit.
pub open spec fn interest_of_step(f: Funds, step: StakingStep) -> nat {
    match step {
        StakingStep::Deposit(d) => 0,
        StakingStep::Withdraw { amount, rate } => interest_due(f.ledger, amount, rate),
    }
}

/// The funds after the step.
pub open spec fn after_step(f: Funds, step: StakingStep) -> Funds {
    match step {
        StakingStep::Deposit(d) => Funds {
            balance: (f.balance - d.amount@) as nat,
            staking_balance: f.staking_balance + d.amount@,
            ledger: f.ledger.push(d),
        },
        StakingStep::Withdraw { amount, rate } => Funds {
            balance: f.balance + amount + interest_due(f.ledger, amount, rate),
            staking_balance: (f.staking_balance - amount) as nat,
            ledger: after_withdraw(f.ledger, amount),
        },
    }
}

/// Whether each of `steps` is covered by the funds that the steps before
/// it left.
pub open spec fn steps_allowed(f: Funds, steps: Seq<StakingStep>) -> bool
    decreases steps.len(),
{
    steps.len() == 0 || (step_allowed(f, steps[0]) && steps_allowed(
        after_step(f, steps[0]),
        steps.skip(1),
    ))
}

/// The funds after `steps`, taken in their order.
pub open spec fn after_steps(f: Funds, steps: Seq<StakingStep>) -> Funds
    decreases steps.len(),
{
    if steps.len() == 0 {
        f
    } else {
        after_steps(after_step(f, steps[0]), steps.skip(1))
    }
}

/// The interest that `steps` pay in all.
pub open spec fn interest_of_steps(f: Funds, steps: Seq<StakingStep>) -> nat
    decreases steps.len(),
{
    if steps.len() == 0 {
        0
    } else {
        interest_of_step(f, steps[0]) + interest_of_steps(after_step(f, steps[0]), steps.skip(1))
    }
}

/// Deposits and withdrawals make and destroy no value: after any sequence
/// of them, balance and staking balance together hold what they held
/// before and the interest paid, as long as the ledger sums to the staking
/// balance; and it still does afterwards.
pub proof fn lemma_conservation(f: Funds, steps: Seq<StakingStep>)
    requires
        total_amount(f.ledger) == f.staking_balance,
        steps_allowed(f, steps),
    ensures
        after_steps(f, steps).balance + after_steps(f, steps).staking_balance == f.balance
            + f.staking_balance + interest_of_steps(f, steps),
        total_amount(after_steps(f, steps).ledger) == after_steps(f, steps).staking_balance,
    decreases steps.len(),
{
    if steps.len() > 0 {
        match steps[0] {
            StakingStep::Deposit(d) => {
                lemma_total_push(f.ledger, d);
            },
            StakingStep::Withdraw { amount, rate } => {
                lemma_can_withdraw_bound(f.ledger, amount, rate);
                lemma_withdraw_total(f.ledger, amount);
            },
        }
        lemma_conservation(after_step(f, steps[0]), steps.skip(1));
    }
}

/// The interest on `portion` of a deposit made at `rate_then`, withdrawn
/// at `rate_now`.
pub fn interest_for(portion: U256, rate_now: U256, rate_then: U256) -> (r: U256)
    requires
        0 < rate_then@ <= rate_now@,
        portion@ * (rate_now@ - rate_then@) < pow2_256(),
    ensures
        r@ == interest_on(portion@, rate_now@, rate_then@),
{
    let gain = rate_now.checked_sub(rate_then).unwrap();
    let scaled = checked_mul(portion, gain).unwrap();
    checked_div(scaled, rate_then).unwrap()
}

/// The deposit ledger of one account.
#[derive(Debug)]
pub struct DepositList {
    entries: Vec<DepositInfo>,
}

impl View for DepositList {
    type V = Seq<DepositInfo>;

    closed spec fn view(&self) -> Seq<DepositInfo> {
        self.entries@
    }
}

impl DepositList {
    /// Deposit times strictly ascend.
    pub open spec fn wf(&self) -> bool {
        is_ordered(self@)
    }

    /// The empty ledger.
    pub fn new() -> (r: DepositList)
        ensures
            r@ == Seq::<DepositInfo>::empty(),
            r.wf(),
    {
        DepositList { entries: Vec::new() }
    }

    /// The ledger that holds `entries`, if their deposit times ascend.
    pub fn from_entries(entries: Vec<DepositInfo>) -> (r: Option<DepositList>)
        ensures
            r.is_some() <==> is_ordered(entries@),
            r.is_some() ==> r.unwrap()@ == entries@,
    {
        let n: usize = entries.len();
        let mut i: usize = 1;
        while i < n
            invariant
                n == entries.len(),
                1 <= i,
                forall|a: int, b: int|
                    0 <= a < b < i && b < n ==> entries@[a].deposit_time < entries@[b].deposit_time,
            decreases n - i,
        {
            if !(entries[i - 1].deposit_time < entries[i].deposit_time) {
                return None;
            }
            proof {
                assert forall|a: int, b: int| 0 <= a < b < i + 1 && b < n implies entries@[a].deposit_time
                    < entries@[b].deposit_time by {
                    if b == i && a < i - 1 {
                        assert(entries@[a].deposit_time < entries@[i - 1].deposit_time);
                    }
                }
            }
            i += 1;
        }
        Some(DepositList { entries })
    }

    pub fn len(&self) -> (r: usize)
        ensures
            r == self@.len(),
    {
        self.entries.len()
    }

    pub fn is_empty(&self) -> (r: bool)
        ensures
            r == (self@.len() == 0),
    {
        self.entries.len() == 0
    }

    /// Whether this is the ledger of an account that never staked: the
    /// empty one.
    pub fn is_default(&self) -> (r: bool)
        ensures
            r == (self@.len() == 0),
    {
        self.entries.len() == 0
    }

    /// The entries, oldest first.
    pub fn entries(&self) -> (r: &Vec<DepositInfo>)
        ensures
            r@ == self@,
    {
        &self.entries
    }

    /// Entry `index`.
    pub fn get(&self, index: usize) -> (r: DepositInfo)
        requires
            index < self@.len(),
        ensures
            r == self@[index as int],
    {
        self.entries[index]
    }

    /// A copy that shares nothing with `self`.
    pub fn duplicate(&self) -> (r: DepositList)
        ensures
            r@ == self@,
    {
        let mut out: Vec<DepositInfo> = Vec::new();
        let n: usize = self.entries.len();
        let mut i: usize = 0;
        while i < n
            invariant
                n == self.entries.len(),
                i <= n,
                out@ == self.entries@.take(i as int),
            decreases n - i,
        {
            out.push(self.entries[i]);
            proof {
                assert(self.entries@.take(i + 1) =~= self.entries@.take(i as int).push(
                    self.entries@[i as int],
                ));
            }
            i += 1;
        }
        proof {
            assert(self.entries@.take(n as int) =~= self.entries@);
        }
        DepositList { entries: out }
    }

    /// The sum of the amounts left, unless it does not fit in 256 bits.
    pub fn total(&self) -> (r: Option<U256>)
        ensures
            r.is_some() <==> total_amount(self@) < pow2_256(),
            r.is_some() ==> r.unwrap()@ == total_amount(self@),
    {
        let mut sum = U256::zero();
        let mut i: usize = self.entries.len();
        proof {
            assert(self.entries@.skip(i as int) =~= Seq::<DepositInfo>::empty());
        }
        while i > 0
            invariant
                i <= self.entries.len(),
                sum@ == total_amount(self.entries@.skip(i as int)),
            decreases i,
        {
            i -= 1;
            proof {
                let tail = self.entries@.skip(i as int);
                assert(tail.skip(1) =~= self.entries@.skip(i + 1));
                assert(tail[0] == self.entries@[i as int]);
            }
            match sum.checked_add(self.entries[i].amount) {
                Some(s) => {
                    sum = s;
                },
                None => {
                    proof {
                        lemma_total_suffix_le(self.entries@, i as int);
                    }
                    return None;
                },
            }
        }
        proof {
            assert(self.entries@.skip(0) =~= self.entries@);
            U256::lemma_view_bound(sum);
        }
        Some(sum)
    }

    /// The interest that a withdrawal of `amount` at
    /// `accumulated_interest_rate` would earn, or `None` where the
    /// withdrawal cannot be made or the interest does not fit in 256 bits.
    pub fn interest_if_withdrawn(&self, amount: U256, accumulated_interest_rate: U256) -> (r:
        Option<U256>)
        ensures
            r.is_some() <==> can_withdraw(self@, amount@, accumulated_interest_rate@)
                && interest_due(self@, amount@, accumulated_interest_rate@) < pow2_256(),
            r.is_some() ==> r.unwrap()@ == interest_due(
                self@,
                amount@,
                accumulated_interest_rate@,
            ),
    {
        let ghost s = self@;
        let ghost rate = accumulated_interest_rate@;
        let n: usize = self.entries.len();
        let mut rest = amount;
        let mut interest = U256::zero();
        let mut index: usize = 0;
        proof {
            assert(s.skip(0) =~= s);
        }
        while !rest.is_zero()
            invariant
                self@ == s,
                n == s.len(),
                index <= n,
                rate == accumulated_interest_rate@,
                can_withdraw(s, amount@, rate) <==> can_withdraw(s.skip(index as int), rest@, rate),
                interest_due(s, amount@, rate) == interest@ + interest_due(
                    s.skip(index as int),
                    rest@,
                    rate,
                ),
            decreases n - index,
        {
            if index >= n {
                return None;
            }
            let entry = self.entries[index];
            let portion = entry.amount.min(rest);
            proof {
                let tail = s.skip(index as int);
                assert(tail[0] == entry);
                assert(tail.skip(1) =~= s.skip(index + 1));
                assert(portion@ == portion_of(entry, rest@));
            }
            if entry.accumulated_interest_rate.is_zero() || accumulated_interest_rate.less_than(
                &entry.accumulated_interest_rate,
            ) {
                return None;
            }
            let gain = accumulated_interest_rate.checked_sub(
                entry.accumulated_interest_rate,
            ).unwrap();
            let earned = match checked_mul(portion, gain) {
                Some(scaled) => checked_div(scaled, entry.accumulated_interest_rate).unwrap(),
                None => {
                    return None;
                },
            };
            match interest.checked_add(earned) {
                Some(sum) => {
                    interest = sum;
                },
                None => {
                    return None;
                },
            }
            rest = rest.checked_sub(portion).unwrap();
            index += 1;
        }
        proof {
            U256::lemma_view_bound(interest);
        }
        Some(interest)
    }

    /// Records a deposit made after all those in the ledger.
    pub fn push(&mut self, info: DepositInfo)
        requires
            old(self).wf(),
            old(self)@.len() > 0 ==> old(self)@.last().deposit_time < info.deposit_time,
        ensures
            final(self).wf(),
            final(self)@ == old(self)@.push(info),
            total_amount(final(self)@) == total_amount(old(self)@) + info.amount@,
    {
        proof {
            lemma_total_push(self@, info);
            let s = self@;
            let t = s.push(info);
            assert forall|i: int, j: int| 0 <= i < j < t.len() implies t[i].deposit_time
                < t[j].deposit_time by {
                if j == s.len() {
                    if i < s.len() - 1 {
                        assert(s[i].deposit_time < s[s.len() - 1].deposit_time);
                    }
                }
            }
        }
        self.entries.push(info);
    }

    /// Takes `amount` out of the ledger, oldest deposit first, and returns
    /// the interest that the portions taken have earned up to
    /// `accumulated_interest_rate`.
    pub fn withdraw(&mut self, amount: U256, accumulated_interest_rate: U256) -> (interest: U256)
        requires
            old(self).wf(),
            can_withdraw(old(self)@, amount@, accumulated_interest_rate@),
            interest_due(old(self)@, amount@, accumulated_interest_rate@) < pow2_256(),
        ensures
            final(self).wf(),
            final(self)@ == after_withdraw(old(self)@, amount@),
            interest@ == interest_due(old(self)@, amount@, accumulated_interest_rate@),
            total_amount(final(self)@) == total_amount(old(self)@) - amount@,
    {
        let ghost s = self@;
        let ghost rate = accumulated_interest_rate@;
        let n: usize = self.entries.len();
        let mut rest = amount;
        let mut interest = U256::zero();
        let mut index: usize = 0;
        proof {
            assert(s.skip(0) =~= s);
            lemma_can_withdraw_bound(s, amount@, rate);
            lemma_withdraw_total(s, amount@);
            lemma_withdraw_ordered(s, amount@);
        }
        while !rest.is_zero() && index < n && self.entries[index].amount.at_most(&rest)
            invariant
                self@ == s,
                n == s.len(),
                index <= n,
                rate == accumulated_interest_rate@,
                can_withdraw(s.skip(index as int), rest@, rate),
                after_withdraw(s, amount@) == after_withdraw(s.skip(index as int), rest@),
                interest_due(s, amount@, rate) == interest@ + interest_due(
                    s.skip(index as int),
                    rest@,
                    rate,
                ),
                interest_due(s, amount@, rate) < pow2_256(),
            decreases n - index,
        {
            let entry = self.entries[index];
            proof {
                let tail = s.skip(index as int);
                assert(tail[0] == entry);
                assert(tail.skip(1) =~= s.skip(index + 1));
                assert(portion_of(entry, rest@) == entry.amount@);
            }
            let earned = interest_for(
                entry.amount,
                accumulated_interest_rate,
                entry.accumulated_interest_rate,
            );
            interest = interest.checked_add(earned).unwrap();
            rest = rest.checked_sub(entry.amount).unwrap();
            index += 1;
        }
        let mut out: Vec<DepositInfo> = Vec::new();
        let mut from: usize = index;
        if !rest.is_zero() {
            proof {
                let tail = s.skip(index as int);
                assert(tail.len() > 0);
                assert(tail[0] == s[index as int]);
                assert(tail.skip(1) =~= s.skip(index + 1));
                assert(portion_of(tail[0], rest@) == rest@);
                assert(interest_due(tail.skip(1), 0, rate) == 0);
                lemma_u256_of((s[index as int].amount@ - rest@) as nat);
            }
            let entry = self.entries[index];
            let earned = interest_for(rest, accumulated_interest_rate, entry.accumulated_interest_rate);
            interest = interest.checked_add(earned).unwrap();
            let left = entry.amount.checked_sub(rest).unwrap();
            proof {
                U256::lemma_view_injective(left, u256_of((entry.amount@ - rest@) as nat));
            }
            out.push(
                DepositInfo {
                    amount: left,
                    deposit_time: entry.deposit_time,
                    accumulated_interest_rate: entry.accumulated_interest_rate,
                },
            );
            from = index + 1;
        }
        let ghost head = out@;
        let mut t: usize = from;
        while t < n
            invariant
                self@ == s,
                n == s.len(),
                from <= t <= n,
                out@ == head + s.subrange(from as int, t as int),
            decreases n - t,
        {
            out.push(self.entries[t]);
            proof {
                assert(head + s.subrange(from as int, t + 1) =~= (head + s.subrange(
                    from as int,
                    t as int,
                )).push(s[t as int]));
            }
            t += 1;
        }
        proof {
            let tail = s.skip(index as int);
            if rest@ == 0 {
                assert(out@ =~= tail);
            } else {
                assert(out@ =~= after_withdraw(tail, rest@));
            }
        }
        self.entries = out;
        interest
    }
}

/// The total of a ledger's tail is at most the total of the whole.
pub proof fn lemma_total_suffix_le(s: Seq<DepositInfo>, k: int)
    requires
        0 <= k <= s.len(),
    ensures
        total_amount(s.skip(k)) <= total_amount(s),
    decreases k,
{
    if k == 0 {
        assert(s.skip(0) =~= s);
    } else {
        lemma_total_suffix_le(s.skip(1), k - 1);
        assert(s.skip(1).skip(k - 1) =~= s.skip(k));
    }
}

} // verus!
