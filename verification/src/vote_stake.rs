//! The vote-lock schedule: a staircase of "at least this much stays locked
//! until that block" commitments in which no entry is dominated by another.

use crate::uint::U256;
use vstd::prelude::*;

verus! {

/// A commitment to keep `amount` staked until `unlock_block_number`.
#[derive(Clone, Copy, Debug, PartialEq, Eq, Structural)]
pub struct VoteStakeInfo {
    pub amount: U256,
    pub unlock_block_number: u64,
}

/// The schedule invariant: unlock blocks strictly ascend and amounts
/// strictly descend, so no entry is dominated by another.
pub open spec fn is_skyline(s: Seq<VoteStakeInfo>) -> bool {
    forall|i: int, j: int|
        0 <= i < j < s.len() ==> s[i].unlock_block_number < s[j].unlock_block_number
            && s[i].amount@ > s[j].amount@
}

/// The amount locked at `block`: that of the first entry that unlocks
/// strictly after `block`, and zero when there is none. In a skyline that
/// entry is the one with the smallest such unlock block.
pub open spec fn locked_at(s: Seq<VoteStakeInfo>, block: int) -> nat
    decreases s.len(),
{
    if s.len() == 0 {
        0
    } else if s[0].unlock_block_number > block {
        s[0].amount@
    } else {
        locked_at(s.skip(1), block)
    }
}

/// An entry that a new commitment of `amount` until `unlock` makes
/// redundant: it unlocks no later and locks no more.
pub open spec fn dominated(e: VoteStakeInfo, amount: U256, unlock: u64) -> bool {
    e.unlock_block_number <= unlock && e.amount@ <= amount@
}

/// The schedule with every dominated entry removed and the new commitment
/// put at its place in the order of unlock blocks.
pub open spec fn merged(s: Seq<VoteStakeInfo>, amount: U256, unlock: u64) -> Seq<VoteStakeInfo> {
    s.filter(|e: VoteStakeInfo| !dominated(e, amount, unlock) && e.unlock_block_number < unlock).push(
        VoteStakeInfo { amount, unlock_block_number: unlock },
    ) + s.filter(
        |e: VoteStakeInfo| !dominated(e, amount, unlock) && e.unlock_block_number >= unlock,
    )
}

/// What `vote_lock` leaves: the schedule itself where it already locks at
/// least `amount` through the block before `unlock`, and the merged
/// schedule otherwise.
pub open spec fn vote_lock_result(s: Seq<VoteStakeInfo>, amount: U256, unlock: u64) -> Seq<
    VoteStakeInfo,
> {
    if locked_at(s, unlock - 1) >= amount@ {
        s
    } else {
        merged(s, amount, unlock)
    }
}

/// The schedule without the entries that have unlocked by `block`.
pub open spec fn unexpired(s: Seq<VoteStakeInfo>, block: u64) -> Seq<VoteStakeInfo> {
    s.filter(|e: VoteStakeInfo| e.unlock_block_number > block)
}

/// A filter whose predicate holds on exactly the first `k` items keeps
/// exactly those.
pub proof fn lemma_filter_prefix<A>(s: Seq<A>, pred: spec_fn(A) -> bool, k: int)
    requires
        0 <= k <= s.len(),
        forall|i: int| 0 <= i < k ==> pred(#[trigger] s[i]),
        forall|i: int| k <= i < s.len() ==> !pred(#[trigger] s[i]),
    ensures
        s.filter(pred) == s.take(k),
    decreases s.len(),
{
    reveal(Seq::filter);
    if s.len() == 0 {
        assert(s.take(k) =~= s);
    } else {
        let front = s.drop_last();
        assert forall|i: int| 0 <= i < front.len() implies front[i] == s[i] by {}
        if k == s.len() {
            lemma_filter_prefix(front, pred, k - 1);
            assert(front.take(k - 1) =~= front);
            assert(front.push(s.last()) =~= s);
            assert(s.take(k) =~= s);
        } else {
            lemma_filter_prefix(front, pred, k);
            assert(front.take(k) =~= s.take(k));
        }
    }
}

/// A filter whose predicate holds on exactly the items from `j` on keeps
/// exactly those.
pub proof fn lemma_filter_suffix<A>(s: Seq<A>, pred: spec_fn(A) -> bool, j: int)
    requires
        0 <= j <= s.len(),
        forall|i: int| 0 <= i < j ==> !pred(#[trigger] s[i]),
        forall|i: int| j <= i < s.len() ==> pred(#[trigger] s[i]),
    ensures
        s.filter(pred) == s.skip(j),
    decreases s.len(),
{
    reveal(Seq::filter);
    if s.len() == 0 {
        assert(s.skip(j) =~= s);
    } else {
        let front = s.drop_last();
        assert forall|i: int| 0 <= i < front.len() implies front[i] == s[i] by {}
        if j == s.len() {
            lemma_filter_suffix(front, pred, j - 1);
            assert(front.skip(j - 1) =~= Seq::<A>::empty());
            assert(s.skip(j) =~= Seq::<A>::empty());
        } else {
            lemma_filter_suffix(front, pred, j);
            assert(front.skip(j).push(s.last()) =~= s.skip(j));
        }
    }
}

/// In a skyline whose first `k` entries are the ones that unlock by
/// `block`, the amount locked at `block` is that of entry `k`.
pub proof fn lemma_locked_at_index(s: Seq<VoteStakeInfo>, block: int, k: int)
    requires
        0 <= k <= s.len(),
        forall|i: int| 0 <= i < k ==> (#[trigger] s[i]).unlock_block_number <= block,
        forall|i: int| k <= i < s.len() ==> (#[trigger] s[i]).unlock_block_number > block,
    ensures
        locked_at(s, block) == if k < s.len() {
            s[k].amount@
        } else {
            0
        },
    decreases s.len(),
{
    if s.len() > 0 && k > 0 {
        let rest = s.skip(1);
        assert forall|i: int| 0 <= i < rest.len() implies rest[i] == s[i + 1] by {}
        assert(s[0].unlock_block_number <= block);
        lemma_locked_at_index(rest, block, k - 1);
    } else if s.len() > 0 {
        assert(s[0].unlock_block_number > block);
    }
}

/// The number of leading entries of `s` that unlock by `block`.
pub open spec fn expired_count(s: Seq<VoteStakeInfo>, block: int) -> nat
    decreases s.len(),
{
    if s.len() == 0 || s[0].unlock_block_number > block {
        0
    } else {
        1 + expired_count(s.skip(1), block)
    }
}

/// `expired_count` splits a skyline into the entries that have unlocked
/// by `block` and those that have not.
pub proof fn lemma_expired_count(s: Seq<VoteStakeInfo>, block: int)
    requires
        is_skyline(s),
    ensures
        expired_count(s, block) <= s.len(),
        forall|i: int|
            0 <= i < expired_count(s, block) ==> (#[trigger] s[i]).unlock_block_number <= block,
        forall|i: int|
            expired_count(s, block) <= i < s.len() ==> (#[trigger] s[i]).unlock_block_number
                > block,
    decreases s.len(),
{
    if s.len() == 0 {
    } else if s[0].unlock_block_number > block {
        assert forall|i: int| 0 <= i < s.len() implies (#[trigger] s[i]).unlock_block_number
            > block by {
            if i > 0 {
                assert(s[0].unlock_block_number < s[i].unlock_block_number);
            }
        }
    } else {
        let rest = s.skip(1);
        assert forall|i: int| 0 <= i < rest.len() implies rest[i] == s[i + 1] by {}
        assert(is_skyline(rest));
        lemma_expired_count(rest, block);
        let c = expired_count(rest, block);
        assert forall|i: int| 0 <= i < c + 1 implies (#[trigger] s[i]).unlock_block_number
            <= block by {
            if i > 0 {
                assert(rest[i - 1] == s[i]);
            }
        }
        assert forall|i: int| c + 1 <= i < s.len() implies (#[trigger] s[i]).unlock_block_number
            > block by {
            assert(rest[i - 1] == s[i]);
        }
    }
}

/// For a fixed skyline the locked amount never grows as the block grows.
pub proof fn lemma_locked_monotone(s: Seq<VoteStakeInfo>, earlier: int, later: int)
    requires
        is_skyline(s),
        earlier <= later,
    ensures
        locked_at(s, earlier) >= locked_at(s, later),
{
    lemma_expired_count(s, earlier);
    lemma_expired_count(s, later);
    let a = expired_count(s, earlier) as int;
    let b = expired_count(s, later) as int;
    lemma_locked_at_index(s, earlier, a);
    lemma_locked_at_index(s, later, b);
    if b < s.len() {
        if a > b {
            assert(s[b].unlock_block_number <= earlier);
        }
        if a < b {
            assert(s[a].amount@ > s[b].amount@);
        }
    }
}

/// From the last entry's unlock block on, nothing is locked.
pub proof fn lemma_locked_zero_at_end(s: Seq<VoteStakeInfo>, block: int)
    requires
        is_skyline(s),
        s.len() == 0 || s.last().unlock_block_number <= block,
    ensures
        locked_at(s, block) == 0,
{
    assert forall|i: int| 0 <= i < s.len() implies (#[trigger] s[i]).unlock_block_number
        <= block by {
        if i < s.len() - 1 {
            assert(s[i].unlock_block_number < s[s.len() - 1].unlock_block_number);
        }
    }
    lemma_locked_at_index(s, block, s.len() as int);
}

/// In a skyline the amount locked at `block` is the largest amount among
/// the entries that unlock after `block`.
pub proof fn lemma_locked_is_ceiling(s: Seq<VoteStakeInfo>, block: int, i: int)
    requires
        is_skyline(s),
        0 <= i < s.len(),
        s[i].unlock_block_number > block,
    ensures
        s[i].amount@ <= locked_at(s, block),
{
    lemma_expired_count(s, block);
    let k = expired_count(s, block) as int;
    lemma_locked_at_index(s, block, k);
    if i < k {
        assert(s[i].unlock_block_number <= block);
    }
    if k < i {
        assert(s[k].amount@ > s[i].amount@);
    }
}

/// The shape of the merged schedule: the first `k` entries, the new
/// commitment, and the entries from `j` on, where `k` counts the entries
/// that unlock before `unlock` and lock more than `amount`, and `j` is the
/// index of the first entry that unlocks after `unlock`.
pub proof fn lemma_merged_shape(
    s: Seq<VoteStakeInfo>,
    amount: U256,
    unlock: u64,
    k: int,
    j: int,
)
    requires
        is_skyline(s),
        locked_at(s, unlock - 1) < amount@,
        0 <= k <= j <= s.len(),
        forall|i: int| 0 <= i < k ==> (#[trigger] s[i]).amount@ > amount@,
        forall|i: int| k <= i < j ==> (#[trigger] s[i]).amount@ <= amount@,
        forall|i: int| 0 <= i < j ==> (#[trigger] s[i]).unlock_block_number <= unlock,
        forall|i: int| j <= i < s.len() ==> (#[trigger] s[i]).unlock_block_number > unlock,
    ensures
        merged(s, amount, unlock) == s.take(k).push(
            VoteStakeInfo { amount, unlock_block_number: unlock },
        ) + s.skip(j),
        is_skyline(merged(s, amount, unlock)),
{
    let entry = VoteStakeInfo { amount, unlock_block_number: unlock };
    let before = |e: VoteStakeInfo| !dominated(e, amount, unlock) && e.unlock_block_number < unlock;
    let after = |e: VoteStakeInfo| !dominated(e, amount, unlock) && e.unlock_block_number >= unlock;
    assert forall|i: int| 0 <= i < s.len() && (#[trigger] s[i]).unlock_block_number
        >= unlock implies s[i].amount@ < amount@ by {
        lemma_locked_is_ceiling(s, unlock - 1, i);
    }
    assert forall|i: int| 0 <= i < k implies before(#[trigger] s[i]) by {
        assert(s[i].amount@ > amount@);
        assert(s[i].unlock_block_number <= unlock);
    }
    assert forall|i: int| k <= i < s.len() implies !before(#[trigger] s[i]) by {
        if i < j {
            assert(s[i].amount@ <= amount@);
            assert(s[i].unlock_block_number <= unlock);
        } else {
            assert(s[i].unlock_block_number > unlock);
        }
    }
    assert forall|i: int| 0 <= i < j implies !after(#[trigger] s[i]) by {
        assert(s[i].unlock_block_number <= unlock);
    }
    assert forall|i: int| j <= i < s.len() implies after(#[trigger] s[i]) by {
        assert(s[i].unlock_block_number > unlock);
    }
    lemma_filter_prefix(s, before, k);
    lemma_filter_suffix(s, after, j);
    let m = s.take(k).push(entry) + s.skip(j);
    assert(merged(s, amount, unlock) == m);
    assert forall|a: int, b: int| 0 <= a < b < m.len() implies m[a].unlock_block_number
        < m[b].unlock_block_number && m[a].amount@ > m[b].amount@ by {
        if b < k {
            assert(m[a] == s[a] && m[b] == s[b]);
        } else if b == k {
            assert(m[a] == s[a]);
            assert(m[b] == entry);
            assert(s[a].amount@ > amount@);
            assert(s[a].unlock_block_number <= unlock);
        } else if a < k {
            assert(m[a] == s[a]);
            assert(m[b] == s[b - k - 1 + j]);
        } else if a == k {
            assert(m[a] == entry);
            assert(m[b] == s[b - k - 1 + j]);
            assert(s[b - k - 1 + j].unlock_block_number > unlock);
        } else {
            assert(m[a] == s[a - k - 1 + j]);
            assert(m[b] == s[b - k - 1 + j]);
        }
    }
}

/// Locking `amount` until `unlock` leaves a schedule that already locks at
/// least as much through the block before `unlock` exactly as it was.
pub proof fn lemma_vote_lock_dominated(s: Seq<VoteStakeInfo>, amount: U256, unlock: u64)
    requires
        locked_at(s, unlock - 1) >= amount@,
    ensures
        vote_lock_result(s, amount, unlock) == s,
{
}

/// Locking keeps a skyline a skyline.
pub proof fn lemma_vote_lock_keeps_skyline(s: Seq<VoteStakeInfo>, amount: U256, unlock: u64)
    requires
        is_skyline(s),
    ensures
        is_skyline(vote_lock_result(s, amount, unlock)),
{
    if locked_at(s, unlock - 1) < amount@ {
        lemma_expired_count(s, unlock as int);
        let j = expired_count(s, unlock as int) as int;
        let k = kept_below(s, amount, j);
        lemma_kept_below(s, amount, j);
        lemma_merged_shape(s, amount, unlock, k as int, j);
    }
}

/// The schedule after one `vote_lock` for each of `calls`, in their order.
pub open spec fn vote_lock_all(s: Seq<VoteStakeInfo>, calls: Seq<VoteStakeInfo>) -> Seq<
    VoteStakeInfo,
>
    decreases calls.len(),
{
    if calls.len() == 0 {
        s
    } else {
        vote_lock_all(
            vote_lock_result(s, calls[0].amount, calls[0].unlock_block_number),
            calls.skip(1),
        )
    }
}

/// After any sequence of locks a skyline is still a skyline; so is every
/// schedule that grew from the empty one.
pub proof fn lemma_vote_lock_all_keeps_skyline(s: Seq<VoteStakeInfo>, calls: Seq<VoteStakeInfo>)
    requires
        is_skyline(s),
    ensures
        is_skyline(vote_lock_all(s, calls)),
    decreases calls.len(),
{
    if calls.len() > 0 {
        lemma_vote_lock_keeps_skyline(s, calls[0].amount, calls[0].unlock_block_number);
        lemma_vote_lock_all_keeps_skyline(
            vote_lock_result(s, calls[0].amount, calls[0].unlock_block_number),
            calls.skip(1),
        );
    }
}

/// The number of entries among the first `j` that lock more than `amount`.
pub open spec fn kept_below(s: Seq<VoteStakeInfo>, amount: U256, j: int) -> nat
    decreases j,
{
    if j <= 0 || j > s.len() || s[j - 1].amount@ > amount@ {
        if 0 <= j <= s.len() {
            j as nat
        } else {
            0
        }
    } else {
        kept_below(s, amount, j - 1)
    }
}

/// `kept_below` splits the first `j` entries of a skyline into those that
/// lock more than `amount` and those that do not.
pub proof fn lemma_kept_below(s: Seq<VoteStakeInfo>, amount: U256, j: int)
    requires
        is_skyline(s),
        0 <= j <= s.len(),
    ensures
        kept_below(s, amount, j) <= j,
        forall|i: int| 0 <= i < kept_below(s, amount, j) ==> (#[trigger] s[i]).amount@ > amount@,
        forall|i: int| kept_below(s, amount, j) <= i < j ==> (#[trigger] s[i]).amount@ <= amount@,
    decreases j,
{
    if j > 0 {
        if s[j - 1].amount@ > amount@ {
            assert forall|i: int| 0 <= i < j implies (#[trigger] s[i]).amount@ > amount@ by {
                if i < j - 1 {
                    assert(s[i].amount@ > s[j - 1].amount@);
                }
            }
        } else {
            lemma_kept_below(s, amount, j - 1);
        }
    }
}

/// The vote-lock schedule of one account.
#[derive(Debug)]
pub struct VoteStakeList {
    entries: Vec<VoteStakeInfo>,
}

impl View for VoteStakeList {
    type V = Seq<VoteStakeInfo>;

    closed spec fn view(&self) -> Seq<VoteStakeInfo> {
        self.entries@
    }
}

impl VoteStakeList {
    /// The schedule is a skyline.
    pub open spec fn wf(&self) -> bool {
        is_skyline(self@)
    }

    /// The empty schedule.
    pub fn new() -> (r: VoteStakeList)
        ensures
            r@ == Seq::<VoteStakeInfo>::empty(),
            r.wf(),
    {
        VoteStakeList { entries: Vec::new() }
    }

    /// The schedule that holds `entries`, if they form a skyline.
    pub fn from_entries(entries: Vec<VoteStakeInfo>) -> (r: Option<VoteStakeList>)
        ensures
            r.is_some() <==> is_skyline(entries@),
            r.is_some() ==> r.unwrap()@ == entries@,
    {
        let n: usize = entries.len();
        let mut i: usize = 1;
        while i < n
            invariant
                n == entries.len(),
                1 <= i,
                forall|a: int| 0 < a < i && a < n ==> (#[trigger] entries@[a - 1]).unlock_block_number
                    < entries@[a].unlock_block_number && entries@[a - 1].amount@
                    > entries@[a].amount@,
            decreases n - i,
        {
            let prev = entries[i - 1];
            let cur = entries[i];
            if !(prev.unlock_block_number < cur.unlock_block_number && cur.amount.less_than(
                &prev.amount,
            )) {
                proof {
                    if is_skyline(entries@) {
                        assert(entries@[i - 1].unlock_block_number < entries@[i as int].unlock_block_number
                            && entries@[i - 1].amount@ > entries@[i as int].amount@);
                    }
                }
                return None;
            }
            i += 1;
        }
        proof {
            lemma_adjacent_skyline(entries@);
        }
        Some(VoteStakeList { entries })
    }

    pub fn len(&self) -> (r: usize)
        ensures
            r == self@.len(),
    {
        self.entries.len()
    }

    pub fn is_empty(&self) -> (r: bool)
        ensures
            r == (self@.len() == 0),
    {
        self.entries.len() == 0
    }

    /// Whether this is the schedule of an account that never locked: the
    /// empty one.
    pub fn is_default(&self) -> (r: bool)
        ensures
            r == (self@.len() == 0),
    {
        self.entries.len() == 0
    }

    /// The entries in order.
    pub fn entries(&self) -> (r: &Vec<VoteStakeInfo>)
        ensures
            r@ == self@,
    {
        &self.entries
    }

    /// Entry `index`.
    pub fn get(&self, index: usize) -> (r: VoteStakeInfo)
        requires
            index < self@.len(),
        ensures
            r == self@[index as int],
    {
        self.entries[index]
    }

    /// A copy that shares nothing with `self`.
    pub fn duplicate(&self) -> (r: VoteStakeList)
        ensures
            r@ == self@,
    {
        let mut out: Vec<VoteStakeInfo> = Vec::new();
        let n: usize = self.entries.len();
        let mut i: usize = 0;
        while i < n
            invariant
                n == self.entries.len(),
                i <= n,
                out@ == self.entries@.take(i as int),
            decreases n - i,
        {
            out.push(self.entries[i]);
            proof {
                assert(self.entries@.take(i + 1) =~= self.entries@.take(i as int).push(
                    self.entries@[i as int],
                ));
            }
            i += 1;
        }
        proof {
            assert(self.entries@.take(n as int) =~= self.entries@);
        }
        VoteStakeList { entries: out }
    }

    /// The index of the first entry that unlocks at `bound` or later, found
    /// by bisection.
    fn lower_bound(&self, bound: u64) -> (r: usize)
        requires
            self.wf(),
        ensures
            r <= self@.len(),
            forall|i: int| 0 <= i < r ==> (#[trigger] self@[i]).unlock_block_number < bound,
            forall|i: int| r <= i < self@.len() ==> (#[trigger] self@[i]).unlock_block_number >= bound,
    {
        let mut lo: usize = 0;
        let mut hi: usize = self.entries.len();
        while lo < hi
            invariant
                self.wf(),
                lo <= hi <= self.entries.len(),
                forall|i: int| 0 <= i < lo ==> (#[trigger] self@[i]).unlock_block_number < bound,
                forall|i: int|
                    hi <= i < self@.len() ==> (#[trigger] self@[i]).unlock_block_number >= bound,
            decreases hi - lo,
        {
            let mid: usize = lo + (hi - lo) / 2;
            if self.entries[mid].unlock_block_number < bound {
                proof {
                    assert forall|i: int| 0 <= i < mid + 1 implies (#[trigger] self@[i]).unlock_block_number
                        < bound by {
                        if i < mid {
                            assert(self@[i].unlock_block_number < self@[mid as int].unlock_block_number);
                        }
                    }
                }
                lo = mid + 1;
            } else {
                proof {
                    assert forall|i: int| mid <= i < self@.len() implies (#[trigger] self@[i]).unlock_block_number
                        >= bound by {
                        if mid < i {
                            assert(self@[mid as int].unlock_block_number < self@[i].unlock_block_number);
                        }
                    }
                }
                hi = mid;
            }
        }
        lo
    }

    /// The index of the first entry that unlocks strictly after `block`.
    fn first_after(&self, block: u64) -> (r: usize)
        requires
            self.wf(),
        ensures
            r <= self@.len(),
            forall|i: int| 0 <= i < r ==> (#[trigger] self@[i]).unlock_block_number <= block,
            forall|i: int| r <= i < self@.len() ==> (#[trigger] self@[i]).unlock_block_number > block,
    {
        if block == u64::MAX {
            self.entries.len()
        } else {
            self.lower_bound(block + 1)
        }
    }

    /// The amount that stays locked at `block_number`.
    pub fn locked(&self, block_number: u64) -> (r: U256)
        requires
            self.wf(),
        ensures
            r@ == locked_at(self@, block_number as int),
    {
        let idx: usize = self.first_after(block_number);
        proof {
            lemma_locked_at_index(self@, block_number as int, idx as int);
        }
        if idx < self.entries.len() {
            self.entries[idx].amount
        } else {
            U256::zero()
        }
    }

    /// What of `staking_balance` is free to withdraw at `block_number`:
    /// the balance less the amount locked then.
    pub fn withdrawable_staking_balance(&self, staking_balance: U256, block_number: u64) -> (r:
        U256)
        requires
            self.wf(),
            locked_at(self@, block_number as int) <= staking_balance@,
        ensures
            r@ == staking_balance@ - locked_at(self@, block_number as int),
    {
        let locked = self.locked(block_number);
        staking_balance.checked_sub(locked).unwrap()
    }

    /// Drops the entries that have unlocked by `block_number`; they stand
    /// at the front.
    pub fn remove_expired_vote_stake_info(&mut self, block_number: u64)
        requires
            old(self).wf(),
        ensures
            final(self).wf(),
            final(self)@ == unexpired(old(self)@, block_number),
            final(self)@ == old(self)@.skip(expired_count(old(self)@, block_number as int) as int),
            forall|b: int|
                b >= block_number ==> locked_at(final(self)@, b) == locked_at(old(self)@, b),
    {
        let idx: usize = self.first_after(block_number);
        let n: usize = self.entries.len();
        proof {
            lemma_filter_suffix(
                self@,
                |e: VoteStakeInfo| e.unlock_block_number > block_number,
                idx as int,
            );
            lemma_expired_count(self@, block_number as int);
            let c = expired_count(self@, block_number as int) as int;
            if c < idx {
                assert(self@[c].unlock_block_number > block_number);
            }
            if idx < c {
                assert(self@[idx as int].unlock_block_number <= block_number);
            }
            assert forall|b: int| b >= block_number implies locked_at(
                self@.skip(idx as int),
                b,
            ) == locked_at(self@, b) by {
                lemma_locked_after_skip(self@, idx as int, b);
            }
        }
        if idx > 0 {
            let mut out: Vec<VoteStakeInfo> = Vec::new();
            let mut i: usize = idx;
            while i < n
                invariant
                    n == self.entries.len(),
                    idx <= i <= n,
                    out@ == self.entries@.subrange(idx as int, i as int),
                decreases n - i,
            {
                out.push(self.entries[i]);
                proof {
                    assert(self.entries@.subrange(idx as int, i + 1) =~= self.entries@.subrange(
                        idx as int,
                        i as int,
                    ).push(self.entries@[i as int]));
                }
                i += 1;
            }
            proof {
                assert(self.entries@.subrange(idx as int, n as int) =~= self.entries@.skip(
                    idx as int,
                ));
                let rest = self.entries@.skip(idx as int);
                assert forall|a: int, b: int| 0 <= a < b < rest.len() implies rest[a].unlock_block_number
                    < rest[b].unlock_block_number && rest[a].amount@ > rest[b].amount@ by {
                    assert(rest[a] == self.entries@[a + idx]);
                    assert(rest[b] == self.entries@[b + idx]);
                }
            }
            self.entries = out;
        } else {
            proof {
                assert(self@.skip(0) =~= self@);
            }
        }
    }

    /// The number of entries among the first `idx` that lock more than
    /// `amount`; in a skyline they stand at the front.
    fn kept_prefix(&self, amount: U256, idx: usize) -> (k: usize)
        requires
            self.wf(),
            idx <= self@.len(),
        ensures
            k <= idx,
            forall|i: int| 0 <= i < k ==> (#[trigger] self@[i]).amount@ > amount@,
            forall|i: int| k <= i < idx ==> (#[trigger] self@[i]).amount@ <= amount@,
    {
        let mut k: usize = idx;
        while k > 0 && !amount.less_than(&self.entries[k - 1].amount)
            invariant
                k <= idx <= self.entries@.len(),
                forall|i: int| k <= i < idx ==> (#[trigger] self.entries@[i]).amount@ <= amount@,
            decreases k,
        {
            k -= 1;
        }
        proof {
            assert forall|i: int| 0 <= i < k implies (#[trigger] self@[i]).amount@ > amount@ by {
                if i < k - 1 {
                    assert(self@[i].amount@ > self@[k - 1].amount@);
                }
            }
        }
        k
    }

    /// The first `k` entries, then `entry`, then the entries from `j` on.
    fn spliced(&self, k: usize, entry: VoteStakeInfo, j: usize) -> (out: Vec<VoteStakeInfo>)
        requires
            k <= j <= self@.len(),
        ensures
            out@ == self@.take(k as int).push(entry) + self@.skip(j as int),
    {
        let n: usize = self.entries.len();
        let mut out: Vec<VoteStakeInfo> = Vec::new();
        let mut i: usize = 0;
        while i < k
            invariant
                n == self.entries.len(),
                i <= k <= n,
                out@ == self.entries@.take(i as int),
            decreases k - i,
        {
            out.push(self.entries[i]);
            proof {
                assert(self.entries@.take(i + 1) =~= self.entries@.take(i as int).push(
                    self.entries@[i as int],
                ));
            }
            i += 1;
        }
        out.push(entry);
        let ghost head = out@;
        let mut t: usize = j;
        while t < n
            invariant
                n == self.entries.len(),
                j <= t <= n,
                out@ == head + self.entries@.subrange(j as int, t as int),
            decreases n - t,
        {
            out.push(self.entries[t]);
            proof {
                assert(head + self.entries@.subrange(j as int, t + 1) =~= (head
                    + self.entries@.subrange(j as int, t as int)).push(self.entries@[t as int]));
            }
            t += 1;
        }
        proof {
            assert(self.entries@.subrange(j as int, n as int) =~= self.entries@.skip(j as int));
        }
        out
    }

    /// Commits to keep `amount` locked until `unlock_block_number`.
    ///
    /// Nothing changes where the schedule already locks at least `amount`
    /// through the block before `unlock_block_number`. Otherwise every
    /// entry that unlocks no later and locks no more is dropped, and the
    /// new commitment takes its place in the order.
    pub fn vote_lock(&mut self, amount: U256, unlock_block_number: u64)
        requires
            old(self).wf(),
        ensures
            final(self).wf(),
            final(self)@ == vote_lock_result(old(self)@, amount, unlock_block_number),
    {
        let n: usize = self.entries.len();
        let idx: usize = self.lower_bound(unlock_block_number);
        proof {
            lemma_locked_at_index(self@, unlock_block_number - 1, idx as int);
        }
        let ceiling = if idx < n {
            self.entries[idx].amount
        } else {
            U256::zero()
        };
        if !ceiling.less_than(&amount) {
            return ;
        }
        let j: usize = if idx < n && self.entries[idx].unlock_block_number == unlock_block_number {
            idx + 1
        } else {
            idx
        };
        let k: usize = self.kept_prefix(amount, idx);
        proof {
            let s = self@;
            assert forall|i: int| j <= i < n implies (#[trigger] s[i]).unlock_block_number
                > unlock_block_number by {
                if i > idx {
                    assert(s[idx as int].unlock_block_number < s[i].unlock_block_number);
                }
            }
            assert forall|i: int| 0 <= i < j implies (#[trigger] s[i]).unlock_block_number
                <= unlock_block_number by {}
            assert forall|i: int| k <= i < j implies (#[trigger] s[i]).amount@ <= amount@ by {}
            lemma_merged_shape(s, amount, unlock_block_number, k as int, j as int);
        }
        let out = self.spliced(k, VoteStakeInfo { amount, unlock_block_number }, j);
        self.entries = out;
    }
}

/// Entries that ascend in unlock block and descend in amount from each to
/// the next form a skyline.
pub proof fn lemma_adjacent_skyline(s: Seq<VoteStakeInfo>)
    requires
        forall|a: int|
            0 < a < s.len() ==> (#[trigger] s[a - 1]).unlock_block_number
                < s[a].unlock_block_number && s[a - 1].amount@ > s[a].amount@,
    ensures
        is_skyline(s),
{
    assert forall|i: int, j: int| 0 <= i < j < s.len() implies s[i].unlock_block_number
        < s[j].unlock_block_number && s[i].amount@ > s[j].amount@ by {
        lemma_adjacent_pair(s, i, j);
    }
}

proof fn lemma_adjacent_pair(s: Seq<VoteStakeInfo>, i: int, j: int)
    requires
        forall|a: int|
            0 < a < s.len() ==> (#[trigger] s[a - 1]).unlock_block_number
                < s[a].unlock_block_number && s[a - 1].amount@ > s[a].amount@,
        0 <= i < j < s.len(),
    ensures
        s[i].unlock_block_number < s[j].unlock_block_number,
        s[i].amount@ > s[j].amount@,
    decreases j - i,
{
    assert(s[j - 1].unlock_block_number < s[j].unlock_block_number && s[j - 1].amount@
        > s[j].amount@);
    if i < j - 1 {
        lemma_adjacent_pair(s, i, j - 1);
    }
}

/// Dropping entries that have unlocked by `block` changes nothing about
/// the amount locked at `block` or later.
pub proof fn lemma_locked_after_skip(s: Seq<VoteStakeInfo>, k: int, block: int)
    requires
        0 <= k <= s.len(),
        forall|i: int| 0 <= i < k ==> (#[trigger] s[i]).unlock_block_number <= block,
    ensures
        locked_at(s.skip(k), block) == locked_at(s, block),
    decreases k,
{
    if k == 0 {
        assert(s.skip(0) =~= s);
    } else {
        assert(s[0].unlock_block_number <= block);
        let rest = s.skip(1);
        assert forall|i: int| 0 <= i < k - 1 implies (#[trigger] rest[i]).unlock_block_number
            <= block by {
            assert(rest[i] == s[i + 1]);
        }
        lemma_locked_after_skip(rest, k - 1, block);
        assert(rest.skip(k - 1) =~= s.skip(k));
    }
}

} // verus!
