use account_overlay::deposit::{interest_for, DepositInfo, DepositList};
use account_overlay::uint::U256;

fn u(value: u64) -> U256 {
    U256::from(value)
}

fn deposit(amount: u64, deposit_time: u64, rate: u64) -> DepositInfo {
    DepositInfo {
        amount: u(amount),
        deposit_time,
        accumulated_interest_rate: u(rate),
    }
}

fn ledger(entries: &[(u64, u64, u64)]) -> DepositList {
    DepositList::from_entries(
        entries.iter().map(|&(a, t, r)| deposit(a, t, r)).collect(),
    )
    .unwrap()
}

#[test]
fn ledger_accepts_only_ascending_deposit_times() {
    assert!(DepositList::from_entries(vec![]).is_some());
    assert!(DepositList::from_entries(vec![deposit(5, 3, 1)]).is_some());
    assert!(DepositList::from_entries(vec![deposit(5, 3, 1), deposit(5, 4, 1)]).is_some());
    assert!(DepositList::from_entries(vec![deposit(5, 3, 1), deposit(5, 3, 1)]).is_none());
    assert!(DepositList::from_entries(vec![deposit(5, 4, 1), deposit(5, 3, 1)]).is_none());
    assert!(DepositList::from_entries(vec![
        deposit(5, 1, 1),
        deposit(5, 2, 1),
        deposit(5, 2, 1),
    ])
    .is_none());
}

#[test]
fn empty_ledger_is_default() {
    let list = DepositList::new();
    assert!(list.is_default());
    assert!(list.is_empty());
    assert_eq!(list.len(), 0);
    assert_eq!(list.total(), Some(U256::zero()));
    assert!(!ledger(&[(1, 1, 1)]).is_default());
}

#[test]
fn total_sums_the_amounts() {
    let list = ledger(&[(10, 1, 1), (20, 2, 1), (12, 3, 1)]);
    assert_eq!(list.total(), Some(u(42)));
    let huge = DepositList::from_entries(vec![
        DepositInfo {
            amount: U256::max_value(),
            deposit_time: 1,
            accumulated_interest_rate: u(1),
        },
        deposit(1, 2, 1),
    ])
    .unwrap();
    assert_eq!(huge.total(), None);
}

#[test]
fn push_appends_at_the_tail() {
    let mut list = DepositList::new();
    list.push(deposit(10, 1, 7));
    list.push(deposit(20, 5, 8));
    assert_eq!(list.len(), 2);
    assert_eq!(list.get(0), deposit(10, 1, 7));
    assert_eq!(list.get(1), deposit(20, 5, 8));
    assert_eq!(list.entries(), &vec![deposit(10, 1, 7), deposit(20, 5, 8)]);
}

#[test]
fn interest_is_the_rounded_down_share_of_the_rate_gain() {
    // 1000 * (10 - 3) / 3 = 2333.33..
    assert_eq!(interest_for(u(1000), u(10), u(3)), u(2333));
    // 5 * (3 - 2) / 2 = 2.5
    assert_eq!(interest_for(u(5), u(3), u(2)), u(2));
    assert_eq!(interest_for(u(1), u(3), u(2)), u(0));
    assert_eq!(interest_for(u(0), u(3), u(2)), u(0));
    assert_eq!(interest_for(u(1000), u(3), u(3)), u(0));
}

#[test]
fn interest_on_amounts_beyond_128_bits() {
    // 2^128 * (3 - 1) / 1 = 2^129
    let portion = U256 { w3: 0, w2: 1, w1: 0, w0: 0 };
    assert_eq!(
        interest_for(portion, u(3), u(1)),
        U256 { w3: 0, w2: 2, w1: 0, w0: 0 }
    );
    // (2^64 - 1) * (2^64 - 1) / 1 = 2^128 - 2^65 + 1
    assert_eq!(
        interest_for(u(u64::MAX), U256 { w3: 0, w2: 0, w1: 1, w0: 0 }, u(1)),
        U256 { w3: 0, w2: 0, w1: u64::MAX - 1, w0: 1 }
    );
    // 2^192 * 2^63 / 2^65 = 2^190
    let portion = U256 { w3: 1, w2: 0, w1: 0, w0: 0 };
    let then = U256 { w3: 0, w2: 0, w1: 2, w0: 0 };
    let now = U256 { w3: 0, w2: 0, w1: 2, w0: 1 << 63 };
    assert_eq!(
        interest_for(portion, now, then),
        U256 { w3: 0, w2: 1 << 62, w1: 0, w0: 0 }
    );
}

#[test]
fn withdrawal_takes_the_oldest_deposit_first() {
    let mut list = ledger(&[(100, 1, 10), (200, 2, 20), (300, 3, 30)]);
    let interest = list.withdraw(u(150), u(40));
    // 100 * (40 - 10) / 10 + 50 * (40 - 20) / 20
    assert_eq!(interest, u(350));
    assert_eq!(list.entries(), &vec![deposit(150, 2, 20), deposit(300, 3, 30)]);
    assert_eq!(list.total(), Some(u(450)));
}

#[test]
fn withdrawal_of_a_whole_entry_removes_it() {
    let mut list = ledger(&[(100, 1, 10), (200, 2, 20)]);
    let interest = list.withdraw(u(100), u(15));
    assert_eq!(interest, u(50));
    assert_eq!(list.entries(), &vec![deposit(200, 2, 20)]);
    let interest = list.withdraw(u(200), u(20));
    assert_eq!(interest, u(0));
    assert!(list.is_empty());
}

#[test]
fn withdrawal_of_nothing_changes_nothing() {
    let mut list = ledger(&[(100, 1, 10), (200, 2, 20)]);
    let interest = list.withdraw(u(0), u(5));
    assert_eq!(interest, u(0));
    assert_eq!(list.entries(), &vec![deposit(100, 1, 10), deposit(200, 2, 20)]);
    let mut empty = DepositList::new();
    assert_eq!(empty.withdraw(u(0), u(5)), u(0));
    assert!(empty.is_empty());
}

#[test]
fn withdrawal_leaves_the_rest_in_order() {
    let mut list = ledger(&[(10, 1, 5), (20, 2, 5), (30, 3, 5), (40, 4, 5), (50, 5, 5)]);
    list.withdraw(u(35), u(5));
    assert_eq!(
        list.entries(),
        &vec![deposit(25, 3, 5), deposit(40, 4, 5), deposit(50, 5, 5)]
    );
}

#[test]
fn withdrawal_at_the_deposit_rate_earns_nothing() {
    let mut list = ledger(&[(1_000_000, 1, 123_456_789), (5, 2, 999_999_999_999)]);
    assert_eq!(list.withdraw(u(999_999), u(123_456_789)), u(0));
    assert_eq!(list.get(0).amount, u(1));
}

#[test]
fn interest_if_withdrawn_matches_withdraw() {
    let list = ledger(&[(100, 1, 10), (200, 2, 20), (300, 3, 30)]);
    assert_eq!(list.interest_if_withdrawn(u(150), u(40)), Some(u(350)));
    assert_eq!(list.interest_if_withdrawn(u(0), u(1)), Some(u(0)));
    assert_eq!(list.interest_if_withdrawn(u(600), u(30)), Some(u(300)));
}

#[test]
fn interest_if_withdrawn_refuses_what_cannot_be_paid() {
    let list = ledger(&[(100, 1, 10), (200, 2, 20)]);
    // more than the ledger holds
    assert_eq!(list.interest_if_withdrawn(u(301), u(40)), None);
    // a rate below that of a deposit taken from
    assert_eq!(list.interest_if_withdrawn(u(150), u(15)), None);
    assert_eq!(list.interest_if_withdrawn(u(100), u(15)), Some(u(50)));
    // a deposit made at rate zero
    let zero_rate = ledger(&[(100, 1, 0)]);
    assert_eq!(zero_rate.interest_if_withdrawn(u(1), u(5)), None);
    assert_eq!(zero_rate.interest_if_withdrawn(u(0), u(5)), Some(u(0)));
    // a product that does not fit in 256 bits
    let big = DepositList::from_entries(vec![DepositInfo {
        amount: U256 { w3: 0, w2: 1, w1: 0, w0: 0 },
        deposit_time: 1,
        accumulated_interest_rate: u(1),
    }])
    .unwrap();
    assert_eq!(
        big.interest_if_withdrawn(
            U256 { w3: 0, w2: 1, w1: 0, w0: 0 },
            U256 { w3: 0, w2: 1, w1: 0, w0: 1 }
        ),
        None
    );
    assert_eq!(
        big.interest_if_withdrawn(U256 { w3: 0, w2: 1, w1: 0, w0: 0 }, u(3)),
        Some(U256 { w3: 0, w2: 2, w1: 0, w0: 0 })
    );
}

#[test]
fn duplicate_of_a_ledger_is_independent() {
    let mut list = ledger(&[(100, 1, 10), (200, 2, 20)]);
    let copy = list.duplicate();
    list.withdraw(u(150), u(20));
    assert_eq!(copy.entries(), &vec![deposit(100, 1, 10), deposit(200, 2, 20)]);
    assert_eq!(list.entries(), &vec![deposit(150, 2, 20)]);
}
