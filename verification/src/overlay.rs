//! The overlay account: an account's state as a running execution sees
//! and changes it, before it is written back to the persistent store.

use crate::account::{Account, CodeInfo, SponsorInfo, StorageLayout, StoragePoints};
use crate::address::{Address, AddressWithSpace, Space, TYPE_BITS_BUILTIN, TYPE_BITS_CONTRACT};
use crate::deposit::{
    after_step, after_withdraw, can_withdraw, interest_due, total_amount, DepositInfo,
    DepositList, Funds, StakingStep,
};
use crate::hash::{is_keccak_empty, keccak, keccak_digest, keccak_empty, H256};
use crate::storage_cache::StorageWriteCache;
use crate::uint::{pow2_256, U256};
use crate::vote_stake::{
    expired_count, locked_at, unexpired, vote_lock_result, VoteStakeInfo, VoteStakeList,
};
use vstd::prelude::*;

verus! {

/// What kind of account an overlay stands for.
#[derive(Clone, Copy, Debug, PartialEq, Eq, Structural)]
pub enum AccountKind {
    Basic,
    Contract,
    Builtin,
}

/// The kind of the account that the store holds at `address` with code
/// hash `code_hash`. In the native space the type bits of the address
/// tell: a contract, a built-in contract, or else a basic account. In the
/// Ethereum space, where addresses carry no type, an account with code is
/// a contract and one without is basic.
pub open spec fn kind_of(address: AddressWithSpace, code_hash: H256) -> AccountKind {
    match address.space {
        Space::Native => if address.address.type_bits() == TYPE_BITS_CONTRACT {
            AccountKind::Contract
        } else if address.address.type_bits() == TYPE_BITS_BUILTIN {
            AccountKind::Builtin
        } else {
            AccountKind::Basic
        },
        Space::Ethereum => if is_keccak_empty(code_hash) {
            AccountKind::Basic
        } else {
            AccountKind::Contract
        },
    }
}

/// The state of one account during execution.
#[derive(Debug)]
pub struct OverlayAccount {
    pub address: AddressWithSpace,
    pub balance: U256,
    pub nonce: U256,
    pub admin: Address,
    pub sponsor_info: SponsorInfo,
    pub staking_balance: U256,
    pub collateral_for_storage: U256,
    pub accumulated_interest_return: U256,
    /// The deposit ledger; `None` until it is loaded.
    pub deposit_list: Option<DepositList>,
    /// The vote-lock schedule; `None` until it is loaded.
    pub vote_stake_list: Option<VoteStakeList>,
    pub code_hash: H256,
    /// The code; `None` until it is loaded or set.
    pub code: Option<CodeInfo>,
    pub kind: AccountKind,
    pub is_newly_created_contract: bool,
    /// Whether storage that an earlier account left at this address is
    /// still to be cleared from the store.
    pub pending_db_clear: bool,
    pub storage_write_cache: StorageWriteCache,
    pub storage_layout_change: Option<StorageLayout>,
}

/// What the store has to fetch before `cache_ext_fields` can run.
#[derive(Clone, Copy, Debug, PartialEq, Eq, Structural)]
pub struct ExtFieldsRequest {
    pub deposit_list: bool,
    pub vote_stake_list: bool,
}

impl OverlayAccount {
    /// The invariant of an overlay: the write cache holds no key twice;
    /// a loaded deposit ledger ascends in deposit time and sums to the
    /// staking balance; a loaded vote-lock schedule is a skyline.
    pub open spec fn wf(&self) -> bool {
        &&& self.storage_write_cache.wf()
        &&& self.deposit_list is Some ==> {
            &&& self.deposit_list.unwrap().wf()
            &&& total_amount(self.deposit_list.unwrap()@) == self.staking_balance@
        }
        &&& self.vote_stake_list is Some ==> self.vote_stake_list.unwrap().wf()
    }

    /// The record that the persistent store keeps of this account.
    pub open spec fn record(&self) -> Account {
        Account {
            address: self.address,
            balance: self.balance,
            nonce: self.nonce,
            code_hash: self.code_hash,
            staking_balance: self.staking_balance,
            collateral_for_storage: self.collateral_for_storage,
            accumulated_interest_return: self.accumulated_interest_return,
            admin: self.admin,
            sponsor_info: self.sponsor_info,
        }
    }

    /// What the deposit ledger holds, if it is loaded.
    pub open spec fn deposits(&self) -> Option<Seq<DepositInfo>> {
        match self.deposit_list {
            Some(l) => Some(l@),
            None => None,
        }
    }

    /// What staking moves, once the deposit ledger is loaded.
    pub open spec fn funds(&self) -> Funds
        recommends
            self.deposit_list is Some,
    {
        Funds {
            balance: self.balance@,
            staking_balance: self.staking_balance@,
            ledger: self.deposit_list.unwrap()@,
        }
    }

    /// The code held and who pays for storing it, if code is held.
    pub open spec fn code_held(&self) -> Option<(Seq<u8>, Address)> {
        match self.code {
            Some(c) => Some((c.code@, c.owner)),
            None => None,
        }
    }

    /// What the vote-lock schedule holds, if it is loaded.
    pub open spec fn vote_stakes(&self) -> Option<Seq<VoteStakeInfo>> {
        match self.vote_stake_list {
            Some(l) => Some(l@),
            None => None,
        }
    }

    /// `other` holds the same state as `self`: the same record, kind and
    /// flags, and the same ledger, schedule, code and pending writes.
    pub open spec fn same_state(&self, other: &OverlayAccount) -> bool {
        &&& self.record() == other.record()
        &&& self.deposits() == other.deposits()
        &&& self.vote_stakes() == other.vote_stakes()
        &&& self.code_held() == other.code_held()
        &&& self.kind == other.kind
        &&& self.is_newly_created_contract == other.is_newly_created_contract
        &&& self.pending_db_clear == other.pending_db_clear
        &&& self.storage_write_cache@ == other.storage_write_cache@
        &&& self.storage_layout_change == other.storage_layout_change
    }

    /// An account loaded with nothing in it cannot be told from one made
    /// anew with a zero balance: where both records are untouched and the
    /// address is the same, the records are equal. Loading ledger and
    /// schedule has no part in the record.
    pub proof fn lemma_default_equivalence(loaded: OverlayAccount, fresh: OverlayAccount)
        requires
            loaded.record().is_untouched(),
            fresh.record().is_untouched(),
            loaded.address == fresh.address,
        ensures
            loaded.record() == fresh.record(),
    {
        Account::lemma_untouched_unique(loaded.record(), fresh.record());
    }

    /// The overlay of an account that the store holds as `account`: the
    /// amounts are taken over, ledger, schedule and code are not yet
    /// loaded, and nothing is written.
    pub fn from_loaded(address: &AddressWithSpace, account: Account) -> (r: OverlayAccount)
        ensures
            r.wf(),
            r.address == *address,
            r.balance == account.balance,
            r.nonce == account.nonce,
            r.admin == account.admin,
            r.sponsor_info == account.sponsor_info,
            r.staking_balance == account.staking_balance,
            r.collateral_for_storage == account.collateral_for_storage,
            r.accumulated_interest_return == account.accumulated_interest_return,
            r.deposit_list is None,
            r.vote_stake_list is None,
            r.code_hash == account.code_hash,
            r.code is None,
            r.kind == kind_of(*address, account.code_hash),
            !r.is_newly_created_contract,
            !r.pending_db_clear,
            r.storage_write_cache@ == Map::<Seq<u8>, U256>::empty(),
            r.storage_layout_change is None,
            account.address == *address ==> r.record() == account,
    {
        let kind = match address.space {
            Space::Native => if address.address.is_contract_address() {
                AccountKind::Contract
            } else if address.address.address_type_bits() == TYPE_BITS_BUILTIN {
                AccountKind::Builtin
            } else {
                AccountKind::Basic
            },
            Space::Ethereum => {
                let empty = keccak_empty();
                proof {
                    if is_keccak_empty(account.code_hash) {
                        crate::hash::lemma_same_digest(account.code_hash, empty);
                    }
                }
                if account.code_hash == empty {
                    AccountKind::Basic
                } else {
                    AccountKind::Contract
                }
            },
        };
        OverlayAccount {
            address: *address,
            balance: account.balance,
            nonce: account.nonce,
            admin: account.admin,
            sponsor_info: account.sponsor_info,
            staking_balance: account.staking_balance,
            collateral_for_storage: account.collateral_for_storage,
            accumulated_interest_return: account.accumulated_interest_return,
            deposit_list: None,
            vote_stake_list: None,
            code_hash: account.code_hash,
            code: None,
            kind,
            is_newly_created_contract: false,
            pending_db_clear: false,
            storage_write_cache: StorageWriteCache::new(),
            storage_layout_change: None,
        }
    }

    /// The overlay of a basic account that did not exist before and now
    /// holds `balance`. With a zero balance its record is that of an
    /// account that was never touched.
    pub fn new_basic(address: &AddressWithSpace, balance: U256) -> (r: OverlayAccount)
        ensures
            r.wf(),
            r.address == *address,
            r.balance == balance,
            r.nonce@ == 0,
            r.admin.is_null(),
            r.sponsor_info.is_unset(),
            r.staking_balance@ == 0,
            r.collateral_for_storage@ == 0,
            r.accumulated_interest_return@ == 0,
            r.deposit_list is None,
            r.vote_stake_list is None,
            is_keccak_empty(r.code_hash),
            r.code is None,
            r.kind == AccountKind::Basic,
            !r.is_newly_created_contract,
            !r.pending_db_clear,
            r.storage_write_cache@ == Map::<Seq<u8>, U256>::empty(),
            r.storage_layout_change is None,
            balance@ == 0 ==> r.record().is_untouched(),
    {
        OverlayAccount {
            address: *address,
            balance,
            nonce: U256::zero(),
            admin: Address::zero(),
            sponsor_info: SponsorInfo::default(),
            staking_balance: U256::zero(),
            collateral_for_storage: U256::zero(),
            accumulated_interest_return: U256::zero(),
            deposit_list: None,
            vote_stake_list: None,
            code_hash: keccak_empty(),
            code: None,
            kind: AccountKind::Basic,
            is_newly_created_contract: false,
            pending_db_clear: false,
            storage_write_cache: StorageWriteCache::new(),
            storage_layout_change: None,
        }
    }

    /// The overlay of a contract that is being created, without an admin.
    pub fn new_contract(
        address: &AddressWithSpace,
        balance: U256,
        invalidated_storage: bool,
        storage_layout: Option<StorageLayout>,
    ) -> (r: OverlayAccount)
        ensures
            r.wf(),
            r.address == *address,
            r.balance == balance,
            r.nonce@ == 1,
            r.admin.is_null(),
            r.sponsor_info.is_unset(),
            r.staking_balance@ == 0,
            r.collateral_for_storage@ == 0,
            r.accumulated_interest_return@ == 0,
            r.deposit_list is None,
            r.vote_stake_list is None,
            is_keccak_empty(r.code_hash),
            r.code is None,
            r.kind == AccountKind::Contract,
            r.is_newly_created_contract,
            r.pending_db_clear == invalidated_storage,
            r.storage_write_cache@ == Map::<Seq<u8>, U256>::empty(),
            r.storage_layout_change == storage_layout,
    {
        let admin = Address::zero();
        Self::new_contract_with_admin(
            address,
            balance,
            &admin,
            invalidated_storage,
            storage_layout,
            false,
        )
    }

    /// The overlay of a contract that is being created with `admin` as its
    /// administrator. Its nonce starts at one. Where `with_storage_points`
    /// is set and the contract lives in the native space, it starts with
    /// storage points of zero; otherwise with none.
    pub fn new_contract_with_admin(
        address: &AddressWithSpace,
        balance: U256,
        admin: &Address,
        invalidated_storage: bool,
        storage_layout: Option<StorageLayout>,
        with_storage_points: bool,
    ) -> (r: OverlayAccount)
        ensures
            r.wf(),
            r.address == *address,
            r.balance == balance,
            r.nonce@ == 1,
            r.admin == *admin,
            r.sponsor_info.sponsor_for_gas.is_null(),
            r.sponsor_info.sponsor_for_collateral.is_null(),
            r.sponsor_info.sponsor_gas_bound@ == 0,
            r.sponsor_info.sponsor_balance_for_gas@ == 0,
            r.sponsor_info.sponsor_balance_for_collateral@ == 0,
            match r.sponsor_info.storage_points {
                Some(p) => with_storage_points && address.space == Space::Native && p.unused@ == 0
                    && p.used@ == 0,
                None => !(with_storage_points && address.space == Space::Native),
            },
            r.staking_balance@ == 0,
            r.collateral_for_storage@ == 0,
            r.accumulated_interest_return@ == 0,
            r.deposit_list is None,
            r.vote_stake_list is None,
            is_keccak_empty(r.code_hash),
            r.code is None,
            r.kind == AccountKind::Contract,
            r.is_newly_created_contract,
            r.pending_db_clear == invalidated_storage,
            r.storage_write_cache@ == Map::<Seq<u8>, U256>::empty(),
            r.storage_layout_change == storage_layout,
    {
        let native = match address.space {
            Space::Native => true,
            Space::Ethereum => false,
        };
        let storage_points = if with_storage_points && native {
            Some(StoragePoints { unused: U256::zero(), used: U256::zero() })
        } else {
            None
        };
        let sponsor_info = SponsorInfo {
            sponsor_for_gas: Address::zero(),
            sponsor_for_collateral: Address::zero(),
            sponsor_gas_bound: U256::zero(),
            sponsor_balance_for_gas: U256::zero(),
            sponsor_balance_for_collateral: U256::zero(),
            storage_points,
        };
        OverlayAccount {
            address: *address,
            balance,
            nonce: U256::from(1u64),
            admin: *admin,
            sponsor_info,
            staking_balance: U256::zero(),
            collateral_for_storage: U256::zero(),
            accumulated_interest_return: U256::zero(),
            deposit_list: None,
            vote_stake_list: None,
            code_hash: keccak_empty(),
            code: None,
            kind: AccountKind::Contract,
            is_newly_created_contract: true,
            pending_db_clear: invalidated_storage,
            storage_write_cache: StorageWriteCache::new(),
            storage_layout_change: storage_layout,
        }
    }

    /// The record to hand to the persistent store. Ledger, schedule, code
    /// and pending writes are stored apart and have no part in it.
    pub fn as_account(&self) -> (r: Account)
        ensures
            r == self.record(),
    {
        Account {
            address: self.address,
            balance: self.balance,
            nonce: self.nonce,
            code_hash: self.code_hash,
            staking_balance: self.staking_balance,
            collateral_for_storage: self.collateral_for_storage,
            accumulated_interest_return: self.accumulated_interest_return,
            admin: self.admin,
            sponsor_info: self.sponsor_info,
        }
    }

    pub fn address(&self) -> (r: &AddressWithSpace)
        ensures
            *r == self.address,
    {
        &self.address
    }

    pub fn balance(&self) -> (r: &U256)
        ensures
            *r == self.balance,
    {
        &self.balance
    }

    pub fn nonce(&self) -> (r: &U256)
        ensures
            *r == self.nonce,
    {
        &self.nonce
    }

    pub fn staking_balance(&self) -> (r: &U256)
        ensures
            *r == self.staking_balance,
    {
        &self.staking_balance
    }

    pub fn collateral_for_storage(&self) -> (r: U256)
        ensures
            r == self.collateral_for_storage,
    {
        self.collateral_for_storage
    }

    pub fn accumulated_interest_return(&self) -> (r: &U256)
        ensures
            *r == self.accumulated_interest_return,
    {
        &self.accumulated_interest_return
    }

    pub fn code_hash(&self) -> (r: H256)
        ensures
            r == self.code_hash,
    {
        self.code_hash
    }

    pub fn admin(&self) -> (r: &Address)
        ensures
            *r == self.admin,
    {
        &self.admin
    }

    pub fn sponsor_info(&self) -> (r: &SponsorInfo)
        ensures
            *r == self.sponsor_info,
    {
        &self.sponsor_info
    }

    pub fn kind(&self) -> (r: AccountKind)
        ensures
            r == self.kind,
    {
        self.kind
    }

    pub fn is_contract(&self) -> (r: bool)
        ensures
            r == (self.kind == AccountKind::Contract),
    {
        match self.kind {
            AccountKind::Contract => true,
            _ => false,
        }
    }

    pub fn is_basic(&self) -> (r: bool)
        ensures
            r == (self.kind == AccountKind::Basic),
    {
        match self.kind {
            AccountKind::Basic => true,
            _ => false,
        }
    }

    pub fn is_newly_created_contract(&self) -> (r: bool)
        ensures
            r == self.is_newly_created_contract,
    {
        self.is_newly_created_contract
    }

    pub fn pending_db_clear(&self) -> (r: bool)
        ensures
            r == self.pending_db_clear,
    {
        self.pending_db_clear
    }

    pub fn storage_layout_change(&self) -> (r: Option<&StorageLayout>)
        ensures
            match r {
                Some(l) => self.storage_layout_change == Some(*l),
                None => self.storage_layout_change is None,
            },
    {
        self.storage_layout_change.as_ref()
    }

    pub fn set_storage_layout(&mut self, layout: StorageLayout)
        ensures
            final(self).storage_layout_change == Some(layout),
            *final(self) == (OverlayAccount { storage_layout_change: Some(layout), ..*old(self) }),
    {
        self.storage_layout_change = Some(layout);
    }

    /// The deposit ledger, once it is loaded.
    pub fn deposit_list(&self) -> (r: &DepositList)
        requires
            self.deposit_list is Some,
        ensures
            *r == self.deposit_list.unwrap(),
    {
        self.deposit_list.as_ref().unwrap()
    }

    /// The vote-lock schedule, once it is loaded.
    pub fn vote_stake_list(&self) -> (r: &VoteStakeList)
        requires
            self.vote_stake_list is Some,
        ensures
            *r == self.vote_stake_list.unwrap(),
    {
        self.vote_stake_list.as_ref().unwrap()
    }

    pub fn storage_write_cache(&self) -> (r: &StorageWriteCache)
        ensures
            *r == self.storage_write_cache,
    {
        &self.storage_write_cache
    }

    pub fn set_nonce(&mut self, nonce: &U256)
        ensures
            *final(self) == (OverlayAccount { nonce: *nonce, ..*old(self) }),
    {
        self.nonce = *nonce;
    }

    pub fn inc_nonce(&mut self)
        requires
            old(self).nonce@ + 1 < pow2_256(),
        ensures
            final(self).nonce@ == old(self).nonce@ + 1,
            *final(self) == (OverlayAccount { nonce: final(self).nonce, ..*old(self) }),
    {
        self.nonce = self.nonce.checked_add(U256::from(1u64)).unwrap();
    }

    pub fn set_admin(&mut self, admin: &Address)
        ensures
            *final(self) == (OverlayAccount { admin: *admin, ..*old(self) }),
    {
        self.admin = *admin;
    }

    /// Names the sponsor of gas, with its balance and its bound for one
    /// transaction.
    pub fn set_sponsor_for_gas(
        &mut self,
        sponsor: &Address,
        sponsor_balance: &U256,
        upper_bound: &U256,
    )
        ensures
            final(self).sponsor_info == (SponsorInfo {
                sponsor_for_gas: *sponsor,
                sponsor_balance_for_gas: *sponsor_balance,
                sponsor_gas_bound: *upper_bound,
                ..old(self).sponsor_info
            }),
            *final(self) == (OverlayAccount {
                sponsor_info: final(self).sponsor_info,
                ..*old(self)
            }),
    {
        self.sponsor_info.sponsor_for_gas = *sponsor;
        self.sponsor_info.sponsor_balance_for_gas = *sponsor_balance;
        self.sponsor_info.sponsor_gas_bound = *upper_bound;
    }

    /// Names the sponsor of storage collateral, with its balance.
    pub fn set_sponsor_for_collateral(&mut self, sponsor: &Address, sponsor_balance: &U256)
        ensures
            final(self).sponsor_info == (SponsorInfo {
                sponsor_for_collateral: *sponsor,
                sponsor_balance_for_collateral: *sponsor_balance,
                ..old(self).sponsor_info
            }),
            *final(self) == (OverlayAccount {
                sponsor_info: final(self).sponsor_info,
                ..*old(self)
            }),
    {
        self.sponsor_info.sponsor_for_collateral = *sponsor;
        self.sponsor_info.sponsor_balance_for_collateral = *sponsor_balance;
    }

    pub fn add_balance(&mut self, by: &U256)
        requires
            old(self).balance@ + by@ < pow2_256(),
        ensures
            final(self).balance@ == old(self).balance@ + by@,
            *final(self) == (OverlayAccount { balance: final(self).balance, ..*old(self) }),
    {
        self.balance = self.balance.checked_add(*by).unwrap();
    }

    /// Takes `by` off the balance. The caller has made sure that the
    /// balance covers it.
    pub fn sub_balance(&mut self, by: &U256)
        requires
            by@ <= old(self).balance@,
        ensures
            final(self).balance@ == old(self).balance@ - by@,
            *final(self) == (OverlayAccount { balance: final(self).balance, ..*old(self) }),
    {
        self.balance = self.balance.checked_sub(*by).unwrap();
    }

    /// Moves `by` from the balance to the collateral for storage.
    pub fn add_collateral_for_storage(&mut self, by: &U256)
        requires
            by@ <= old(self).balance@,
            old(self).collateral_for_storage@ + by@ < pow2_256(),
        ensures
            final(self).balance@ == old(self).balance@ - by@,
            final(self).collateral_for_storage@ == old(self).collateral_for_storage@ + by@,
            *final(self) == (OverlayAccount {
                balance: final(self).balance,
                collateral_for_storage: final(self).collateral_for_storage,
                ..*old(self)
            }),
    {
        self.balance = self.balance.checked_sub(*by).unwrap();
        self.collateral_for_storage = self.collateral_for_storage.checked_add(*by).unwrap();
    }

    /// Moves `by` from the collateral for storage back to the balance.
    pub fn sub_collateral_for_storage(&mut self, by: &U256)
        requires
            by@ <= old(self).collateral_for_storage@,
            old(self).balance@ + by@ < pow2_256(),
        ensures
            final(self).balance@ == old(self).balance@ + by@,
            final(self).collateral_for_storage@ == old(self).collateral_for_storage@ - by@,
            *final(self) == (OverlayAccount {
                balance: final(self).balance,
                collateral_for_storage: final(self).collateral_for_storage,
                ..*old(self)
            }),
    {
        self.collateral_for_storage = self.collateral_for_storage.checked_sub(*by).unwrap();
        self.balance = self.balance.checked_add(*by).unwrap();
    }

    /// Whether the code needs no fetching: it is held, or the account has
    /// none.
    pub fn is_code_loaded(&self) -> (r: bool)
        ensures
            r == (self.code is Some || is_keccak_empty(self.code_hash)),
    {
        let empty = keccak_empty();
        proof {
            if is_keccak_empty(self.code_hash) {
                crate::hash::lemma_same_digest(self.code_hash, empty);
            }
        }
        self.code.is_some() || self.code_hash == empty
    }

    /// Keeps the code that the store returned, unless the code needed no
    /// fetching.
    pub fn cache_code(&mut self, loaded: Option<CodeInfo>)
        ensures
            final(self).code == if old(self).code is Some || is_keccak_empty(old(self).code_hash) {
                old(self).code
            } else {
                loaded
            },
            *final(self) == (OverlayAccount { code: final(self).code, ..*old(self) }),
    {
        if !self.is_code_loaded() {
            self.code = loaded;
        }
    }

    /// Gives the account `code`, stored at the expense of `owner`; the
    /// code hash becomes the Keccak-256 hash of the code.
    pub fn init_code(&mut self, code: Vec<u8>, owner: Address)
        ensures
            final(self).code_hash.0@ == keccak_digest(code@),
            final(self).code == Some(CodeInfo { code, owner }),
            *final(self) == (OverlayAccount {
                code_hash: final(self).code_hash,
                code: final(self).code,
                ..*old(self)
            }),
    {
        self.code_hash = keccak(code.as_slice());
        self.code = Some(CodeInfo { code, owner });
    }

    /// The number of bytes of code held; zero while none is held.
    pub fn code_size(&self) -> (r: usize)
        ensures
            r == match self.code {
                Some(c) => c.code@.len(),
                None => 0,
            },
    {
        match &self.code {
            Some(c) => c.code.len(),
            None => 0,
        }
    }

    /// Who pays for storing the code, if code is held.
    pub fn code_owner(&self) -> (r: Option<Address>)
        ensures
            r == match self.code {
                Some(c) => Some(c.owner),
                None => None,
            },
    {
        match &self.code {
            Some(c) => Some(c.owner),
            None => None,
        }
    }

    /// Which of the two lists the store has to be asked for: those that
    /// are wanted and not yet loaded.
    pub fn ext_fields_to_load(&self, cache_deposit_list: bool, cache_vote_list: bool) -> (r:
        ExtFieldsRequest)
        ensures
            r.deposit_list == (cache_deposit_list && self.deposit_list is None),
            r.vote_stake_list == (cache_vote_list && self.vote_stake_list is None),
    {
        ExtFieldsRequest {
            deposit_list: cache_deposit_list && self.deposit_list.is_none(),
            vote_stake_list: cache_vote_list && self.vote_stake_list.is_none(),
        }
    }

    /// What `cache_ext_fields` asks of the answer of the store for the
    /// deposit ledger, where it is going to keep it: a ledger in order
    /// whose amounts sum to the staking balance.
    pub open spec fn deposit_answer_fits<E>(
        &self,
        cache_deposit_list: bool,
        deposit_list: Result<Option<DepositList>, E>,
    ) -> bool {
        cache_deposit_list && self.deposit_list is None ==> match deposit_list {
            Ok(Some(l)) => l.wf() && total_amount(l@) == self.staking_balance@,
            Ok(None) => self.staking_balance@ == 0,
            Err(_) => true,
        }
    }

    /// What `cache_ext_fields` asks of the answer of the store for the
    /// vote-lock schedule, where it is going to keep it: a skyline.
    pub open spec fn vote_answer_fits<E>(
        &self,
        cache_vote_list: bool,
        vote_stake_list: Result<Option<VoteStakeList>, E>,
    ) -> bool {
        cache_vote_list && self.vote_stake_list is None ==> match vote_stake_list {
            Ok(Some(l)) => l.wf(),
            _ => true,
        }
    }

    /// Loads the deposit ledger and the vote-lock schedule, each where it
    /// is wanted and not yet loaded, from what the store answered. A list
    /// that the store does not hold is the empty one. A failure of the
    /// store is handed on as it is; the ledger is dealt with first.
    pub fn cache_ext_fields<E>(
        &mut self,
        cache_deposit_list: bool,
        cache_vote_list: bool,
        deposit_list: Result<Option<DepositList>, E>,
        vote_stake_list: Result<Option<VoteStakeList>, E>,
    ) -> (r: Result<(), E>)
        requires
            old(self).wf(),
            old(self).deposit_answer_fits(cache_deposit_list, deposit_list),
            old(self).vote_answer_fits(cache_vote_list, vote_stake_list),
        ensures
            final(self).wf(),
            *final(self) == (OverlayAccount {
                deposit_list: final(self).deposit_list,
                vote_stake_list: final(self).vote_stake_list,
                ..*old(self)
            }),
            final(self).deposits() == if cache_deposit_list && old(self).deposit_list is None {
                match deposit_list {
                    Ok(Some(l)) => Some(l@),
                    Ok(None) => Some(Seq::<DepositInfo>::empty()),
                    Err(_) => None,
                }
            } else {
                old(self).deposits()
            },
            final(self).vote_stakes() == if cache_deposit_list && old(self).deposit_list is None
                && deposit_list is Err {
                old(self).vote_stakes()
            } else if cache_vote_list && old(self).vote_stake_list is None {
                match vote_stake_list {
                    Ok(Some(l)) => Some(l@),
                    Ok(None) => Some(Seq::<VoteStakeInfo>::empty()),
                    Err(_) => None,
                }
            } else {
                old(self).vote_stakes()
            },
            r == if cache_deposit_list && old(self).deposit_list is None && deposit_list is Err {
                Err::<(), E>(deposit_list->Err_0)
            } else if cache_vote_list && old(self).vote_stake_list is None
                && vote_stake_list is Err {
                Err::<(), E>(vote_stake_list->Err_0)
            } else {
                Ok::<(), E>(())
            },
    {
        if cache_deposit_list && self.deposit_list.is_none() {
            match deposit_list {
                Ok(Some(l)) => {
                    self.deposit_list = Some(l);
                },
                Ok(None) => {
                    self.deposit_list = Some(DepositList::new());
                },
                Err(e) => {
                    return Err(e);
                },
            }
        }
        if cache_vote_list && self.vote_stake_list.is_none() {
            match vote_stake_list {
                Ok(Some(l)) => {
                    self.vote_stake_list = Some(l);
                },
                Ok(None) => {
                    self.vote_stake_list = Some(VoteStakeList::new());
                },
                Err(e) => {
                    return Err(e);
                },
            }
        }
        Ok(())
    }

    /// Whether `deposit` can take `amount` at `deposit_time`: the ledger is
    /// loaded and its last deposit is older, the balance covers the
    /// amount, and the staking balance has room for it.
    pub open spec fn deposit_fits(&self, amount: U256, deposit_time: u64) -> bool {
        &&& self.deposit_list is Some
        &&& amount@ <= self.balance@
        &&& self.staking_balance@ + amount@ < pow2_256()
        &&& self.deposit_list.unwrap()@.len() > 0 ==> self.deposit_list.unwrap()@.last().deposit_time
            < deposit_time
    }

    /// Whether `deposit` can take `amount` at `deposit_time`.
    pub fn can_deposit(&self, amount: U256, deposit_time: u64) -> (r: bool)
        ensures
            r == self.deposit_fits(amount, deposit_time),
    {
        match &self.deposit_list {
            Some(list) => {
                let n: usize = list.len();
                let in_order = n == 0 || list.get(n - 1).deposit_time < deposit_time;
                in_order && amount.at_most(&self.balance) && self.staking_balance.checked_add(
                    amount,
                ).is_some()
            },
            None => false,
        }
    }

    /// Moves `amount` from the balance to the staking balance and records
    /// the deposit at the end of the ledger.
    ///
    /// The caller deposits in the order of blocks, and no more than the
    /// balance holds. The ledger is kept alike whether or not `cip_97`
    /// is set.
    pub fn deposit(
        &mut self,
        amount: U256,
        accumulated_interest_rate: U256,
        deposit_time: u64,
        cip_97: bool,
    )
        requires
            old(self).wf(),
            old(self).deposit_fits(amount, deposit_time),
        ensures
            final(self).wf(),
            final(self).balance@ == old(self).balance@ - amount@,
            final(self).staking_balance@ == old(self).staking_balance@ + amount@,
            final(self).balance@ + final(self).staking_balance@ == old(self).balance@ + old(
                self,
            ).staking_balance@,
            final(self).deposits() == Some(
                old(self).deposit_list.unwrap()@.push(
                    DepositInfo { amount, deposit_time, accumulated_interest_rate },
                ),
            ),
            final(self).funds() == after_step(
                old(self).funds(),
                StakingStep::Deposit(
                    DepositInfo { amount, deposit_time, accumulated_interest_rate },
                ),
            ),
            *final(self) == (OverlayAccount {
                balance: final(self).balance,
                staking_balance: final(self).staking_balance,
                deposit_list: final(self).deposit_list,
                ..*old(self)
            }),
    {
        self.balance = self.balance.checked_sub(amount).unwrap();
        self.staking_balance = self.staking_balance.checked_add(amount).unwrap();
        let mut list = self.deposit_list.take().unwrap();
        list.push(DepositInfo { amount, deposit_time, accumulated_interest_rate });
        self.deposit_list = Some(list);
    }

    /// Whether `withdraw` can pay out `amount` at
    /// `accumulated_interest_rate`: the staking balance covers it, the
    /// interest on every portion can be computed, and balance and interest
    /// returned have room for what is added to them.
    pub open spec fn withdraw_fits(&self, amount: U256, accumulated_interest_rate: U256) -> bool {
        &&& self.deposit_list is Some
        &&& amount@ <= self.staking_balance@
        &&& can_withdraw(self.deposit_list.unwrap()@, amount@, accumulated_interest_rate@)
        &&& self.balance@ + amount@ + interest_due(
            self.deposit_list.unwrap()@,
            amount@,
            accumulated_interest_rate@,
        ) < pow2_256()
        &&& self.accumulated_interest_return@ + interest_due(
            self.deposit_list.unwrap()@,
            amount@,
            accumulated_interest_rate@,
        ) < pow2_256()
    }

    /// Whether `withdraw` can pay out `amount` at
    /// `accumulated_interest_rate`.
    pub fn can_withdraw(&self, amount: U256, accumulated_interest_rate: U256) -> (r: bool)
        ensures
            r == self.withdraw_fits(amount, accumulated_interest_rate),
    {
        let list = match &self.deposit_list {
            Some(list) => list,
            None => {
                return false;
            },
        };
        if !amount.at_most(&self.staking_balance) {
            return false;
        }
        let interest = match list.interest_if_withdrawn(amount, accumulated_interest_rate) {
            Some(interest) => interest,
            None => {
                return false;
            },
        };
        let paid = match amount.checked_add(interest) {
            Some(paid) => paid,
            None => {
                return false;
            },
        };
        self.balance.checked_add(paid).is_some() && self.accumulated_interest_return.checked_add(
            interest,
        ).is_some()
    }

    /// Pays `amount` out of the staking balance, oldest deposit first, and
    /// returns the interest earned. Principal and interest go to the
    /// balance, and the interest is added to the interest returned so far.
    ///
    /// Whether the vote-lock schedule lets the amount go is for the caller
    /// to check. The ledger is kept alike whether or not `cip_97` is set.
    pub fn withdraw(&mut self, amount: U256, accumulated_interest_rate: U256, cip_97: bool) -> (interest:
        U256)
        requires
            old(self).wf(),
            old(self).withdraw_fits(amount, accumulated_interest_rate),
        ensures
            final(self).wf(),
            interest@ == interest_due(
                old(self).deposit_list.unwrap()@,
                amount@,
                accumulated_interest_rate@,
            ),
            final(self).balance@ == old(self).balance@ + amount@ + interest@,
            final(self).staking_balance@ == old(self).staking_balance@ - amount@,
            final(self).balance@ + final(self).staking_balance@ == old(self).balance@ + old(
                self,
            ).staking_balance@ + interest@,
            final(self).accumulated_interest_return@ == old(self).accumulated_interest_return@
                + interest@,
            final(self).deposits() == Some(
                after_withdraw(old(self).deposit_list.unwrap()@, amount@),
            ),
            final(self).funds() == after_step(
                old(self).funds(),
                StakingStep::Withdraw { amount: amount@, rate: accumulated_interest_rate@ },
            ),
            *final(self) == (OverlayAccount {
                balance: final(self).balance,
                staking_balance: final(self).staking_balance,
                accumulated_interest_return: final(self).accumulated_interest_return,
                deposit_list: final(self).deposit_list,
                ..*old(self)
            }),
    {
        let mut list = self.deposit_list.take().unwrap();
        let interest = list.withdraw(amount, accumulated_interest_rate);
        self.deposit_list = Some(list);
        self.staking_balance = self.staking_balance.checked_sub(amount).unwrap();
        self.accumulated_interest_return = self.accumulated_interest_return.checked_add(
            interest,
        ).unwrap();
        let paid = amount.checked_add(interest).unwrap();
        self.balance = self.balance.checked_add(paid).unwrap();
        interest
    }

    /// The amount that the vote-lock schedule keeps locked at
    /// `block_number`.
    pub fn locked_staking_balance(&self, block_number: u64) -> (r: U256)
        requires
            self.wf(),
            self.vote_stake_list is Some,
        ensures
            r@ == locked_at(self.vote_stake_list.unwrap()@, block_number as int),
    {
        self.vote_stake_list.as_ref().unwrap().locked(block_number)
    }

    /// What of the staking balance is free to withdraw at `block_number`:
    /// the staking balance less the amount locked then.
    pub fn withdrawable_staking_balance(&self, block_number: u64) -> (r: U256)
        requires
            self.wf(),
            self.vote_stake_list is Some,
            locked_at(self.vote_stake_list.unwrap()@, block_number as int)
                <= self.staking_balance@,
        ensures
            r@ == self.staking_balance@ - locked_at(
                self.vote_stake_list.unwrap()@,
                block_number as int,
            ),
    {
        self.vote_stake_list.as_ref().unwrap().withdrawable_staking_balance(
            self.staking_balance,
            block_number,
        )
    }

    /// Commits to keep `amount` staked until `unlock_block_number`.
    pub fn vote_lock(&mut self, amount: U256, unlock_block_number: u64)
        requires
            old(self).wf(),
            old(self).vote_stake_list is Some,
        ensures
            final(self).wf(),
            final(self).vote_stakes() == Some(
                vote_lock_result(old(self).vote_stake_list.unwrap()@, amount, unlock_block_number),
            ),
            *final(self) == (OverlayAccount {
                vote_stake_list: final(self).vote_stake_list,
                ..*old(self)
            }),
    {
        let mut list = self.vote_stake_list.take().unwrap();
        list.vote_lock(amount, unlock_block_number);
        self.vote_stake_list = Some(list);
    }

    /// Drops from the schedule the commitments that have unlocked by
    /// `block_number`. What is locked at that block or later stays as it
    /// was.
    pub fn remove_expired_vote_stake_info(&mut self, block_number: u64)
        requires
            old(self).wf(),
            old(self).vote_stake_list is Some,
        ensures
            final(self).wf(),
            final(self).vote_stakes() == Some(
                unexpired(old(self).vote_stake_list.unwrap()@, block_number),
            ),
            final(self).vote_stake_list.unwrap()@ == old(self).vote_stake_list.unwrap()@.skip(
                expired_count(old(self).vote_stake_list.unwrap()@, block_number as int) as int,
            ),
            forall|b: int|
                b >= block_number ==> locked_at(final(self).vote_stake_list.unwrap()@, b)
                    == locked_at(old(self).vote_stake_list.unwrap()@, b),
            *final(self) == (OverlayAccount {
                vote_stake_list: final(self).vote_stake_list,
                ..*old(self)
            }),
    {
        let mut list = self.vote_stake_list.take().unwrap();
        list.remove_expired_vote_stake_info(block_number);
        self.vote_stake_list = Some(list);
    }

    /// Records `value` as the latest write to storage under `key`.
    pub fn set_storage(&mut self, key: Vec<u8>, value: U256)
        requires
            old(self).wf(),
        ensures
            final(self).wf(),
            final(self).storage_write_cache@ == old(self).storage_write_cache@.insert(key@, value),
            *final(self) == (OverlayAccount {
                storage_write_cache: final(self).storage_write_cache,
                ..*old(self)
            }),
    {
        self.storage_write_cache.set(key, value);
    }

    /// The value written under `key` in this overlay, if any.
    pub fn cached_storage_at(&self, key: &Vec<u8>) -> (r: Option<U256>)
        requires
            self.wf(),
        ensures
            r == if self.storage_write_cache@.contains_key(key@) {
                Some(self.storage_write_cache@[key@])
            } else {
                None
            },
    {
        self.storage_write_cache.get(key)
    }

    /// The value of storage under `key`: what this overlay wrote there,
    /// else what the store holds (`persisted`), else zero. What was read
    /// from the store is not kept.
    pub fn storage_at(&self, key: &Vec<u8>, persisted: Option<U256>) -> (r: U256)
        requires
            self.wf(),
        ensures
            r == if self.storage_write_cache@.contains_key(key@) {
                self.storage_write_cache@[key@]
            } else {
                match persisted {
                    Some(v) => v,
                    None => U256 { w3: 0, w2: 0, w1: 0, w0: 0 },
                }
            },
    {
        match self.storage_write_cache.get(key) {
            Some(v) => v,
            None => match persisted {
                Some(v) => v,
                None => U256::zero(),
            },
        }
    }

    /// A copy for a checkpoint. It holds the same state and owns all of
    /// it: amounts, ledger, schedule, code and pending writes are copied,
    /// so that a change to either leaves the other as it was.
    pub fn clone_account_for_checkpoint(&self, checkpoint_id: usize) -> (r: OverlayAccount)
        requires
            self.wf(),
        ensures
            r.wf(),
            self.same_state(&r),
            r.record() == self.record(),
    {
        let deposit_list = match &self.deposit_list {
            Some(l) => Some(l.duplicate()),
            None => None,
        };
        let vote_stake_list = match &self.vote_stake_list {
            Some(l) => Some(l.duplicate()),
            None => None,
        };
        let code = match &self.code {
            Some(c) => Some(CodeInfo { code: crate::storage_cache::copy_bytes(&c.code), owner: c.owner }),
            None => None,
        };
        proof {
            if self.code is Some {
                assert(code.unwrap().code@ == self.code.unwrap().code@);
            }
        }
        OverlayAccount {
            address: self.address,
            balance: self.balance,
            nonce: self.nonce,
            admin: self.admin,
            sponsor_info: self.sponsor_info,
            staking_balance: self.staking_balance,
            collateral_for_storage: self.collateral_for_storage,
            accumulated_interest_return: self.accumulated_interest_return,
            deposit_list,
            vote_stake_list,
            code_hash: self.code_hash,
            code,
            kind: self.kind,
            is_newly_created_contract: self.is_newly_created_contract,
            pending_db_clear: self.pending_db_clear,
            storage_write_cache: self.storage_write_cache.duplicate(),
            storage_layout_change: self.storage_layout_change,
        }
    }
}

} // verus!
