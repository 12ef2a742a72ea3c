//! The persisted account record and the bookkeeping types it carries.

use crate::address::{Address, AddressWithSpace, Space};
use crate::hash::{is_keccak_empty, keccak_empty, lemma_same_digest, H256};
use crate::uint::U256;
use vstd::prelude::*;

verus! {

/// Storage points granted to a sponsor: those still free and those in use.
#[derive(Clone, Copy, Debug, PartialEq, Eq)]
pub struct StoragePoints {
    pub unused: U256,
    pub used: U256,
}

/// Who sponsors a contract's gas and storage collateral, and with how much.
#[derive(Clone, Copy, Debug, PartialEq, Eq)]
pub struct SponsorInfo {
    /// The address that pays for gas.
    pub sponsor_for_gas: Address,
    /// The address that pays for storage collateral.
    pub sponsor_for_collateral: Address,
    /// The most that the gas sponsor pays for one transaction.
    pub sponsor_gas_bound: U256,
    /// What is left of the gas sponsor's balance.
    pub sponsor_balance_for_gas: U256,
    /// What is left of the collateral sponsor's balance.
    pub sponsor_balance_for_collateral: U256,
    /// The storage points of the sponsor, if any were granted.
    pub storage_points: Option<StoragePoints>,
}

impl SponsorInfo {
    /// No sponsor, no balance, no bound, no storage points.
    pub open spec fn is_unset(&self) -> bool {
        &&& self.sponsor_for_gas.is_null()
        &&& self.sponsor_for_collateral.is_null()
        &&& self.sponsor_gas_bound@ == 0
        &&& self.sponsor_balance_for_gas@ == 0
        &&& self.sponsor_balance_for_collateral@ == 0
        &&& self.storage_points is None
    }

    /// There is one sponsor information without a sponsor.
    pub proof fn lemma_unset_unique(a: SponsorInfo, b: SponsorInfo)
        requires
            a.is_unset(),
            b.is_unset(),
        ensures
            a == b,
    {
        U256::lemma_view_injective(a.sponsor_gas_bound, b.sponsor_gas_bound);
        U256::lemma_view_injective(a.sponsor_balance_for_gas, b.sponsor_balance_for_gas);
        U256::lemma_view_injective(
            a.sponsor_balance_for_collateral,
            b.sponsor_balance_for_collateral,
        );
        assert(a.sponsor_for_gas.0 =~= b.sponsor_for_gas.0);
        assert(a.sponsor_for_collateral.0 =~= b.sponsor_for_collateral.0);
    }

    pub fn is_default(&self) -> (r: bool)
        ensures
            r == self.is_unset(),
    {
        self.sponsor_for_gas.is_null_address() && self.sponsor_for_collateral.is_null_address()
            && self.sponsor_gas_bound.is_zero() && self.sponsor_balance_for_gas.is_zero()
            && self.sponsor_balance_for_collateral.is_zero() && self.storage_points.is_none()
    }
}

impl Default for SponsorInfo {
    fn default() -> (r: SponsorInfo)
        ensures
            r.is_unset(),
    {
        SponsorInfo {
            sponsor_for_gas: Address::zero(),
            sponsor_for_collateral: Address::zero(),
            sponsor_gas_bound: U256::zero(),
            sponsor_balance_for_gas: U256::zero(),
            sponsor_balance_for_collateral: U256::zero(),
            storage_points: None,
        }
    }
}

/// How a contract lays out its storage.
#[derive(Clone, Copy, Debug, PartialEq, Eq, Structural)]
pub enum StorageLayout {
    Regular(u8),
}

impl StorageLayout {
    /// The regular layout in its first version.
    pub fn regular_v0() -> (r: StorageLayout)
        ensures
            r == StorageLayout::Regular(0),
    {
        StorageLayout::Regular(0)
    }
}

/// The code of a contract and the account that pays for storing it.
#[derive(Clone, Debug, PartialEq, Eq)]
pub struct CodeInfo {
    pub code: Vec<u8>,
    pub owner: Address,
}

/// The fields of a contract account as they are stored.
#[derive(Clone, Copy, Debug, PartialEq, Eq)]
pub struct ContractAccount {
    pub balance: U256,
    pub nonce: U256,
    pub code_hash: H256,
    pub staking_balance: U256,
    pub collateral_for_storage: U256,
    pub accumulated_interest_return: U256,
    pub admin: Address,
    pub sponsor_info: SponsorInfo,
}

/// An account as the persistent store holds it.
#[derive(Clone, Copy, Debug, PartialEq, Eq)]
pub struct Account {
    pub address: AddressWithSpace,
    pub balance: U256,
    pub nonce: U256,
    pub code_hash: H256,
    pub staking_balance: U256,
    pub collateral_for_storage: U256,
    pub accumulated_interest_return: U256,
    pub admin: Address,
    pub sponsor_info: SponsorInfo,
}

impl Account {
    /// The record of an account that was never touched: every amount is
    /// zero, there is no code, no admin and no sponsor.
    pub open spec fn is_untouched(&self) -> bool {
        &&& self.balance@ == 0
        &&& self.nonce@ == 0
        &&& is_keccak_empty(self.code_hash)
        &&& self.staking_balance@ == 0
        &&& self.collateral_for_storage@ == 0
        &&& self.accumulated_interest_return@ == 0
        &&& self.admin.is_null()
        &&& self.sponsor_info.is_unset()
    }

    pub fn address(&self) -> (r: &AddressWithSpace)
        ensures
            *r == self.address,
    {
        &self.address
    }

    /// The untouched record of `address`.
    pub fn new_empty(address: &AddressWithSpace) -> (r: Account)
        ensures
            r.address == *address,
            r.is_untouched(),
    {
        Self::new_empty_with_balance(address, &U256::zero(), &U256::zero())
    }

    /// The record of an account that holds `balance` at `nonce` and
    /// nothing else.
    pub fn new_empty_with_balance(address: &AddressWithSpace, balance: &U256, nonce: &U256) -> (r:
        Account)
        ensures
            r.address == *address,
            r.balance == *balance,
            r.nonce == *nonce,
            is_keccak_empty(r.code_hash),
            r.staking_balance@ == 0,
            r.collateral_for_storage@ == 0,
            r.accumulated_interest_return@ == 0,
            r.admin.is_null(),
            r.sponsor_info.is_unset(),
    {
        Account {
            address: *address,
            balance: *balance,
            nonce: *nonce,
            code_hash: keccak_empty(),
            staking_balance: U256::zero(),
            collateral_for_storage: U256::zero(),
            accumulated_interest_return: U256::zero(),
            admin: Address::zero(),
            sponsor_info: SponsorInfo::default(),
        }
    }

    /// The record of the contract at `address` in the native space with
    /// the fields of `a`.
    pub fn from_contract_account(address: Address, a: ContractAccount) -> (r: Account)
        ensures
            r.address.address == address,
            r.address.space == Space::Native,
            r.balance == a.balance,
            r.nonce == a.nonce,
            r.code_hash == a.code_hash,
            r.staking_balance == a.staking_balance,
            r.collateral_for_storage == a.collateral_for_storage,
            r.accumulated_interest_return == a.accumulated_interest_return,
            r.admin == a.admin,
            r.sponsor_info == a.sponsor_info,
    {
        Account {
            address: address.with_native_space(),
            balance: a.balance,
            nonce: a.nonce,
            code_hash: a.code_hash,
            staking_balance: a.staking_balance,
            collateral_for_storage: a.collateral_for_storage,
            accumulated_interest_return: a.accumulated_interest_return,
            admin: a.admin,
            sponsor_info: a.sponsor_info,
        }
    }

    /// An address has one untouched record: two untouched records of the
    /// same address agree in every field.
    pub proof fn lemma_untouched_unique(a: Account, b: Account)
        requires
            a.is_untouched(),
            b.is_untouched(),
            a.address == b.address,
        ensures
            a == b,
    {
        U256::lemma_view_injective(a.balance, b.balance);
        U256::lemma_view_injective(a.nonce, b.nonce);
        U256::lemma_view_injective(a.staking_balance, b.staking_balance);
        U256::lemma_view_injective(a.collateral_for_storage, b.collateral_for_storage);
        U256::lemma_view_injective(a.accumulated_interest_return, b.accumulated_interest_return);
        lemma_same_digest(a.code_hash, b.code_hash);
        assert(a.admin.0 =~= b.admin.0);
        SponsorInfo::lemma_unset_unique(a.sponsor_info, b.sponsor_info);
    }

    /// Whether the record is that of an account that was never touched.
    pub fn is_default(&self) -> (r: bool)
        ensures
            r == self.is_untouched(),
    {
        let empty = keccak_empty();
        proof {
            if is_keccak_empty(self.code_hash) {
                lemma_same_digest(self.code_hash, empty);
            }
        }
        self.balance.is_zero() && self.nonce.is_zero() && self.code_hash == empty
            && self.staking_balance.is_zero() && self.collateral_for_storage.is_zero()
            && self.accumulated_interest_return.is_zero() && self.admin.is_null_address()
            && self.sponsor_info.is_default()
    }
}

} // verus!
