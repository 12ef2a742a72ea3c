//! What passes between an interpreter and the state it runs on: block
//! environment, rule set, call kinds, results and errors.

use crate::address::{Address, AddressWithSpace};
use crate::hash::H256;
use crate::uint::U256;
use vstd::prelude::*;

verus! {

/// A failure of the persistent store.
#[derive(Clone, Debug, PartialEq, Eq)]
pub struct DbError {
    pub message: String,
}

/// Why an execution step failed.
#[derive(Clone, Debug, PartialEq, Eq)]
pub enum Error {
    /// The gas ran out.
    OutOfGas,
    /// An address that had to be well-formed is not.
    InvalidAddress(Address),
}

/// A nested operation that the interpreter hands back to its caller.
#[derive(Clone, Copy, Debug, PartialEq, Eq, Structural)]
pub enum TrapKind {
    Call,
    Create,
}

/// How the address of a new contract is derived.
#[derive(Clone, Copy, Debug, PartialEq, Eq)]
pub enum CreateContractAddress {
    /// From block number, sender, nonce and code hash.
    FromBlockNumberSenderNonceAndCodeHash,
    /// From sender and nonce.
    FromSenderNonce,
    /// From sender, salt and code hash.
    FromSenderSaltAndCodeHash(H256),
}

impl CreateContractAddress {
    /// Whether both name the same scheme, with the same salt.
    pub fn same(&self, other: &CreateContractAddress) -> (r: bool)
        ensures
            r == (*self == *other),
    {
        match (self, other) {
            (
                CreateContractAddress::FromBlockNumberSenderNonceAndCodeHash,
                CreateContractAddress::FromBlockNumberSenderNonceAndCodeHash,
            ) => true,
            (
                CreateContractAddress::FromSenderNonce,
                CreateContractAddress::FromSenderNonce,
            ) => true,
            (
                CreateContractAddress::FromSenderSaltAndCodeHash(a),
                CreateContractAddress::FromSenderSaltAndCodeHash(b),
            ) => *a == *b,
            _ => false,
        }
    }
}

/// The kind of a message call.
#[derive(Clone, Copy, Debug, PartialEq, Eq, Structural)]
pub enum CallType {
    /// Not a call.
    NotCall,
    Call,
    CallCode,
    DelegateCall,
    StaticCall,
}

/// Where the hash of an earlier block is looked up.
#[derive(Clone, Copy, Debug, PartialEq, Eq, Structural)]
pub enum BlockHashSource {
    Env,
    State,
}

/// The data that a call returned: `size` bytes of `mem` from `offset` on.
#[derive(Clone, Debug, PartialEq, Eq)]
pub struct ReturnData {
    pub mem: Vec<u8>,
    pub offset: usize,
    pub size: usize,
}

impl ReturnData {
    /// No data.
    pub fn empty() -> (r: ReturnData)
        ensures
            r.mem@.len() == 0,
            r.offset == 0,
            r.size == 0,
    {
        ReturnData { mem: Vec::new(), offset: 0, size: 0 }
    }
}

/// How the creation of a contract ended.
#[derive(Clone, Debug, PartialEq, Eq)]
pub enum ContractCreateResult {
    /// Created at the address, with the gas left.
    Created(AddressWithSpace, U256),
    /// Failed.
    Failed(Error),
    /// Reverted, with the gas left and the data returned.
    Reverted(U256, ReturnData),
}

/// How a message call ended.
#[derive(Clone, Debug, PartialEq, Eq)]
pub enum MessageCallResult {
    /// Succeeded, with the gas left and the data returned.
    Success(U256, ReturnData),
    /// Failed.
    Failed(Error),
    /// Reverted, with the gas left and the data returned.
    Reverted(U256, ReturnData),
}

/// The gas left when an execution ends.
#[derive(Clone, Debug, PartialEq, Eq)]
pub enum GasLeft {
    /// The amount is known.
    Known(U256),
    /// The execution ends in a return, which still has to be paid for.
    NeedsReturn { gas_left: U256, data: ReturnData, apply_state: bool },
}

/// The block that an execution runs in.
#[derive(Clone, Copy, Debug, PartialEq, Eq)]
pub struct Env {
    pub number: u64,
    pub author: Address,
    pub timestamp: u64,
    pub difficulty: U256,
    pub gas_limit: U256,
    pub last_hash: H256,
    pub accumulated_gas_used: U256,
    pub epoch_height: u64,
}

impl Env {
    /// Every number is zero, and so is every byte of author and hash.
    pub open spec fn is_zero(&self) -> bool {
        &&& self.number == 0
        &&& self.author.is_null()
        &&& self.timestamp == 0
        &&& self.difficulty@ == 0
        &&& self.gas_limit@ == 0
        &&& forall|i: int| 0 <= i < 32 ==> self.last_hash.0[i] == 0
        &&& self.accumulated_gas_used@ == 0
        &&& self.epoch_height == 0
    }
}

impl Default for Env {
    fn default() -> (r: Env)
        ensures
            r.is_zero(),
    {
        Env {
            number: 0,
            author: Address::zero(),
            timestamp: 0,
            difficulty: U256::zero(),
            gas_limit: U256::zero(),
            last_hash: H256::zero(),
            accumulated_gas_used: U256::zero(),
            epoch_height: 0,
        }
    }
}

/// The set of rules in force. The tables of costs that go with a set are
/// the interpreter's.
#[derive(Clone, Copy, Debug, PartialEq, Eq, Structural)]
pub enum Spec {
    /// The rules of the first block.
    Genesis,
    /// The rules with every later change switched on, as tests run them.
    Test,
}

impl Spec {
    pub fn new_spec_for_test() -> (r: Spec)
        ensures
            r == Spec::Test,
    {
        Spec::Test
    }
}

impl Default for Spec {
    fn default() -> (r: Spec)
        ensures
            r == Spec::Genesis,
    {
        Spec::Genesis
    }
}

} // verus!
