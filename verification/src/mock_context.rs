//! A context that records what an interpreter asks of it, for running the
//! interpreter without a chain behind it. It cannot run nested calls.

use crate::address::{bytes_equal, Address, Space};
use crate::assoc::{AssocMap, Keyed};
use crate::context::{
    BlockHashSource, CallType, ContractCreateResult, CreateContractAddress, DbError, Env, Error,
    GasLeft, MessageCallResult, ReturnData, Spec, TrapKind,
};
use crate::hash::{keccak, keccak_digest, H256};
use crate::uint::U256;
use vstd::prelude::*;

verus! {

impl Keyed for Address {
    type Model = Address;

    open spec fn model(&self) -> Address {
        *self
    }

    fn same_key(&self, other: &Address) -> (r: bool) {
        bytes_equal(&self.0, &other.0)
    }
}

impl Keyed for U256 {
    type Model = U256;

    open spec fn model(&self) -> U256 {
        *self
    }

    fn same_key(&self, other: &U256) -> (r: bool) {
        *self == *other
    }
}

/// A copy of the bytes of a slice.
pub fn to_bytes(data: &[u8]) -> (r: Vec<u8>)
    ensures
        r@ == data@,
{
    let mut out: Vec<u8> = Vec::new();
    let n: usize = data.len();
    let mut i: usize = 0;
    while i < n
        invariant
            n == data@.len(),
            i <= n,
            out@ == data@.take(i as int),
        decreases n - i,
    {
        out.push(data[i]);
        assert(data@.take(i + 1) =~= data@.take(i as int).push(data@[i as int]));
        i += 1;
    }
    assert(data@.take(n as int) =~= data@);
    out
}

/// Whether both hold the same address, or both none.
pub fn same_optional_address(a: &Option<Address>, b: &Option<Address>) -> (r: bool)
    ensures
        r == (*a == *b),
{
    match (a, b) {
        (Some(x), Some(y)) => bytes_equal(&x.0, &y.0),
        (None, None) => true,
        _ => false,
    }
}

/// A log entry that was emitted.
#[derive(Debug)]
pub struct MockLogEntry {
    pub topics: Vec<H256>,
    pub data: Vec<u8>,
}

/// Whether a recorded request was a message call or a creation.
#[derive(Clone, Copy, Debug, PartialEq, Eq, Hash, Structural)]
pub enum MockCallType {
    Call,
    Create,
}

/// A message call or a creation that was requested.
#[derive(Debug)]
pub struct MockCall {
    pub call_type: MockCallType,
    pub create_scheme: Option<CreateContractAddress>,
    pub gas: U256,
    pub sender_address: Option<Address>,
    pub receive_address: Option<Address>,
    pub value: Option<U256>,
    pub data: Vec<u8>,
    pub code_address: Option<Address>,
}

/// What a recorded request says.
pub struct MockCallModel {
    pub call_type: MockCallType,
    pub create_scheme: Option<CreateContractAddress>,
    pub gas: U256,
    pub sender_address: Option<Address>,
    pub receive_address: Option<Address>,
    pub value: Option<U256>,
    pub data: Seq<u8>,
    pub code_address: Option<Address>,
}

impl View for MockCall {
    type V = MockCallModel;

    open spec fn view(&self) -> MockCallModel {
        MockCallModel {
            call_type: self.call_type,
            create_scheme: self.create_scheme,
            gas: self.gas,
            sender_address: self.sender_address,
            receive_address: self.receive_address,
            value: self.value,
            data: self.data@,
            code_address: self.code_address,
        }
    }
}

impl Keyed for MockCall {
    type Model = MockCallModel;

    open spec fn model(&self) -> MockCallModel {
        self@
    }

    fn same_key(&self, other: &MockCall) -> (r: bool) {
        let same_scheme = match (&self.create_scheme, &other.create_scheme) {
            (Some(a), Some(b)) => a.same(b),
            (None, None) => true,
            _ => false,
        };
        let same_value = match (&self.value, &other.value) {
            (Some(a), Some(b)) => *a == *b,
            (None, None) => true,
            _ => false,
        };
        self.call_type == other.call_type && same_scheme && self.gas == other.gas
            && same_optional_address(&self.sender_address, &other.sender_address)
            && same_optional_address(&self.receive_address, &other.receive_address) && same_value
            && crate::storage_cache::same_bytes(&self.data, &other.data) && same_optional_address(
            &self.code_address,
            &other.code_address,
        )
    }
}

/// The known gas of a finished execution, or its error.
///
/// The caller passes no execution that still needs its return paid for.
pub fn test_finalize(res: Result<GasLeft, Error>) -> (r: Result<U256, Error>)
    requires
        !(res matches Ok(GasLeft::NeedsReturn { .. })),
    ensures
        res matches Ok(GasLeft::Known(gas)) ==> r == Ok::<U256, Error>(gas),
        res matches Err(e) ==> r == Err::<U256, Error>(e),
{
    match res {
        Ok(GasLeft::Known(gas)) => Ok(gas),
        Ok(GasLeft::NeedsReturn { .. }) => vstd::pervasive::unreached(),
        Err(e) => Err(e),
    }
}

/// A context for tests: storage, balances, code and block hashes are what
/// the test put there; calls, creations, logs and self-destructs are
/// recorded and not run.
#[derive(Debug)]
pub struct MockContext {
    pub store: AssocMap<Vec<u8>, U256>,
    pub suicides: AssocMap<Address, ()>,
    pub calls: AssocMap<MockCall, ()>,
    pub sstore_clears: i128,
    pub depth: usize,
    pub blockhashes: AssocMap<U256, H256>,
    pub codes: AssocMap<Address, Vec<u8>>,
    pub logs: Vec<MockLogEntry>,
    pub env: Env,
    pub spec: Spec,
    pub balances: AssocMap<Address, U256>,
    pub tracing: bool,
    pub is_static: bool,
    pub chain_id: u64,
}

impl Default for MockContext {
    fn default() -> (r: MockContext)
        ensures
            r.wf(),
            r.is_blank(),
            r.spec == Spec::Genesis,
    {
        MockContext {
            store: AssocMap::new(),
            suicides: AssocMap::new(),
            calls: AssocMap::new(),
            sstore_clears: 0,
            depth: 0,
            blockhashes: AssocMap::new(),
            codes: AssocMap::new(),
            logs: Vec::new(),
            env: Env::default(),
            spec: Spec::default(),
            balances: AssocMap::new(),
            tracing: false,
            is_static: false,
            chain_id: 0,
        }
    }
}

impl MockContext {
    /// None of the maps holds a key twice.
    pub open spec fn wf(&self) -> bool {
        &&& self.store.wf()
        &&& self.suicides.wf()
        &&& self.calls.wf()
        &&& self.blockhashes.wf()
        &&& self.codes.wf()
        &&& self.balances.wf()
    }

    /// Nothing is stored or recorded, the block environment is all zero,
    /// no flag is set, and the chain is chain 0.
    pub open spec fn is_blank(&self) -> bool {
        &&& self.store@ == Map::<Seq<u8>, U256>::empty()
        &&& self.suicides@ == Map::<Address, ()>::empty()
        &&& self.calls@ == Map::<MockCallModel, ()>::empty()
        &&& self.sstore_clears == 0
        &&& self.depth == 0
        &&& self.blockhashes@ == Map::<U256, H256>::empty()
        &&& self.codes@ == Map::<Address, Vec<u8>>::empty()
        &&& self.logs@.len() == 0
        &&& self.env.is_zero()
        &&& self.balances@ == Map::<Address, U256>::empty()
        &&& !self.tracing
        &&& !self.is_static
        &&& self.chain_id == 0
    }

    /// New mock context: blank, under the rules of the first block.
    pub fn new() -> (r: MockContext)
        ensures
            r.wf(),
            r.is_blank(),
            r.spec == Spec::Genesis,
    {
        MockContext::default()
    }

    /// New mock context: blank, under the rules that tests run with.
    pub fn new_spec() -> (r: MockContext)
        ensures
            r.wf(),
            r.is_blank(),
            r.spec == Spec::Test,
    {
        let mut context = MockContext::default();
        context.spec = Spec::new_spec_for_test();
        context
    }

    /// The same context on chain `chain_id`.
    pub fn with_chain_id(self, chain_id: u64) -> (r: MockContext)
        ensures
            r.chain_id == chain_id,
            r == (MockContext { chain_id, ..self }),
    {
        let mut context = self;
        context.chain_id = chain_id;
        context
    }

    /// The value stored under `key`; zero where nothing is stored.
    pub fn storage_at(&self, key: &[u8]) -> (r: Result<U256, Error>)
        requires
            self.wf(),
        ensures
            r == Ok::<U256, Error>(
                if self.store@.contains_key(key@) {
                    self.store@[key@]
                } else {
                    U256 { w3: 0, w2: 0, w1: 0, w0: 0 }
                },
            ),
    {
        let k = to_bytes(key);
        match self.store.get(&k) {
            Some(v) => Ok(*v),
            None => Ok(U256::zero()),
        }
    }

    /// The value that was stored under `key` before the transaction: the
    /// mock knows of none.
    pub fn origin_storage_at(&self, key: &[u8]) -> (r: Result<Option<U256>, Error>)
        ensures
            r == Ok::<Option<U256>, Error>(None),
    {
        Ok(None)
    }

    /// Stores `value` under `key`.
    pub fn set_storage(&mut self, key: Vec<u8>, value: U256) -> (r: Result<(), Error>)
        requires
            old(self).wf(),
        ensures
            final(self).wf(),
            r is Ok,
            final(self).store@ == old(self).store@.insert(key@, value),
            *final(self) == (MockContext { store: final(self).store, ..*old(self) }),
    {
        self.store.insert(key, value);
        Ok(())
    }

    /// Transient storage is not kept: every key reads as zero.
    pub fn transient_storage_at(&self, key: &Vec<u8>) -> (r: Result<U256, Error>)
        ensures
            r == Ok::<U256, Error>(U256 { w3: 0, w2: 0, w1: 0, w0: 0 }),
    {
        Ok(U256::zero())
    }

    /// Transient storage is not kept: the write is dropped.
    pub fn transient_set_storage(&mut self, key: Vec<u8>, value: U256) -> (r: Result<(), Error>)
        ensures
            r is Ok,
            *final(self) == *old(self),
    {
        Ok(())
    }

    /// Whether a balance is known for `address`.
    pub fn account_exists(&self, address: &Address) -> (r: Result<bool, Error>)
        requires
            self.wf(),
        ensures
            r == Ok::<bool, Error>(self.balances@.contains_key(*address)),
    {
        Ok(self.balances.contains_key(address))
    }

    /// Whether a balance other than zero is known for `address`.
    pub fn exists_and_not_null(&self, address: &Address) -> (r: Result<bool, Error>)
        requires
            self.wf(),
        ensures
            r == Ok::<bool, Error>(
                self.balances@.contains_key(*address) && self.balances@[*address]@ != 0,
            ),
    {
        match self.balances.get(address) {
            Some(b) => Ok(!b.is_zero()),
            None => Ok(false),
        }
    }

    /// The balance of `address`, which the caller knows to have one.
    pub fn balance(&self, address: &Address) -> (r: Result<U256, Error>)
        requires
            self.wf(),
            self.balances@.contains_key(*address),
        ensures
            r == Ok::<U256, Error>(self.balances@[*address]),
    {
        match self.balances.get(address) {
            Some(b) => Ok(*b),
            None => vstd::pervasive::unreached(),
        }
    }

    /// The hash of block `number`; zero where none is known.
    pub fn blockhash(&mut self, number: &U256) -> (r: Result<H256, Error>)
        requires
            old(self).wf(),
        ensures
            *final(self) == *old(self),
            match r {
                Ok(h) => if old(self).blockhashes@.contains_key(*number) {
                    h == old(self).blockhashes@[*number]
                } else {
                    forall|i: int| 0 <= i < 32 ==> h.0[i] == 0
                },
                Err(_) => false,
            },
    {
        match self.blockhashes.get(number) {
            Some(h) => Ok(*h),
            None => Ok(H256::zero()),
        }
    }

    /// Records the request to create a contract and answers that it failed
    /// for want of gas: the mock creates nothing.
    pub fn create(
        &mut self,
        gas: &U256,
        value: &U256,
        code: &[u8],
        address: CreateContractAddress,
    ) -> (r: Result<Result<ContractCreateResult, TrapKind>, DbError>)
        requires
            old(self).wf(),
        ensures
            final(self).wf(),
            r == Ok::<Result<ContractCreateResult, TrapKind>, DbError>(
                Ok(ContractCreateResult::Failed(Error::OutOfGas)),
            ),
            final(self).calls@ == old(self).calls@.insert(
                MockCallModel {
                    call_type: MockCallType::Create,
                    create_scheme: Some(address),
                    gas: *gas,
                    sender_address: None,
                    receive_address: None,
                    value: Some(*value),
                    data: code@,
                    code_address: None,
                },
                (),
            ),
            *final(self) == (MockContext { calls: final(self).calls, ..*old(self) }),
    {
        self.calls.insert(
            MockCall {
                call_type: MockCallType::Create,
                create_scheme: Some(address),
                gas: *gas,
                sender_address: None,
                receive_address: None,
                value: Some(*value),
                data: to_bytes(code),
                code_address: None,
            },
            (),
        );
        Ok(Ok(ContractCreateResult::Failed(Error::OutOfGas)))
    }

    /// Records the requested message call and answers that it succeeded
    /// with all of `gas` left and no data: the mock runs nothing.
    pub fn call(
        &mut self,
        gas: &U256,
        sender_address: &Address,
        receive_address: &Address,
        value: Option<U256>,
        data: &[u8],
        code_address: &Address,
        call_type: CallType,
    ) -> (r: Result<Result<MessageCallResult, TrapKind>, DbError>)
        requires
            old(self).wf(),
        ensures
            final(self).wf(),
            match r {
                Ok(Ok(MessageCallResult::Success(left, returned))) => left == *gas
                    && returned.mem@.len() == 0 && returned.offset == 0 && returned.size == 0,
                _ => false,
            },
            final(self).calls@ == old(self).calls@.insert(
                MockCallModel {
                    call_type: MockCallType::Call,
                    create_scheme: None,
                    gas: *gas,
                    sender_address: Some(*sender_address),
                    receive_address: Some(*receive_address),
                    value,
                    data: data@,
                    code_address: Some(*code_address),
                },
                (),
            ),
            *final(self) == (MockContext { calls: final(self).calls, ..*old(self) }),
    {
        self.calls.insert(
            MockCall {
                call_type: MockCallType::Call,
                create_scheme: None,
                gas: *gas,
                sender_address: Some(*sender_address),
                receive_address: Some(*receive_address),
                value,
                data: to_bytes(data),
                code_address: Some(*code_address),
            },
            (),
        );
        Ok(Ok(MessageCallResult::Success(*gas, ReturnData::empty())))
    }

    /// The code at `address`, if any is known.
    pub fn extcode(&self, address: &Address) -> (r: Result<Option<Vec<u8>>, Error>)
        requires
            self.wf(),
        ensures
            match r {
                Ok(Some(c)) => self.codes@.contains_key(*address) && c@
                    == self.codes@[*address]@,
                Ok(None) => !self.codes@.contains_key(*address),
                Err(_) => false,
            },
    {
        match self.codes.get(address) {
            Some(c) => Ok(Some(crate::storage_cache::copy_bytes(c))),
            None => Ok(None),
        }
    }

    /// The size of the code at `address`; zero where none is known.
    pub fn extcodesize(&self, address: &Address) -> (r: Result<usize, Error>)
        requires
            self.wf(),
        ensures
            r == Ok::<usize, Error>(
                if self.codes@.contains_key(*address) {
                    self.codes@[*address]@.len() as usize
                } else {
                    0
                },
            ),
    {
        match self.codes.get(address) {
            Some(c) => Ok(c.len()),
            None => Ok(0),
        }
    }

    /// The Keccak-256 hash of the code at `address`; zero where none is
    /// known.
    pub fn extcodehash(&self, address: &Address) -> (r: Result<H256, Error>)
        requires
            self.wf(),
        ensures
            match r {
                Ok(h) => if self.codes@.contains_key(*address) {
                    h.0@ == keccak_digest(self.codes@[*address]@)
                } else {
                    forall|i: int| 0 <= i < 32 ==> h.0[i] == 0
                },
                Err(_) => false,
            },
    {
        match self.codes.get(address) {
            Some(c) => Ok(keccak(c.as_slice())),
            None => Ok(H256::zero()),
        }
    }

    /// Records a log entry.
    pub fn log(&mut self, topics: Vec<H256>, data: &[u8]) -> (r: Result<(), Error>)
        ensures
            r is Ok,
            final(self).logs@.len() == old(self).logs@.len() + 1,
            final(self).logs@.last().topics == topics,
            final(self).logs@.last().data@ == data@,
            final(self).logs@.drop_last() == old(self).logs@,
            *final(self) == (MockContext { logs: final(self).logs, ..*old(self) }),
    {
        self.logs.push(MockLogEntry { topics, data: to_bytes(data) });
        assert(self.logs@.drop_last() =~= old(self).logs@);
        Ok(())
    }

    /// Refunds are not tracked.
    pub fn refund(&mut self, refund_gas: i64)
        ensures
            *final(self) == *old(self),
    {
    }

    /// Records the self-destruct in favour of `refund_address`, unless
    /// that address is of no kind that may exist.
    pub fn suicide(&mut self, refund_address: &Address) -> (r: Result<(), Error>)
        requires
            old(self).wf(),
        ensures
            final(self).wf(),
            r == if refund_address.genesis_valid() {
                Ok::<(), Error>(())
            } else {
                Err::<(), Error>(Error::InvalidAddress(*refund_address))
            },
            final(self).suicides@ == if refund_address.genesis_valid() {
                old(self).suicides@.insert(*refund_address, ())
            } else {
                old(self).suicides@
            },
            *final(self) == (MockContext { suicides: final(self).suicides, ..*old(self) }),
    {
        if !refund_address.is_genesis_valid_address() {
            return Err(Error::InvalidAddress(*refund_address));
        }
        self.suicides.insert(*refund_address, ());
        Ok(())
    }

    pub fn spec(&self) -> (r: &Spec)
        ensures
            *r == self.spec,
    {
        &self.spec
    }

    pub fn env(&self) -> (r: &Env)
        ensures
            *r == self.env,
    {
        &self.env
    }

    pub fn chain_id(&self) -> (r: u64)
        ensures
            r == self.chain_id,
    {
        self.chain_id
    }

    pub fn depth(&self) -> (r: usize)
        ensures
            r == self.depth,
    {
        self.depth
    }

    pub fn is_static(&self) -> (r: bool)
        ensures
            r == self.is_static,
    {
        self.is_static
    }

    /// The mock tracks no reentrancy: this is `is_static`.
    pub fn is_static_or_reentrancy(&self) -> (r: bool)
        ensures
            r == self.is_static,
    {
        self.is_static
    }

    pub fn space(&self) -> (r: Space)
        ensures
            r == Space::Native,
    {
        Space::Native
    }

    pub fn blockhash_source(&self) -> (r: BlockHashSource)
        ensures
            r == BlockHashSource::Env,
    {
        BlockHashSource::Env
    }

    /// The mock keeps no access list: no account is warm.
    pub fn is_warm_account(&self, account: Address) -> (r: bool)
        ensures
            !r,
    {
        false
    }

    /// The mock keeps no access list: no storage entry is warm.
    pub fn is_warm_storage_entry(&self, key: &H256) -> (r: Result<bool, Error>)
        ensures
            r == Ok::<bool, Error>(false),
    {
        Ok(false)
    }
}

} // verus!
