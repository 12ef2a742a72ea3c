//! Account addresses, the kind that the leading bits of an address encode,
//! and the space an address lives in.

use vstd::prelude::*;

verus! {

/// The type bits of a built-in contract.
pub const TYPE_BITS_BUILTIN: u8 = 0x00;

/// The type bits of a user account.
pub const TYPE_BITS_USER_ACCOUNT: u8 = 0x10;

/// The type bits of a contract.
pub const TYPE_BITS_CONTRACT: u8 = 0x80;

/// Whether two byte arrays hold the same bytes.
pub fn bytes_equal<const N: usize>(a: &[u8; N], b: &[u8; N]) -> (r: bool)
    ensures
        r == (*a == *b),
{
    let mut i: usize = 0;
    while i < N
        invariant
            i <= N,
            forall|k: int| 0 <= k < i ==> a[k] == b[k],
        decreases N - i,
    {
        if a[i] != b[i] {
            return false;
        }
        i += 1;
    }
    assert(*a =~= *b);
    true
}

/// A 20-byte account address.
#[derive(Clone, Copy, Debug, Eq, Hash)]
pub struct Address(pub [u8; 20]);

impl PartialEq for Address {
    fn eq(&self, other: &Address) -> (r: bool) {
        bytes_equal(&self.0, &other.0)
    }
}

impl vstd::std_specs::cmp::PartialEqSpecImpl for Address {
    open spec fn obeys_eq_spec() -> bool {
        true
    }

    open spec fn eq_spec(&self, other: &Address) -> bool {
        *self == *other
    }
}

/// The type bits of a leading byte: its upper four bits.
pub open spec fn type_bits_of(byte: u8) -> u8 {
    byte & 0xf0
}

/// A leading byte with its type bits replaced by `bits`.
pub open spec fn with_type_bits(byte: u8, bits: u8) -> u8 {
    (byte & 0x0f) | bits
}

impl Address {
    /// The address that is all zero.
    pub fn zero() -> (r: Address)
        ensures
            r.is_null(),
    {
        let r = Address([0u8; 20]);
        r
    }

    /// Every byte is zero.
    pub open spec fn is_null(&self) -> bool {
        forall|i: int| 0 <= i < 20 ==> self.0[i] == 0
    }

    /// The kind that the address encodes in its first four bits.
    pub open spec fn type_bits(&self) -> u8 {
        type_bits_of(self.0[0])
    }

    /// The address is of a kind that may exist from the first block on: a
    /// contract, a user account, a built-in contract, or the null address.
    pub open spec fn genesis_valid(&self) -> bool {
        self.type_bits() == TYPE_BITS_CONTRACT || self.type_bits() == TYPE_BITS_USER_ACCOUNT
            || self.type_bits() == TYPE_BITS_BUILTIN
    }

    pub fn is_null_address(&self) -> (r: bool)
        ensures
            r == self.is_null(),
    {
        let mut i: usize = 0;
        while i < 20
            invariant
                i <= 20,
                forall|k: int| 0 <= k < i ==> self.0[k] == 0,
            decreases 20 - i,
        {
            if self.0[i] != 0 {
                return false;
            }
            i += 1;
        }
        true
    }

    pub fn address_type_bits(&self) -> (r: u8)
        ensures
            r == self.type_bits(),
    {
        self.0[0] & 0xf0
    }

    /// Replaces the type bits and keeps the other 156 bits.
    pub fn set_address_type_bits(&mut self, type_bits: u8)
        ensures
            final(self).0@ == old(self).0@.update(0, with_type_bits(old(self).0[0], type_bits)),
            type_bits & 0x0f == 0 ==> final(self).type_bits() == type_bits,
    {
        let first: u8 = self.0[0];
        let tagged: u8 = (first & 0x0f) | type_bits;
        assert(type_bits & 0x0f == 0 ==> ((first & 0x0f) | type_bits) & 0xf0 == type_bits)
            by (bit_vector);
        self.0[0] = tagged;
    }

    pub fn set_contract_type_bits(&mut self)
        ensures
            final(self).0@ == old(self).0@.update(
                0,
                with_type_bits(old(self).0[0], TYPE_BITS_CONTRACT),
            ),
            final(self).type_bits() == TYPE_BITS_CONTRACT,
    {
        assert(0x80u8 & 0x0f == 0) by (bit_vector);
        self.set_address_type_bits(TYPE_BITS_CONTRACT);
    }

    pub fn set_user_account_type_bits(&mut self)
        ensures
            final(self).0@ == old(self).0@.update(
                0,
                with_type_bits(old(self).0[0], TYPE_BITS_USER_ACCOUNT),
            ),
            final(self).type_bits() == TYPE_BITS_USER_ACCOUNT,
    {
        assert(0x10u8 & 0x0f == 0) by (bit_vector);
        self.set_address_type_bits(TYPE_BITS_USER_ACCOUNT);
    }

    pub fn is_contract_address(&self) -> (r: bool)
        ensures
            r == (self.type_bits() == TYPE_BITS_CONTRACT),
    {
        self.address_type_bits() == TYPE_BITS_CONTRACT
    }

    pub fn is_user_account_address(&self) -> (r: bool)
        ensures
            r == (self.type_bits() == TYPE_BITS_USER_ACCOUNT),
    {
        self.address_type_bits() == TYPE_BITS_USER_ACCOUNT
    }

    /// A built-in contract: built-in type bits on an address that is not
    /// null.
    pub fn is_builtin_address(&self) -> (r: bool)
        ensures
            r == (self.type_bits() == TYPE_BITS_BUILTIN && !self.is_null()),
    {
        self.address_type_bits() == TYPE_BITS_BUILTIN && !self.is_null_address()
    }

    pub fn is_genesis_valid_address(&self) -> (r: bool)
        ensures
            r == self.genesis_valid(),
    {
        proof {
            if self.is_null() {
                assert(self.0[0] == 0);
                assert(0u8 & 0xf0 == 0) by (bit_vector);
            }
        }
        self.is_contract_address() || self.is_user_account_address() || self.is_builtin_address()
            || self.is_null_address()
    }

    /// The address in the native space.
    pub fn with_native_space(self) -> (r: AddressWithSpace)
        ensures
            r.address == self,
            r.space == Space::Native,
    {
        AddressWithSpace { address: self, space: Space::Native }
    }

    /// The address in the Ethereum-compatible space.
    pub fn with_evm_space(self) -> (r: AddressWithSpace)
        ensures
            r.address == self,
            r.space == Space::Ethereum,
    {
        AddressWithSpace { address: self, space: Space::Ethereum }
    }
}

/// The two address spaces.
#[derive(Clone, Copy, Debug, PartialEq, Eq, Hash, Structural)]
pub enum Space {
    Native,
    Ethereum,
}

/// An address together with the space it lives in.
#[derive(Clone, Copy, Debug, PartialEq, Eq, Hash)]
pub struct AddressWithSpace {
    pub address: Address,
    pub space: Space,
}

impl AddressWithSpace {
    /// Whether both name the same account.
    pub fn same(&self, other: &AddressWithSpace) -> (r: bool)
        ensures
            r == (*self == *other),
    {
        self.address == other.address && self.space == other.space
    }
}

} // verus!
