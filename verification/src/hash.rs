//! 32-byte digests and the Keccak-256 hash of code.

use crate::address::bytes_equal;
use vstd::prelude::*;

verus! {

/// A 32-byte digest.
#[derive(Clone, Copy, Debug, Eq, Hash)]
pub struct H256(pub [u8; 32]);

impl PartialEq for H256 {
    fn eq(&self, other: &H256) -> (r: bool) {
        bytes_equal(&self.0, &other.0)
    }
}

impl vstd::std_specs::cmp::PartialEqSpecImpl for H256 {
    open spec fn obeys_eq_spec() -> bool {
        true
    }

    open spec fn eq_spec(&self, other: &H256) -> bool {
        *self == *other
    }
}

impl H256 {
    /// The digest that is all zero.
    pub fn zero() -> (r: H256)
        ensures
            forall|i: int| 0 <= i < 32 ==> r.0[i] == 0,
    {
        let r = H256([0u8; 32]);
        r
    }
}

/// The 32 bytes of the Keccak-256 hash of `data`.
pub uninterp spec fn keccak_digest(data: Seq<u8>) -> Seq<u8>;

/// Whether `h` is the hash of the empty byte string, the code hash of an
/// account without code.
pub open spec fn is_keccak_empty(h: H256) -> bool {
    h.0@ == keccak_digest(Seq::<u8>::empty())
}

/// The Keccak-256 hash of `data`.
///
/// Trusted: this calls `keccak_hash::keccak`, which feeds `data` to a fresh
/// Keccak-256 state and returns the 32 bytes it finalizes to; the result
/// depends on the bytes of `data` alone.
#[verifier::external_body]
pub(crate) fn keccak(data: &[u8]) -> (r: H256)
    ensures
        r.0@ == keccak_digest(data@),
{
    H256(keccak_hash::keccak(data).0)
}

/// The hash of the empty byte string.
pub fn keccak_empty() -> (r: H256)
    ensures
        is_keccak_empty(r),
{
    let nothing: Vec<u8> = Vec::new();
    keccak(nothing.as_slice())
}

/// Two digests with the same bytes are the same digest.
pub proof fn lemma_same_digest(a: H256, b: H256)
    requires
        a.0@ == b.0@,
    ensures
        a == b,
{
    assert(a.0 =~= b.0);
}

} // verus!
