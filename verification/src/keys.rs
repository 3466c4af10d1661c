//! Identities and operation identifiers: fixed 32-byte values.

use vstd::prelude::*;

verus! {

/// Number of bytes in a public key.
pub const PUBLIC_KEY_LENGTH: usize = 32;

/// Number of bytes in a hash.
pub const HASH_SIZE: usize = 32;

/// Compares two 32-byte arrays position by position.
pub fn bytes_equal(a: &[u8; 32], b: &[u8; 32]) -> (r: bool)
    ensures
        r == (*a == *b),
{
    let mut i: usize = 0;
    while i < 32
        invariant
            i <= 32,
            forall|j: int| 0 <= j < i ==> a[j] == b[j],
        decreases 32 - i,
    {
        if a[i] != b[i] {
            return false;
        }
        i += 1;
    }
    proof {
        assert(*a =~= *b);
    }
    true
}

/// Copies the first 32 bytes of a slice into an array.
fn take_32(bytes: &[u8]) -> (r: [u8; 32])
    requires
        bytes@.len() >= 32,
    ensures
        r@ == bytes@.subrange(0, 32),
{
    let mut out: [u8; 32] = [0u8; 32];
    let mut i: usize = 0;
    while i < 32
        invariant
            i <= 32,
            bytes@.len() >= 32,
            forall|j: int| 0 <= j < i ==> out[j] == bytes@[j],
        decreases 32 - i,
    {
        out[i] = bytes[i];
        i += 1;
    }
    proof {
        assert(out@ =~= bytes@.subrange(0, 32));
    }
    out
}

/// Identity of an account owner: an Ed25519 public key, as raw bytes.
#[derive(Clone, Copy, Debug)]
pub struct PublicKey {
    pub bytes: [u8; 32],
}

impl PublicKey {
    /// Wraps 32 bytes as a key.
    pub fn new(bytes: [u8; 32]) -> (r: Self)
        ensures
            r.bytes == bytes,
    {
        PublicKey { bytes }
    }

    /// Reads a key from a slice; `None` unless the slice holds exactly 32 bytes.
    pub fn from_slice(bytes: &[u8]) -> (r: Option<Self>)
        ensures
            r.is_some() <==> bytes@.len() == PUBLIC_KEY_LENGTH,
            r.is_some() ==> r.unwrap().bytes@ == bytes@,
    {
        if bytes.len() != PUBLIC_KEY_LENGTH {
            return None;
        }
        let out = take_32(bytes);
        proof {
            assert(bytes@.subrange(0, 32) =~= bytes@);
        }
        Some(PublicKey { bytes: out })
    }
}

impl PartialEq for PublicKey {
    fn eq(&self, other: &Self) -> (r: bool) {
        bytes_equal(&self.bytes, &other.bytes)
    }
}

impl Eq for PublicKey {

}

impl vstd::std_specs::cmp::PartialEqSpecImpl for PublicKey {
    open spec fn obeys_eq_spec() -> bool {
        true
    }

    open spec fn eq_spec(&self, other: &Self) -> bool {
        self.bytes == other.bytes
    }
}

/// Identifier of an operation, or a digest over an account's history: a
/// SHA-256 value, as raw bytes.
#[derive(Clone, Copy, Debug)]
pub struct Hash {
    pub bytes: [u8; 32],
}

impl Hash {
    /// Wraps 32 bytes as a hash.
    pub fn new(bytes: [u8; 32]) -> (r: Self)
        ensures
            r.bytes == bytes,
    {
        Hash { bytes }
    }

    /// The hash made of zero bytes.
    pub fn zero() -> (r: Self)
        ensures
            forall|i: int| 0 <= i < 32 ==> r.bytes[i] == 0,
    {
        Hash { bytes: [0u8; 32] }
    }

    /// Reads a hash from a slice; `None` unless the slice holds exactly 32 bytes.
    pub fn from_slice(bytes: &[u8]) -> (r: Option<Self>)
        ensures
            r.is_some() <==> bytes@.len() == HASH_SIZE,
            r.is_some() ==> r.unwrap().bytes@ == bytes@,
    {
        if bytes.len() != HASH_SIZE {
            return None;
        }
        let out = take_32(bytes);
        proof {
            assert(bytes@.subrange(0, 32) =~= bytes@);
        }
        Some(Hash { bytes: out })
    }
}

impl PartialEq for Hash {
    fn eq(&self, other: &Self) -> (r: bool) {
        bytes_equal(&self.bytes, &other.bytes)
    }
}

impl Eq for Hash {

}

impl vstd::std_specs::cmp::PartialEqSpecImpl for Hash {
    open spec fn obeys_eq_spec() -> bool {
        true
    }

    open spec fn eq_spec(&self, other: &Self) -> bool {
        self.bytes == other.bytes
    }
}

} // verus!
