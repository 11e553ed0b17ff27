//! Keys of global state, the values kept under them, and the changes a deploy
//! can ask for.

use vstd::prelude::*;

verus! {

/// Whether two byte arrays of one width hold the same bytes.
pub fn same_bytes<const N: usize>(a: &[u8; N], b: &[u8; N]) -> (same: bool)
    ensures
        same == (*a == *b),
{
    let mut i: usize = 0;
    while i < N
        invariant
            i <= N,
            forall|j: int| 0 <= j < i ==> a@[j] == b@[j],
        decreases N - i,
    {
        if a[i] != b[i] {
            return false;
        }
        i += 1;
    }
    assert(*a =~= *b);
    true
}

/// The place of one value in global state.
#[derive(Clone, Copy, Debug, PartialEq, Eq)]
pub enum Key {
    /// An account, by its address.
    Account([u8; 20]),
    /// A stored contract, by its hash.
    Hash([u8; 32]),
    /// An unforgeable reference.
    URef([u8; 32]),
}

impl Key {
    /// Whether `self` and `other` are the same key.
    pub fn same(&self, other: &Key) -> (same: bool)
        ensures
            same == (*self == *other),
    {
        match (self, other) {
            (Key::Account(a), Key::Account(b)) => same_bytes(a, b),
            (Key::Hash(a), Key::Hash(b)) => same_bytes(a, b),
            (Key::URef(a), Key::URef(b)) => same_bytes(a, b),
            _ => false,
        }
    }
}

/// What global state keeps under a key.
#[derive(Clone, Copy, Debug, PartialEq, Eq)]
pub enum Value {
    /// A number.
    Int32(i32),
    /// A digest.
    Digest([u8; 32]),
}

} // verus!
