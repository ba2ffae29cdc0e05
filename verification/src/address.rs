//! Principals.

use crate::bytes::{bytes_equal, copy_bytes};
use vstd::prelude::*;

verus! {

/// The identifier of an account. Two addresses name the same account exactly
/// when their bytes are equal.
#[derive(Debug, PartialEq, Eq)]
pub struct Address {
    key: Vec<u8>,
}

impl View for Address {
    type V = Seq<u8>;

    closed spec fn view(&self) -> Seq<u8> {
        self.key@
    }
}

impl Clone for Address {
    fn clone(&self) -> (copy: Self)
        ensures
            copy@ == self@,
    {
        Address { key: self.key.clone() }
    }
}

impl Address {
    /// The address with the identifier `key`.
    pub fn new(key: Vec<u8>) -> (address: Self)
        ensures
            address@ == key@,
    {
        Address { key }
    }

    /// The address with a copy of `key` as its identifier.
    pub fn from_bytes(key: &[u8]) -> (address: Self)
        ensures
            address@ == key@,
    {
        Address { key: copy_bytes(key) }
    }

    /// The identifier.
    pub fn as_bytes(&self) -> (key: &[u8])
        ensures
            key@ == self@,
    {
        self.key.as_slice()
    }

    /// Whether both addresses name the same account.
    pub fn equals(&self, other: &Address) -> (same: bool)
        ensures
            same == (self@ == other@),
    {
        bytes_equal(self.key.as_slice(), other.key.as_slice())
    }
}

} // verus!
