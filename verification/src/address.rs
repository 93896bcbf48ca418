//! The identity of a principal.

use crate::bytes::bytes_equal;
use vstd::prelude::*;

verus! {

/// The identity of a principal: an account or a contract that can sign an
/// invocation. Nothing is read from an address but which principal it names,
/// so it is held as the bytes of its textual form and two addresses name the
/// same principal exactly when those bytes are equal.
#[derive(Debug)]
pub struct Address {
    key: Vec<u8>,
}

impl View for Address {
    type V = Seq<u8>;

    closed spec fn view(&self) -> Seq<u8> {
        self.key@
    }
}

impl Address {
    /// The address whose textual form is `key`.
    pub fn new(key: Vec<u8>) -> (address: Address)
        ensures
            address@ == key@,
    {
        Address { key }
    }

    /// The address whose textual form is the bytes of `key`.
    pub fn from_bytes(key: &[u8]) -> (address: Address)
        ensures
            address@ == key@,
    {
        let mut copy: Vec<u8> = Vec::new();
        let mut i: usize = 0;
        while i < key.len()
            invariant
                i <= key@.len(),
                copy@ == key@.take(i as int),
            decreases key@.len() - i,
        {
            copy.push(key[i]);
            i = i + 1;
            assert(copy@ =~= key@.take(i as int));
        }
        assert(copy@ =~= key@);
        Address { key: copy }
    }

    /// The bytes of the textual form.
    pub fn as_bytes(&self) -> (key: &[u8])
        ensures
            key@ == self@,
    {
        self.key.as_slice()
    }

    /// Whether `self` and `other` name the same principal.
    pub fn same_as(&self, other: &Address) -> (same: bool)
        ensures
            same == (self@ == other@),
    {
        bytes_equal(self.key.as_slice(), other.key.as_slice())
    }
}

impl Clone for Address {
    fn clone(&self) -> (copy: Address)
        ensures
            copy@ == self@,
    {
        Address::from_bytes(self.key.as_slice())
    }
}

} // verus!
