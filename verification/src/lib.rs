//! Protocol core of a cross-chain non-fungible-token bridge.
//!
//! A token lives on a home ledger; moving it to a foreign ledger burns the
//! local representation, carries a compact message through an external relay
//! (the gateway), and recreates the token on the destination side.  If the
//! delivery fails, a revert notification restores the local state.
//!
//! This crate holds the verified core: the message codec, the token registry
//! with its supply and identifier bookkeeping, the outbound and inbound
//! transfer sequences, the revert handler, and the append-only event log.
//! The collaborators around it - the underlying token ledger, the metadata
//! registry, and the gateway relay - perform their work outside this crate;
//! the bridge hands them plain values and receives plain values back.

pub mod bridge;
pub mod codec;
pub mod errors;
pub mod events;
pub mod registry;

use vstd::prelude::*;
use vstd::slice::slice_to_vec;

verus! {

/// Compares two byte strings by contents.
pub fn bytes_eq(a: &Vec<u8>, b: &Vec<u8>) -> (r: bool)
    ensures
        r <==> a@ == b@,
{
    if a.len() != b.len() {
        return false;
    }
    let n = a.len();
    let mut i: usize = 0;
    while i < n
        invariant
            i <= n,
            n == a@.len() == b@.len(),
            forall|j: int| 0 <= j < i ==> a@[j] == b@[j],
        decreases n - i,
    {
        if a[i] != b[i] {
            return false;
        }
        i = i + 1;
    }
    assert(a@ =~= b@);
    true
}

/// Copies a byte string.
pub fn clone_bytes(v: &Vec<u8>) -> (r: Vec<u8>)
    ensures
        r@ == v@,
{
    slice_to_vec(v.as_slice())
}

} // verus!
