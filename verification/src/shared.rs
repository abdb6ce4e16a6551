//! Byte data: copies of it, and sharing it between the cache and its users through reference
//! counting.

use std::sync::Arc;
use vstd::prelude::*;

verus! {

/// Moves a vector into a shared slice holding the same bytes, with `Arc::from`.
#[verifier::external_body]
pub(crate) fn share_bytes(v: Vec<u8>) -> (r: Arc<[u8]>)
    ensures
        r@ == v@,
{
    Arc::from(v)
}

/// Another handle to the same shared bytes, with `Arc::clone`.
#[verifier::external_body]
pub(crate) fn share_clone(a: &Arc<[u8]>) -> (r: Arc<[u8]>)
    ensures
        r@ == a@,
{
    Arc::clone(a)
}

/// Copies a slice into a new vector.
pub(crate) fn copy_bytes(data: &[u8]) -> (r: Vec<u8>)
    ensures
        r@ == data@,
{
    let mut out: Vec<u8> = Vec::new();
    let mut i: usize = 0;
    while i < data.len()
        invariant
            i <= data@.len(),
            out@ == data@.take(i as int),
        decreases data@.len() - i,
    {
        out.push(data[i]);
        i = i + 1;
        proof {
            assert(out@ =~= data@.take(i as int));
        }
    }
    proof {
        assert(data@.take(data@.len() as int) =~= data@);
    }
    out
}

} // verus!
