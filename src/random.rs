//! Bytes from the operating system's secure random source.

use chacha20poly1305::aead::rand_core::RngCore;
use chacha20poly1305::aead::OsRng;
use vstd::prelude::*;

verus! {

/// Relies on `RngCore::try_fill_bytes` of `OsRng`: `len` bytes from the
/// operating system's secure random source, or `None` when that source fails.
#[verifier::external_body]
pub(crate) fn random_bytes(len: usize) -> (r: Option<Vec<u8>>)
    ensures
        r matches Some(v) ==> v@.len() == len,
{
    let mut buf = vec![0u8; len];
    OsRng.try_fill_bytes(&mut buf).ok().map(|_| buf)
}

} // verus!
