//! Trusted boundary to the Shabal256 hash.
//!
//! The digest itself is named, not restated: `shabal256_of` stands for the
//! 32-byte Shabal256 digest of a byte sequence, and the one wrapper below is
//! the only place the outside implementation is invoked from verified code.

use vstd::prelude::*;
use shabal::{Digest, Shabal256};

verus! {

/// The Shabal256 digest of a byte sequence; a pure function of the bytes.
pub uninterp spec fn shabal256_of(input: Seq<u8>) -> Seq<u8>;

/// Relies on `shabal::Shabal256` (RustCrypto): a 256-bit digest computed from
/// the input bytes alone, so equal inputs give equal 32-byte digests.
#[verifier::external_body]
pub fn shabal256_range(data: &Vec<u8>, start: usize, end: usize) -> (r: Vec<u8>)
    requires
        start <= end,
        end <= data@.len(),
    ensures
        r@ == shabal256_of(data@.subrange(start as int, end as int)),
        r@.len() == 32,
{
    Shabal256::digest(&data[start..end]).to_vec()
}

} // verus!
