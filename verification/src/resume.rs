//! Resume sidecar codec.
//!
//! Beside a plot file in progress sits an 8-byte sidecar holding a
//! little-endian `u64`: the count of nonces already committed contiguously
//! from the start of the range. This module encodes and decodes that record;
//! reading and replacing the file itself is the caller's concern.

use vstd::prelude::*;
use vstd::bytes::{spec_u64_to_le_bytes, spec_u64_from_le_bytes, u64_to_le_bytes, u64_from_le_bytes};
use crate::error::PlotError;

verus! {

/// Number of bytes in a well-formed sidecar.
pub const RESUME_LEN: u64 = 8;

/// Encode a completed-nonce count as the sidecar's bytes.
pub fn encode_resume(progress: u64) -> (r: Vec<u8>)
    ensures
        r@ == spec_u64_to_le_bytes(progress),
        r@.len() == 8,
{
    proof {
        vstd::bytes::lemma_auto_spec_u64_to_from_le_bytes();
    }
    u64_to_le_bytes(progress)
}

/// Decode a sidecar's bytes back into the completed-nonce count.
///
/// `None` stands for a missing sidecar beside an existing plot file, which
/// means the plot was already completed; any length other than eight bytes is
/// a corrupt record and is reported the same way.
pub fn decode_resume(bytes: Option<&Vec<u8>>) -> (r: Result<u64, PlotError>)
    ensures
        match bytes {
            Some(b) => if b@.len() == 8 {
                r == Ok::<u64, PlotError>(spec_u64_from_le_bytes(b@))
            } else {
                r == Err::<u64, PlotError>(PlotError::AlreadyCompleted)
            },
            None => r == Err::<u64, PlotError>(PlotError::AlreadyCompleted),
        },
{
    match bytes {
        Some(b) => {
            if b.len() == 8 {
                Ok(u64_from_le_bytes(b.as_slice()))
            } else {
                Err(PlotError::AlreadyCompleted)
            }
        }
        None => Err(PlotError::AlreadyCompleted),
    }
}

/// A sidecar written for a count always reads back as that count.
pub proof fn lemma_resume_round_trip(progress: u64)
    ensures
        spec_u64_to_le_bytes(progress).len() == 8,
        spec_u64_from_le_bytes(spec_u64_to_le_bytes(progress)) == progress,
{
    vstd::bytes::lemma_auto_spec_u64_to_from_le_bytes();
}

} // verus!
