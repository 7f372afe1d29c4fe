//! Generator core for PoC2 plot files.
//!
//! A plot file packs, for a contiguous range of nonces, hash-derived data
//! laid out scoop-major so that mining can answer a challenge by reading one
//! 64-byte scoop per nonce. This crate holds the verified core: the
//! Shabal256-based nonce derivation chain, the scoop-major layout and
//! transpose, the memory sizer, the resume sidecar codec, and the pipeline
//! bookkeeping that orders hashing and writing.

use vstd::prelude::*;

pub mod bufops;
pub mod error;
pub mod hasher;
pub mod layout;
pub mod naming;
pub mod pipeline;
pub mod plan;
pub mod plotter;
pub mod resume;
pub mod sizer;
pub mod shabal256;

verus! {

/// Size in bytes of one scoop, the atomic unit of mining reads.
pub const SCOOP_SIZE: u64 = 64;

/// Number of scoops in one nonce.
pub const NUM_SCOOPS: u64 = 4096;

/// Size in bytes of the data derived for one nonce.
pub const NONCE_SIZE: u64 = 262144;

/// Size in bytes of one Shabal256 digest.
pub const HASH_SIZE: u64 = 32;

/// Upper bound, in bytes, on the window of prior output hashed at each step
/// of the seed chain.
pub const HASH_CAP: u64 = 4096;

} // verus!
