//! The nonce derivation checked against an independent straight-line driver
//! of the reference Shabal256 implementation.

use engraver::bufops::u64_be_bytes;
use engraver::hasher::plot_nonce;
use shabal::{Digest, Shabal256};

/// The derivation of one nonce up to (and excluding) the PoC2 swap, written
/// directly against the shabal crate.
fn reference_pre_swap(id: u64, n: u64) -> Vec<u8> {
    let mut g = vec![0u8; 262160];
    g[262144..262152].copy_from_slice(&id.to_be_bytes());
    g[262152..262160].copy_from_slice(&n.to_be_bytes());
    let mut i = 8192usize;
    while i > 0 {
        i -= 1;
        let start = 32 * (i + 1);
        let end = if start + 4096 <= 262160 { start + 4096 } else { 262160 };
        let d = Shabal256::digest(&g[start..end]);
        g[32 * i..32 * i + 32].copy_from_slice(&d);
    }
    let f = Shabal256::digest(&g[..]);
    let mut r = g[..262144].to_vec();
    for j in 0..262144 {
        r[j] ^= f[j % 32];
    }
    r
}

/// The full reference derivation, PoC2 swap included.
fn reference_nonce(id: u64, n: u64) -> Vec<u8> {
    let pre = reference_pre_swap(id, n);
    let mut r = pre.clone();
    for s in 2048..4096usize {
        let m = 4095 - s;
        for b in 32..64usize {
            r[s * 64 + b] = pre[m * 64 + b];
            r[m * 64 + b] = pre[s * 64 + b];
        }
    }
    r
}

#[test]
fn zero_seed_scoop_zero_matches_reference() {
    let lib = plot_nonce(0, 0);
    let reference = reference_nonce(0, 0);
    assert_eq!(lib.len(), 262144);
    assert_eq!(&lib[0..32], &reference[0..32]);
    assert_eq!(&lib[0..64], &reference[0..64]);
    assert_eq!(lib, reference);
}

#[test]
fn poc2_swap_crosses_scoop_zero_and_last() {
    let id = 0x1122334455667788u64;
    let lib = plot_nonce(id, 1);
    let pre = reference_pre_swap(id, 1);
    // The second half of scoop 0 is the pre-swap second half of scoop 4095,
    // and the other way round; first halves stay in place.
    assert_eq!(&lib[32..64], &pre[4095 * 64 + 32..4095 * 64 + 64]);
    assert_eq!(&lib[4095 * 64 + 32..4095 * 64 + 64], &pre[32..64]);
    assert_eq!(&lib[0..32], &pre[0..32]);
    assert_eq!(&lib[4095 * 64..4095 * 64 + 32], &pre[4095 * 64..4095 * 64 + 32]);
}

#[test]
fn big_endian_encoding_is_exact() {
    let b = u64_be_bytes(0x1122334455667788);
    assert_eq!(b, vec![0x11, 0x22, 0x33, 0x44, 0x55, 0x66, 0x77, 0x88]);
    let z = u64_be_bytes(0);
    assert_eq!(z, vec![0u8; 8]);
}
