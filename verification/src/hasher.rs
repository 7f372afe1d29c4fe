//! Nonce derivation: the Shabal256 seed chain, the final-digest XOR, and the
//! PoC2 half-swap, all stated against `shabal256_of`.
//!
//! Conceptually a nonce's data is a 262144-byte region `R` generated in front
//! of the 16-byte seed `big_endian(id) || big_endian(n)`. Working from the
//! high addresses of `R` downward, each step hashes the window of at most
//! `HASH_CAP` bytes that starts just above the 32-byte slot being produced
//! (the first step sees only the seed) and stores the digest in that slot.
//! A final digest over the whole generated region is XORed into `R`, and the
//! PoC2 swap exchanges the second 32-byte halves of scoops `s` and
//! `NUM_SCOOPS - 1 - s`.

use vstd::prelude::*;
use crate::shabal256::{shabal256_of, shabal256_range};
use crate::bufops::{spec_u64_be, u64_be_bytes, splice_at};

verus! {

/// The 16-byte seed: account id then nonce number, both big-endian.
pub open spec fn seed_bytes(id: u64, n: u64) -> Seq<u8> {
    spec_u64_be(id) + spec_u64_be(n)
}

/// The generated bytes from slot `i` upward: `G[32 * i .. 262160]`, where `G`
/// is the region `R` followed by the seed. Slot 8192 is the seed itself; slot
/// `i < 8192` holds the digest of the window of at most `HASH_CAP` bytes that
/// follows it.
pub open spec fn chain_tail(id: u64, n: u64, i: int) -> Seq<u8>
    decreases 8192 - i,
{
    if i >= 8192 {
        seed_bytes(id, n)
    } else {
        let rest = chain_tail(id, n, i + 1);
        let window = rest.take(if rest.len() <= 4096 {
            rest.len() as int
        } else {
            4096
        });
        shabal256_of(window) + rest
    }
}

/// The digest taken over the entire generated region and seed.
pub open spec fn final_digest(id: u64, n: u64) -> Seq<u8> {
    shabal256_of(chain_tail(id, n, 0))
}

/// Byte `t` of the generated region after the final-digest XOR.
pub open spec fn xored_byte(id: u64, n: u64, t: int) -> u8 {
    chain_tail(id, n, 0)[t] ^ final_digest(id, n)[t % 32]
}

/// Where byte `j` of the finished nonce comes from in the XORed region: the
/// first half of every scoop stays, the second half is taken from the
/// mirrored scoop.
pub open spec fn poc2_source(j: int) -> int {
    let s = j / 64;
    let w = j % 64;
    if w < 32 {
        j
    } else {
        (4095 - s) * 64 + w
    }
}

/// The finished 262144 bytes of one nonce: seed chain, XOR, PoC2 swap.
pub open spec fn nonce_bytes(id: u64, n: u64) -> Seq<u8> {
    Seq::new(262144, |j: int| xored_byte(id, n, poc2_source(j)))
}

/// Compute the full data of one nonce.
pub fn plot_nonce(id: u64, n: u64) -> (r: Vec<u8>)
    ensures
        r@ == nonce_bytes(id, n),
        r@.len() == 262144,
{
    // Lay out G: 262144 bytes of scratch followed by the 16-byte seed.
    let mut g: Vec<u8> = Vec::new();
    let mut z: usize = 0;
    while z < 262144
        invariant
            g@.len() == z,
            z <= 262144,
        decreases 262144 - z,
    {
        g.push(0u8);
        z += 1;
    }
    let id_b = u64_be_bytes(id);
    let n_b = u64_be_bytes(n);
    let mut k: usize = 0;
    while k < 8
        invariant
            k <= 8,
            g@.len() == 262144 + k,
            id_b@ == spec_u64_be(id),
            g@.subrange(262144, 262144 + k as int) == spec_u64_be(id).take(k as int),
        decreases 8 - k,
    {
        g.push(id_b[k]);
        k += 1;
        proof {
            assert(g@.subrange(262144, 262144 + k as int) =~= spec_u64_be(id).take(k as int));
        }
    }
    proof {
        assert(spec_u64_be(id).take(8) =~= spec_u64_be(id));
    }
    let mut k2: usize = 0;
    while k2 < 8
        invariant
            k2 <= 8,
            g@.len() == 262152 + k2,
            n_b@ == spec_u64_be(n),
            g@.subrange(262144, 262152) == spec_u64_be(id),
            g@.subrange(262152, 262152 + k2 as int) == spec_u64_be(n).take(k2 as int),
        decreases 8 - k2,
    {
        g.push(n_b[k2]);
        k2 += 1;
        proof {
            assert(g@.subrange(262144, 262152) =~= spec_u64_be(id));
            assert(g@.subrange(262152, 262152 + k2 as int) =~= spec_u64_be(n).take(k2 as int));
        }
    }
    proof {
        assert(spec_u64_be(n).take(8) =~= spec_u64_be(n));
        assert(spec_u64_be(id).len() == 8);
        assert(spec_u64_be(n).len() == 8);
        assert(g@.subrange(262144, 262160) =~= seed_bytes(id, n));
        assert(chain_tail(id, n, 8192) == seed_bytes(id, n));
    }

    // Seed chain: fill slots 8191 down to 0.
    let mut i: usize = 8192;
    while i > 0
        invariant
            i <= 8192,
            g@.len() == 262160,
            g@.subrange(32 * i as int, 262160) == chain_tail(id, n, i as int),
        decreases i,
    {
        i -= 1;
        let start: usize = 32 * (i + 1);
        let end: usize = if start + 4096 <= 262160 {
            start + 4096
        } else {
            262160
        };
        let d = shabal256_range(&g, start, end);
        proof {
            let rest = chain_tail(id, n, i as int + 1);
            assert(rest.len() == 262160 - 32 * (i as int + 1));
            assert(g@.subrange(start as int, end as int) =~= rest.take(
                if rest.len() <= 4096 { rest.len() as int } else { 4096 },
            ));
        }
        splice_at(&mut g, 32 * i, &d);
        proof {
            assert(g@.subrange(32 * i as int, 262160) =~= d@ + chain_tail(id, n, i as int + 1));
        }
    }
    proof {
        assert(g@.subrange(0, 262160) =~= g@);
        assert(g@ == chain_tail(id, n, 0));
    }

    // Final digest over the whole generated region, then XOR and PoC2 swap
    // while gathering the finished bytes.
    let f = shabal256_range(&g, 0, 262160);
    let mut out: Vec<u8> = Vec::new();
    let mut j: usize = 0;
    while j < 262144
        invariant
            j <= 262144,
            out@.len() == j,
            g@.len() == 262160,
            g@ == chain_tail(id, n, 0),
            f@ == final_digest(id, n),
            f@.len() == 32,
            forall|t: int| 0 <= t < j ==> out@[t] == nonce_bytes(id, n)[t],
        decreases 262144 - j,
    {
        let s: usize = j / 64;
        let w: usize = j % 64;
        proof {
            assert(j / 64 < 4096 && j % 64 < 64) by (nonlinear_arith)
                requires
                    0 <= j < 262144,
            ;
        }
        let src: usize = if w < 32 {
            j
        } else {
            (4095 - s) * 64 + w
        };
        proof {
            assert(src < 262144) by (nonlinear_arith)
                requires
                    src == (if w < 32 { j as int } else { (4095 - s) * 64 + w }),
                    s == j / 64,
                    w == j % 64,
                    0 <= j < 262144,
                    s < 4096,
                    w < 64,
            ;
            assert(src as int == poc2_source(j as int));
        }
        let b = g[src];
        let x = b ^ f[src % 32];
        proof {
            assert(x == xored_byte(id, n, src as int));
            assert(nonce_bytes(id, n)[j as int] == xored_byte(id, n, poc2_source(j as int)));
        }
        out.push(x);
        j += 1;
    }
    proof {
        assert(out@ =~= nonce_bytes(id, n));
    }
    out
}

} // verus!
