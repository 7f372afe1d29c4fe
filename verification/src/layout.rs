//! The on-disk layout and the transpose writer's compute path, stated over an
//! in-memory image of the plot file.
//!
//! A buffer holds `k` consecutive nonces nonce-major; the finished file holds
//! `NUM_SCOOPS` scoop blocks, block `s` holding the `s`-th scoop of every
//! nonce in increasing nonce order. `write_chunk` performs the transpose of
//! one buffer into such an image; `plot_buffers` drives the whole range
//! chunk by chunk, exactly as the scheduler and writer do around a real file.

use vstd::prelude::*;
use vstd::arithmetic::div_mod::{
    lemma_fundamental_div_mod, lemma_fundamental_div_mod_converse, lemma_mod_bound,
};
use crate::hasher::{nonce_bytes, plot_nonce};
use crate::bufops::splice_at;

verus! {

/// Byte `t` of a run of nonces laid out nonce-major, first nonce `first`.
pub open spec fn chunk_byte(id: u64, first: u64, t: int) -> u8 {
    nonce_bytes(id, (first + t / 262144) as u64)[t % 262144]
}

/// Byte `off` of the finished plot file for `total` nonces from `start`:
/// scoop `off / (total * 64)`, nonce `start + (off % (total * 64)) / 64`.
pub open spec fn plot_byte(id: u64, start: u64, total: int, off: int) -> u8 {
    let s = off / (total * 64);
    let r = off % (total * 64);
    nonce_bytes(id, (start + r / 64) as u64)[s * 64 + r % 64]
}

/// The finished plot file as one byte sequence.
pub open spec fn plot_file_bytes(id: u64, start: u64, total: int) -> Seq<u8> {
    Seq::new((total * 262144) as nat, |off: int| plot_byte(id, start, total, off))
}

/// A finished plot file holds exactly `total * NONCE_SIZE` bytes.
pub proof fn lemma_plot_file_len(id: u64, start: u64, total: int)
    requires
        0 <= total,
    ensures
        plot_file_bytes(id, start, total).len() == total * 262144,
{
}

/// The 64 bytes at file offset `s * total * 64 + (n - start) * 64` are the
/// 64 bytes at offset `s * 64` of the hasher's output for nonce `n`: the
/// scoop-major transposition places every scoop of every nonce.
pub proof fn lemma_scoop_location(id: u64, start: u64, total: int, n: u64, s: int, b: int)
    requires
        1 <= total,
        start <= n < start + total,
        0 <= s < 4096,
        0 <= b < 64,
    ensures
        plot_file_bytes(id, start, total)[s * (total * 64) + (n - start) * 64 + b] == nonce_bytes(
            id,
            n,
        )[s * 64 + b],
{
    let t64 = total * 64;
    let r = (n - start) * 64 + b;
    let off = s * t64 + r;
    assert(0 <= r < t64) by (nonlinear_arith)
        requires
            r == (n - start) * 64 + b,
            0 <= n - start < total,
            0 <= b < 64,
            t64 == total * 64,
    ;
    assert(0 <= off < total * 262144) by (nonlinear_arith)
        requires
            off == s * t64 + r,
            0 <= r < t64,
            0 <= s < 4096,
            t64 == total * 64,
            1 <= total,
    ;
    lemma_fundamental_div_mod_converse(off, t64, s, r);
    lemma_fundamental_div_mod_converse(r, 64, n - start, b);
}

/// Resume determinism: a run interrupted after `p` committed nonces and then
/// resumed ends in the same bytes as one uninterrupted run — the finished
/// plot file.
pub proof fn lemma_resume_determinism(
    id: u64,
    start: u64,
    total: int,
    p: int,
    interrupted: Seq<u8>,
    resumed: Seq<u8>,
    single: Seq<u8>,
)
    requires
        1 <= total,
        0 <= p <= total,
        interrupted.len() == total * 262144,
        resumed.len() == total * 262144,
        single.len() == total * 262144,
        // the interrupted run committed nonces [0, p) from a fresh start:
        forall|off: int|
            0 <= off < total * 262144 && off % (total * 64) < p * 64 ==> interrupted[off]
                == plot_byte(id, start, total, off),
        // the resumed run rewrote nonces [p, total) and left the rest alone:
        forall|off: int|
            0 <= off < total * 262144 ==> resumed[off] == (if p * 64 <= off % (total * 64) {
                plot_byte(id, start, total, off)
            } else {
                interrupted[off]
            }),
        // one uninterrupted run wrote every nonce:
        forall|off: int|
            0 <= off < total * 262144 ==> single[off] == plot_byte(id, start, total, off),
    ensures
        resumed == single,
        resumed == plot_file_bytes(id, start, total),
{
    assert forall|off: int| 0 <= off < total * 262144 implies resumed[off] == plot_byte(
        id,
        start,
        total,
        off,
    ) by {
        lemma_mod_bound(off, total * 64);
    }
    assert(resumed =~= plot_file_bytes(id, start, total));
    assert(single =~= plot_file_bytes(id, start, total));
}

/// Whatever buffer count and chunking two complete runs of the same task
/// used — one buffer or two, interrupted or not — their outputs are
/// byte-identical.
pub proof fn lemma_run_output_unique(id: u64, start: u64, total: int, f1: Seq<u8>, f2: Seq<u8>)
    requires
        0 <= total,
        f1.len() == total * 262144,
        f2.len() == total * 262144,
        forall|off: int|
            0 <= off < total * 262144 ==> f1[off] == plot_byte(id, start, total, off),
        forall|off: int|
            0 <= off < total * 262144 ==> f2[off] == plot_byte(id, start, total, off),
    ensures
        f1 == f2,
        f1 == plot_file_bytes(id, start, total),
{
    assert(f1 =~= plot_file_bytes(id, start, total));
    assert(f2 =~= plot_file_bytes(id, start, total));
}

/// Fill the first `count` nonce slots of `buf` with the data of nonces
/// `first .. first + count`, nonce-major; bytes past the slots stay.
pub fn hash_chunk(buf: &mut Vec<u8>, id: u64, first: u64, count: usize)
    requires
        count * 262144 <= old(buf)@.len(),
        first + count <= u64::MAX,
    ensures
        final(buf)@.len() == old(buf)@.len(),
        forall|t: int| 0 <= t < count * 262144 ==> final(buf)@[t] == chunk_byte(id, first, t),
        forall|t: int|
            count * 262144 <= t < old(buf)@.len() ==> final(buf)@[t] == old(buf)@[t],
{
    let blen: usize = buf.len();
    let mut c: usize = 0;
    while c < count
        invariant
            c <= count,
            count * 262144 <= buf@.len(),
            buf@.len() == old(buf)@.len(),
            blen == buf@.len(),
            first + count <= u64::MAX,
            forall|t: int| 0 <= t < c * 262144 ==> buf@[t] == chunk_byte(id, first, t),
            forall|t: int| c * 262144 <= t < buf@.len() ==> buf@[t] == old(buf)@[t],
        decreases count - c,
    {
        proof {
            assert((c + 1) * 262144 <= count * 262144) by (nonlinear_arith)
                requires
                    c < count,
            ;
        }
        let nb = plot_nonce(id, first + c as u64);
        splice_at(buf, c * 262144, &nb);
        proof {
            assert forall|t: int| 0 <= t < (c + 1) * 262144 implies buf@[t] == chunk_byte(
                id,
                first,
                t,
            ) by {
                if c * 262144 <= t {
                    lemma_fundamental_div_mod_converse(t, 262144, c as int, t - c * 262144);
                    assert(buf@[t] == nonce_bytes(id, (first + c) as u64)[t - c * 262144]);
                }
            }
        }
        c += 1;
    }
}

/// Gather scoop `s` of each of the first `k` nonces of a nonce-major buffer,
/// in nonce order.
pub fn scoop_row(buf: &Vec<u8>, k: usize, s: usize) -> (r: Vec<u8>)
    requires
        k * 262144 <= buf@.len(),
        s < 4096,
    ensures
        r@.len() == 64 * k,
        forall|j: int|
            0 <= j < 64 * k ==> r@[j] == buf@[(j / 64) * 262144 + s * 64 + (j % 64)],
{
    let blen: usize = buf.len();
    let mut r: Vec<u8> = Vec::new();
    let mut i: usize = 0;
    while i < k
        invariant
            i <= k,
            r@.len() == 64 * i,
            k * 262144 <= buf@.len(),
            blen == buf@.len(),
            s < 4096,
            forall|j: int|
                0 <= j < 64 * i ==> r@[j] == buf@[(j / 64) * 262144 + s * 64 + (j % 64)],
        decreases k - i,
    {
        proof {
            assert(i * 262144 + 262144 <= k * 262144) by (nonlinear_arith)
                requires
                    i < k,
            ;
        }
        let mut b: usize = 0;
        while b < 64
            invariant
                b <= 64,
                i < k,
                r@.len() == 64 * i + b,
                k * 262144 <= buf@.len(),
                blen == buf@.len(),
                i * 262144 + 262144 <= k * 262144,
                s < 4096,
                forall|j: int|
                    0 <= j < 64 * i + b ==> r@[j] == buf@[(j / 64) * 262144 + s * 64 + (j % 64)],
            decreases 64 - b,
        {
            let idx: usize = i * 262144 + s * 64 + b;
            r.push(buf[idx]);
            proof {
                lemma_fundamental_div_mod_converse(64 * i + b, 64, i as int, b as int);
            }
            b += 1;
        }
        i += 1;
    }
    r
}

/// Transpose one full buffer of `k` nonces, the `p`-th through `p + k - 1`-th
/// of the range, into the file image: for each scoop `s` in ascending order,
/// the gathered row lands at offset `s * total * 64 + p * 64`.
pub fn write_chunk(
    file: &mut Vec<u8>,
    buf: &Vec<u8>,
    id: u64,
    start: u64,
    total: usize,
    p: usize,
    k: usize,
)
    requires
        old(file)@.len() == total * 262144,
        p + k <= total,
        1 <= k,
        k * 262144 <= buf@.len(),
        start + total <= u64::MAX,
        total * 262144 <= usize::MAX,
        forall|t: int| 0 <= t < k * 262144 ==> buf@[t] == chunk_byte(id, (start + p) as u64, t),
    ensures
        final(file)@.len() == total * 262144,
        forall|off: int|
            0 <= off < total * 262144 ==> final(file)@[off] == (if p * 64 <= off % (total * 64)
                < (p + k) * 64 {
                plot_byte(id, start, total as int, off)
            } else {
                old(file)@[off]
            }),
{
    let mut s: usize = 0;
    while s < 4096
        invariant
            s <= 4096,
            file@.len() == total * 262144,
            p + k <= total,
            1 <= k,
            k * 262144 <= buf@.len(),
            start + total <= u64::MAX,
            total * 262144 <= usize::MAX,
            forall|t: int|
                0 <= t < k * 262144 ==> buf@[t] == chunk_byte(id, (start + p) as u64, t),
            forall|off: int|
                0 <= off < total * 262144 ==> file@[off] == (if off / (total * 64) < s && p * 64
                    <= off % (total * 64) < (p + k) * 64 {
                    plot_byte(id, start, total as int, off)
                } else {
                    old(file)@[off]
                }),
        decreases 4096 - s,
    {
        let row = scoop_row(buf, k, s);
        proof {
            assert(s * (total * 64) + p * 64 + 64 * k <= total * 262144) by (nonlinear_arith)
                requires
                    s < 4096,
                    p + k <= total,
                    1 <= k,
            ;
        }
        let woff: usize = s * (total * 64) + p * 64;
        splice_at(file, woff, &row);
        proof {
            let t64 = total as int * 64;
            assert forall|off: int| 0 <= off < total * 262144 implies file@[off] == (if off / t64
                < s + 1 && p * 64 <= off % t64 < (p + k) * 64 {
                plot_byte(id, start, total as int, off)
            } else {
                old(file)@[off]
            }) by {
                lemma_fundamental_div_mod(off, t64);
                lemma_mod_bound(off, t64);
                let sc = off / t64;
                let r = off % t64;
                if woff <= off < woff + 64 * k {
                    // This byte was just written from the gathered row.
                    let j = off - woff;
                    lemma_fundamental_div_mod_converse(off, t64, s as int, p * 64 + j);
                    assert(sc == s && r == p * 64 + j);
                    assert(file@[off] == row@[j]);
                    let jq = j / 64;
                    let jr = j % 64;
                    lemma_fundamental_div_mod(j, 64);
                    lemma_mod_bound(j, 64);
                    assert(row@[j] == buf@[jq * 262144 + s * 64 + jr]);
                    assert(jq * 262144 + s * 64 + jr < k * 262144) by (nonlinear_arith)
                        requires
                            0 <= j < 64 * k,
                            jq == j / 64,
                            jr == j % 64,
                            j == 64 * jq + jr,
                            0 <= jr < 64,
                            s < 4096,
                    ;
                    assert(buf@[jq * 262144 + s * 64 + jr] == chunk_byte(
                        id,
                        (start + p) as u64,
                        jq * 262144 + s * 64 + jr,
                    ));
                    lemma_fundamental_div_mod_converse(
                        jq * 262144 + s * 64 + jr,
                        262144,
                        jq,
                        s * 64 + jr,
                    );
                    assert(chunk_byte(id, (start + p) as u64, jq * 262144 + s * 64 + jr)
                        == nonce_bytes(id, (start + p + jq) as u64)[s * 64 + jr]);
                    // And the same byte is what the file layout asks for here.
                    lemma_fundamental_div_mod_converse(r, 64, p + jq, jr);
                    assert(plot_byte(id, start, total as int, off) == nonce_bytes(
                        id,
                        (start + p + jq) as u64,
                    )[s * 64 + jr]);
                } else {
                    // Untouched this round: on or off the scoop-s band.
                    if sc == s && p * 64 <= r < (p + k) * 64 {
                        assert(off == t64 * sc + r);
                        assert(woff <= off < woff + 64 * k) by (nonlinear_arith)
                            requires
                                off == t64 * sc + r,
                                sc == s as int,
                                woff == s * (total as int * 64) + p * 64,
                                t64 == total as int * 64,
                                p * 64 <= r < (p + k) * 64,
                        ;
                        assert(false);
                    }
                }
            }
        }
        s += 1;
    }
    proof {
        let t64 = total as int * 64;
        assert forall|off: int| 0 <= off < total * 262144 implies #[trigger] (off / t64) < 4096 by {
            lemma_fundamental_div_mod(off, t64);
            lemma_mod_bound(off, t64);
            assert(off / t64 < 4096) by (nonlinear_arith)
                requires
                    off == t64 * (off / t64) + off % t64,
                    0 <= off % t64 < t64,
                    0 <= off < total * 262144,
                    t64 == total as int * 64,
                    1 <= total,
            ;
        }
    }
}

/// What the writer does with one full buffer: in benchmark mode it only
/// recycles the buffer — the file image stays byte-for-byte and no resume
/// progress is reported; otherwise it transposes the chunk into the image
/// and reports the advanced resume count `p + k`.
pub fn flush_chunk(
    file: &mut Vec<u8>,
    buf: &Vec<u8>,
    id: u64,
    start: u64,
    total: usize,
    p: usize,
    k: usize,
    benchmark: bool,
) -> (new_progress: Option<u64>)
    requires
        old(file)@.len() == total * 262144,
        p + k <= total,
        1 <= k,
        k * 262144 <= buf@.len(),
        start + total <= u64::MAX,
        total * 262144 <= usize::MAX,
        p + k <= u64::MAX,
        forall|t: int| 0 <= t < k * 262144 ==> buf@[t] == chunk_byte(id, (start + p) as u64, t),
    ensures
        final(file)@.len() == total * 262144,
        benchmark ==> final(file)@ == old(file)@ && new_progress is None,
        !benchmark ==> new_progress == Some((p + k) as u64) && forall|off: int|
            0 <= off < total * 262144 ==> final(file)@[off] == (if p * 64 <= off % (total * 64) < (
            p + k) * 64 {
                plot_byte(id, start, total as int, off)
            } else {
                old(file)@[off]
            }),
{
    if benchmark {
        None
    } else {
        write_chunk(file, buf, id, start, total, p, k);
        Some((p as u64) + (k as u64))
    }
}

/// Hash and transpose the not-yet-done part of the range, `nonces_per_buf`
/// nonces per buffer: what the scheduler and writer together do to the file.
/// Bytes of nonces before `progress` are left untouched.
pub fn plot_buffers(
    file: &mut Vec<u8>,
    id: u64,
    start: u64,
    total: usize,
    progress: usize,
    nonces_per_buf: usize,
)
    requires
        old(file)@.len() == total * 262144,
        progress <= total,
        1 <= total,
        1 <= nonces_per_buf,
        start + total <= u64::MAX,
        total * 262144 <= usize::MAX,
        nonces_per_buf * 262144 <= usize::MAX,
    ensures
        final(file)@.len() == total * 262144,
        forall|off: int|
            0 <= off < total * 262144 ==> final(file)@[off] == (if progress * 64 <= off % (total
                * 64) {
                plot_byte(id, start, total as int, off)
            } else {
                old(file)@[off]
            }),
{
    let mut buf: Vec<u8> = Vec::new();
    let mut z: usize = 0;
    while z < nonces_per_buf
        invariant
            z <= nonces_per_buf,
            buf@.len() == z * 262144,
            nonces_per_buf * 262144 <= usize::MAX,
        decreases nonces_per_buf - z,
    {
        proof {
            assert((z + 1) * 262144 <= nonces_per_buf * 262144) by (nonlinear_arith)
                requires
                    z < nonces_per_buf,
            ;
        }
        let mut w: usize = 0;
        while w < 262144
            invariant
                w <= 262144,
                buf@.len() == z * 262144 + w,
                z * 262144 + 262144 <= nonces_per_buf * 262144,
                nonces_per_buf * 262144 <= usize::MAX,
            decreases 262144 - w,
        {
            buf.push(0u8);
            w += 1;
        }
        z += 1;
    }
    let mut p: usize = progress;
    while p < total
        invariant
            progress <= p <= total,
            file@.len() == total * 262144,
            buf@.len() == nonces_per_buf * 262144,
            1 <= total,
            1 <= nonces_per_buf,
            start + total <= u64::MAX,
            total * 262144 <= usize::MAX,
            forall|off: int|
                0 <= off < total * 262144 ==> file@[off] == (if progress * 64 <= off % (total * 64)
                    < p * 64 {
                    plot_byte(id, start, total as int, off)
                } else {
                    old(file)@[off]
                }),
        decreases total - p,
    {
        let k: usize = if total - p < nonces_per_buf {
            total - p
        } else {
            nonces_per_buf
        };
        proof {
            assert(k * 262144 <= nonces_per_buf * 262144) by (nonlinear_arith)
                requires
                    k <= nonces_per_buf,
            ;
        }
        hash_chunk(&mut buf, id, start + p as u64, k);
        write_chunk(file, &buf, id, start, total, p, k);
        proof {
            assert forall|off: int| 0 <= off < total * 262144 implies file@[off] == (if progress
                * 64 <= off % (total as int * 64) < (p + k) * 64 {
                plot_byte(id, start, total as int, off)
            } else {
                old(file)@[off]
            }) by {
                lemma_mod_bound(off, total as int * 64);
            }
        }
        p += k;
    }
    proof {
        assert forall|off: int| 0 <= off < total * 262144 implies #[trigger] (off % (total as int
            * 64)) < total as int * 64 by {
            lemma_mod_bound(off, total as int * 64);
        }
    }
}

} // verus!
