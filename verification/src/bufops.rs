//! Small verified operations on byte vectors shared by the hasher and the
//! transpose writer: in-place splicing and big-endian integer encoding.

use vstd::prelude::*;

verus! {

/// Overwrite `dst[off .. off + src.len())` with the bytes of `src`, leaving
/// every other byte unchanged.
pub fn splice_at(dst: &mut Vec<u8>, off: usize, src: &Vec<u8>)
    requires
        off + src@.len() <= old(dst)@.len(),
    ensures
        final(dst)@.len() == old(dst)@.len(),
        forall|t: int|
            0 <= t < old(dst)@.len() ==> final(dst)@[t] == (if off <= t < off + src@.len() {
                src@[t - off]
            } else {
                old(dst)@[t]
            }),
{
    let dlen: usize = dst.len();
    let mut k: usize = 0;
    while k < src.len()
        invariant
            off + src@.len() <= dst@.len(),
            dst@.len() == old(dst)@.len(),
            dlen == dst@.len(),
            k <= src@.len(),
            forall|t: int|
                0 <= t < dst@.len() ==> dst@[t] == (if off <= t < off + k {
                    src@[t - off]
                } else {
                    old(dst)@[t]
                }),
        decreases src@.len() - k,
    {
        dst.set(off + k, src[k]);
        k += 1;
    }
}

/// The big-endian bytes of a 64-bit integer, most significant first.
pub open spec fn spec_u64_be(v: u64) -> Seq<u8> {
    seq![
        ((v >> 56) & 0xff) as u8,
        ((v >> 48) & 0xff) as u8,
        ((v >> 40) & 0xff) as u8,
        ((v >> 32) & 0xff) as u8,
        ((v >> 24) & 0xff) as u8,
        ((v >> 16) & 0xff) as u8,
        ((v >> 8) & 0xff) as u8,
        (v & 0xff) as u8,
    ]
}

/// Encode a 64-bit integer as its eight big-endian bytes.
pub fn u64_be_bytes(v: u64) -> (r: Vec<u8>)
    ensures
        r@ == spec_u64_be(v),
        r@.len() == 8,
{
    let mut r: Vec<u8> = Vec::new();
    r.push(((v >> 56) & 0xff) as u8);
    r.push(((v >> 48) & 0xff) as u8);
    r.push(((v >> 40) & 0xff) as u8);
    r.push(((v >> 32) & 0xff) as u8);
    r.push(((v >> 24) & 0xff) as u8);
    r.push(((v >> 16) & 0xff) as u8);
    r.push(((v >> 8) & 0xff) as u8);
    r.push((v & 0xff) as u8);
    proof {
        assert(r@ =~= spec_u64_be(v));
    }
    r
}

} // verus!
