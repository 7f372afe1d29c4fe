//! The task description, the loaned buffers, the orchestrator, and SIMD
//! feature detection.

use vstd::prelude::*;
use vstd::arithmetic::div_mod::lemma_mod_bound;
use vstd::string::StringExecFns;
use crate::layout::{hash_chunk, chunk_byte, plot_buffers, plot_byte, plot_file_bytes};

verus! {

/// One plotting job, immutable after validation.
pub struct PlotterTask {
    /// Account the plot belongs to.
    pub numeric_id: u64,
    /// First nonce of the range.
    pub start_nonce: u64,
    /// Number of nonces; zero asks to fill the free disk space.
    pub nonces: u64,
    /// Directory the plot file goes into.
    pub output_path: String,
    /// Memory budget, a number with a unit such as `10GiB`.
    pub mem: String,
    /// Number of hashing workers.
    pub cpu_threads: u8,
    /// GPU device descriptors, if GPU plotting is asked for.
    pub gpus: Option<Vec<String>>,
    /// Bypass the page cache; forces sector alignment.
    pub direct_io: bool,
    /// Double-buffer so hashing and writing overlap.
    pub async_io: bool,
    /// Suppress terminal output.
    pub quiet: bool,
    /// Hash only; write nothing to disk.
    pub benchmark: bool,
    /// Keep the full GPU staging reservation (zero-copy buffers).
    pub zcb: bool,
}

/// A fixed-size byte region loaned whole: writable while the hasher holds it,
/// read-only while the writer drains it.
pub struct Buffer {
    data: Vec<u8>,
}

impl View for Buffer {
    type V = Seq<u8>;

    closed spec fn view(&self) -> Seq<u8> {
        self.data@
    }
}

impl Buffer {
    /// A fresh buffer of `buffer_size` bytes, each set to one so the pages
    /// are physically backed before hashing starts.
    pub fn new(buffer_size: usize) -> (r: Buffer)
        ensures
            r@.len() == buffer_size,
            forall|t: int| 0 <= t < buffer_size ==> r@[t] == 1u8,
    {
        let mut data: Vec<u8> = Vec::new();
        let mut z: usize = 0;
        while z < buffer_size
            invariant
                z <= buffer_size,
                data@.len() == z,
                forall|t: int| 0 <= t < z ==> data@[t] == 1u8,
            decreases buffer_size - z,
        {
            data.push(1u8);
            z += 1;
        }
        Buffer { data }
    }

    /// Read access to the held bytes.
    pub fn get_buffer(&self) -> (r: &Vec<u8>)
        ensures
            r@ == self@,
    {
        &self.data
    }

    /// Hash nonces `first .. first + count` into the first `count` slots,
    /// nonce-major; the bytes past the slots stay.
    pub fn fill_chunk(&mut self, id: u64, first: u64, count: usize)
        requires
            count * 262144 <= old(self)@.len(),
            first + count <= u64::MAX,
        ensures
            final(self)@.len() == old(self)@.len(),
            forall|t: int| 0 <= t < count * 262144 ==> final(self)@[t] == chunk_byte(id, first, t),
            forall|t: int|
                count * 262144 <= t < old(self)@.len() ==> final(self)@[t] == old(self)@[t],
    {
        hash_chunk(&mut self.data, id, first, count);
    }
}

/// The orchestrator: owns nothing, drives a task end to end.
pub struct Plotter {}

impl Plotter {
    /// A plotter ready to take a task.
    pub fn new() -> Plotter {
        Plotter {}
    }

    /// Run the whole hash-transpose pipeline into one in-memory image: the
    /// benchmark-style run, and the reference for what any run must put on
    /// disk. `nonces_per_buf` is how many nonces one buffer holds; the final
    /// chunk may be shorter.
    pub fn plot_to_memory(
        &self,
        id: u64,
        start_nonce: u64,
        nonces: usize,
        nonces_per_buf: usize,
    ) -> (r: Vec<u8>)
        requires
            1 <= nonces,
            1 <= nonces_per_buf,
            start_nonce + nonces <= u64::MAX,
            nonces * 262144 <= usize::MAX,
            nonces_per_buf * 262144 <= usize::MAX,
        ensures
            r@ == plot_file_bytes(id, start_nonce, nonces as int),
            r@.len() == nonces * 262144,
    {
        let mut file: Vec<u8> = Vec::new();
        let size: usize = nonces * 262144;
        let mut z: usize = 0;
        while z < size
            invariant
                z <= size,
                file@.len() == z,
            decreases size - z,
        {
            file.push(0u8);
            z += 1;
        }
        plot_buffers(&mut file, id, start_nonce, nonces, 0, nonces_per_buf);
        proof {
            assert forall|off: int| 0 <= off < nonces * 262144 implies file@[off] == plot_byte(
                id,
                start_nonce,
                nonces as int,
                off,
            ) by {
                lemma_mod_bound(off, nonces as int * 64);
            }
            assert(file@ =~= plot_file_bytes(id, start_nonce, nonces as int));
        }
        file
    }
}

/// Which SIMD tag the five hashing paths are picked by, widest first.
pub open spec fn simd_tag_spec(avx512f: bool, avx2: bool, avx: bool, sse2: bool) -> Seq<char> {
    if avx512f {
        "AVX512F"@
    } else if avx2 {
        "AVX2"@
    } else if avx {
        "AVX"@
    } else if sse2 {
        "SSE2"@
    } else {
        ""@
    }
}

/// Pick the widest instruction-set tag among the detected features.
pub fn simd_tag(avx512f: bool, avx2: bool, avx: bool, sse2: bool) -> (r: String)
    ensures
        r@ == simd_tag_spec(avx512f, avx2, avx, sse2),
{
    if avx512f {
        String::from_str("AVX512F")
    } else if avx2 {
        String::from_str("AVX2")
    } else if avx {
        String::from_str("AVX")
    } else if sse2 {
        String::from_str("SSE2")
    } else {
        String::from_str("")
    }
}

/// Relies on `raw_cpuid::CpuId`: leaf 1 carries the SSE2 and AVX bits, leaf 7
/// the AVX2 and AVX512F bits. The answer depends on the machine alone, so
/// nothing is promised of the four flags.
#[verifier::external_body]
fn cpu_simd_flags() -> (r: (bool, bool, bool, bool)) {
    let cpuid = raw_cpuid::CpuId::new();
    let (mut avx512f, mut avx2, mut avx, mut sse2) = (false, false, false, false);
    if let Some(i) = cpuid.get_feature_info() {
        sse2 = i.has_sse2();
        avx = i.has_avx();
    }
    if let Some(i) = cpuid.get_extended_feature_info() {
        avx2 = i.has_avx2();
        avx512f = i.has_avx512f();
    }
    (avx512f, avx2, avx, sse2)
}

/// Detect the widest SIMD extension the CPU offers, as the tag that selects
/// one of the five hashing paths; the empty tag selects the scalar path.
pub fn detect_simd() -> (r: String)
    ensures
        r@ == "AVX512F"@ || r@ == "AVX2"@ || r@ == "AVX"@ || r@ == "SSE2"@ || r@ == ""@,
{
    let (avx512f, avx2, avx, sse2) = cpu_simd_flags();
    simd_tag(avx512f, avx2, avx, sse2)
}

} // verus!
