//! The sizer: reconcile the user's memory budget with free memory, sector
//! alignment, SIMD and GPU lane grouping, and single or double buffering.
//!
//! The rules are order-sensitive: subtract the GPU staging need, default a
//! zero budget to the whole plot, cap by the plot plus staging, cap by free
//! memory less a small headroom, round down to a whole number of lane-aligned
//! buffer units, and finally lift to at least one unit.

use vstd::prelude::*;
use vstd::arithmetic::div_mod::{
    lemma_fundamental_div_mod, lemma_mod_bound, lemma_div_multiples_vanish,
    lemma_mod_multiples_basic,
};
use vstd::utf8::is_ascii_chars;
use crate::error::PlotError;
use crate::plotter::PlotterTask;

verus! {

/// The byte count a memory string such as `10GiB` parses to, or nothing when
/// the string is not a number followed by a supported unit.
pub uninterp spec fn parsed_mem_bytes(s: Seq<char>) -> Option<u64>;

/// Relies on `humanize_rs::bytes::Bytes`: parsing a string of the form
/// `<number><unit>` into a byte count, a pure function of the characters.
/// The parser splits the string at a character position as if it were a byte
/// position, so a multibyte character before the unit would make it panic;
/// the budget grammar is ASCII, and only ASCII strings are admitted.
#[verifier::external_body]
fn parse_mem(s: &str) -> (r: Option<u64>)
    requires
        is_ascii_chars(s@),
    ensures
        r == parsed_mem_bytes(s@),
{
    match s.parse::<humanize_rs::bytes::Bytes<u64>>() {
        Ok(b) => Some(b.size()),
        Err(_) => None,
    }
}

/// The smaller of two integers.
pub open spec fn spec_min(a: int, b: int) -> int {
    if a <= b {
        a
    } else {
        b
    }
}

/// The larger of two integers.
pub open spec fn spec_max(a: int, b: int) -> int {
    if a >= b {
        a
    } else {
        b
    }
}

/// How many nonces one lane group holds: the sector's worth, lifted to 16
/// for GPU plotting, whose coalesced access wants 16-nonce groups.
pub open spec fn lane_nonces(gpu: bool, nonces_per_sector: u64) -> int {
    if gpu {
        spec_max(16, nonces_per_sector as int)
    } else {
        nonces_per_sector as int
    }
}

/// The rounding unit: one lane-aligned nonce group per buffer.
pub open spec fn mem_unit(async_io: bool, gpu: bool, nonces_per_sector: u64) -> int {
    (if async_io {
        2int
    } else {
        1int
    }) * 262144 * lane_nonces(gpu, nonces_per_sector)
}

/// A positive budget that cannot even hold the GPU staging area plus one
/// sector's worth of nonces is refused outright.
pub open spec fn gpu_mem_shortage(
    parsed: u64,
    nonces_per_sector: u64,
    gpu: bool,
    gpu_mem: u64,
) -> bool {
    gpu && parsed > 0 && (parsed as int) < gpu_mem + nonces_per_sector * 262144
}

/// The sizing rules, applied in order, for a budget that was not refused.
pub open spec fn sized_mem(
    parsed: u64,
    plotsize: int,
    nonces_per_sector: u64,
    gpu: bool,
    gpu_mem: u64,
    free_mem: u64,
    async_io: bool,
) -> int {
    let m1 = if gpu && parsed > 0 {
        parsed - gpu_mem
    } else {
        parsed as int
    };
    let m2 = if m1 == 0 {
        plotsize
    } else {
        m1
    };
    let m3 = spec_min(m2, plotsize + gpu_mem);
    let m4 = spec_min(m3, (free_mem - gpu_mem) * 1000 / 1024);
    let unit = mem_unit(async_io, gpu, nonces_per_sector);
    spec_max(m4 / unit * unit, unit)
}

/// Total RAM to take for the buffers of a plot of `nonces` nonces (the
/// count after any sector alignment), or why the task cannot be sized.
pub fn calculate_mem_to_use(
    task: &PlotterTask,
    nonces: u64,
    free_memory: u64,
    nonces_per_sector: u64,
    gpu: bool,
    gpu_mem_needed: u64,
) -> (r: Result<u64, PlotError>)
    requires
        is_ascii_chars(task.mem@),
        1 <= nonces_per_sector,
        nonces * 262144 <= u64::MAX,
        gpu_mem_needed <= free_memory,
        (free_memory - gpu_mem_needed) * 1000 <= u64::MAX,
        nonces * 262144 + gpu_mem_needed <= u64::MAX,
        gpu_mem_needed + nonces_per_sector * 262144 <= u64::MAX,
        2 * 262144 * lane_nonces(gpu, nonces_per_sector) <= u64::MAX,
    ensures
        match parsed_mem_bytes(task.mem@) {
            None => r == Err::<u64, PlotError>(PlotError::ConfigInvalid),
            Some(m) => if gpu_mem_shortage(m, nonces_per_sector, gpu, gpu_mem_needed) {
                r == Err::<u64, PlotError>(PlotError::HostMemInsufficient)
            } else {
                r matches Ok(v) && v as int == sized_mem(
                    m,
                    nonces * 262144,
                    nonces_per_sector,
                    gpu,
                    gpu_mem_needed,
                    free_memory,
                    task.async_io,
                )
            },
        },
        r matches Ok(v) ==> {
            let nb = if task.async_io {
                2int
            } else {
                1int
            };
            let lane_unit = 262144 * lane_nonces(gpu, nonces_per_sector);
            &&& v as int % (nb * lane_unit) == 0
            &&& (v as int / nb) % lane_unit == 0
            &&& v as int / nb >= lane_unit
        },
{
    let parsed = parse_mem(task.mem.as_str());
    let mut mem: u64 = match parsed {
        Some(m) => m,
        None => {
            return Err(PlotError::ConfigInvalid);
        },
    };
    let plotsize: u64 = nonces * 262144;
    if gpu && mem > 0 && mem < gpu_mem_needed + nonces_per_sector * 262144 {
        return Err(PlotError::HostMemInsufficient);
    }
    if gpu && mem > 0 {
        mem = mem - gpu_mem_needed;
    }
    if mem == 0 {
        mem = plotsize;
    }
    if mem > plotsize + gpu_mem_needed {
        mem = plotsize + gpu_mem_needed;
    }
    let lanes: u64 = if gpu {
        if nonces_per_sector >= 16 {
            nonces_per_sector
        } else {
            16
        }
    } else {
        nonces_per_sector
    };
    let cap: u64 = (free_memory - gpu_mem_needed) * 1000 / 1024;
    if mem > cap {
        mem = cap;
    }
    let num_buffer: u64 = if task.async_io {
        2
    } else {
        1
    };
    let unit: u64 = num_buffer * 262144 * lanes;
    proof {
        assert(unit >= 1) by (nonlinear_arith)
            requires
                unit == num_buffer * 262144 * lanes,
                num_buffer >= 1,
                lanes >= 1,
        ;
        lemma_fundamental_div_mod(mem as int, unit as int);
        lemma_mod_bound(mem as int, unit as int);
        assert((mem as int / unit as int) * unit as int <= mem as int) by (nonlinear_arith)
            requires
                mem as int == unit as int * (mem as int / unit as int) + mem as int % unit as int,
                mem as int % unit as int >= 0,
        ;
    }
    let rounded: u64 = mem / unit * unit;
    let result: u64 = if rounded < unit {
        unit
    } else {
        rounded
    };
    proof {
        let nb = if task.async_io {
            2int
        } else {
            1int
        };
        let lane_unit = 262144 * lane_nonces(gpu, nonces_per_sector);
        assert(unit as int == nb * lane_unit) by (nonlinear_arith)
            requires
                unit == num_buffer * 262144 * lanes,
                num_buffer as int == nb,
                lanes as int == lane_nonces(gpu, nonces_per_sector),
                lane_unit == 262144 * lane_nonces(gpu, nonces_per_sector),
        ;
        let q = mem as int / unit as int;
        assert(rounded as int == q * (nb * lane_unit));
        assert(rounded as int == (q * lane_unit) * nb) by (nonlinear_arith)
            requires
                rounded as int == q * (nb * lane_unit),
        ;
        lemma_div_multiples_vanish(q * lane_unit, nb);
        assert(rounded as int / nb == q * lane_unit);
        lemma_mod_multiples_basic(q * lane_unit, nb);
        assert(rounded as int % (nb * lane_unit) == 0) by (nonlinear_arith)
            requires
                rounded as int == q * (nb * lane_unit),
                nb * lane_unit > 0,
        ;
        lemma_mod_multiples_basic(q, lane_unit);
        assert((q * lane_unit) % lane_unit == 0);
        if rounded >= unit {
            assert(q >= 1) by (nonlinear_arith)
                requires
                    q * (nb * lane_unit) >= nb * lane_unit,
                    nb * lane_unit > 0,
                    q >= 0,
            ;
            assert(q * lane_unit >= lane_unit) by (nonlinear_arith)
                requires
                    q >= 1,
                    lane_unit > 0,
            ;
        } else {
            assert(unit as int == lane_unit * nb) by (nonlinear_arith)
                requires
                    unit as int == nb * lane_unit,
            ;
            lemma_div_multiples_vanish(lane_unit, nb);
            lemma_mod_multiples_basic(lane_unit, nb);
            lemma_mod_multiples_basic(1, lane_unit);
            assert(lane_unit % lane_unit == 0) by (nonlinear_arith)
                requires
                    (1int * lane_unit) % lane_unit == 0,
            ;
        }
    }
    Ok(result)
}

} // verus!
