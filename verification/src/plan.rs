//! Run planning: everything the orchestrator decides before a thread spawns.
//!
//! From the task and the platform's answers — free disk, sector size, free
//! memory, GPU staging need, whether the file exists — the plan fixes the
//! nonce count (filling the disk when none was asked for, aligning down to
//! the sector for direct I/O), the plot size, and the buffer geometry.

use vstd::prelude::*;
use vstd::arithmetic::div_mod::{
    lemma_fundamental_div_mod, lemma_mod_bound, lemma_div_is_ordered, lemma_div_multiples_vanish,
};
use crate::error::PlotError;
use crate::plotter::PlotterTask;
use crate::sizer::{
    calculate_mem_to_use, gpu_mem_shortage, lane_nonces, parsed_mem_bytes, sized_mem,
};

verus! {

/// The geometry of one run, fixed before any work starts.
pub struct PlotPlan {
    /// Nonce count actually plotted, after disk filling and alignment.
    pub nonces: u64,
    /// Final file length in bytes.
    pub plotsize: u64,
    /// Nonces per device sector (1 when direct I/O is off).
    pub nonces_per_sector: u64,
    /// Whether the requested count was rounded down to the sector.
    pub rounded_to_sector: bool,
    /// Total RAM taken for buffers.
    pub mem: u64,
    /// One buffer, or two for overlapped hashing and writing.
    pub num_buffer: u64,
    /// Bytes in each buffer.
    pub buffer_size: u64,
    /// Whole nonces one buffer holds.
    pub nonces_per_buf: u64,
}

/// Nonces per sector: the sector's scoops under direct I/O, else one.
pub open spec fn spec_nps(direct_io: bool, sector_size: u64) -> int {
    if direct_io {
        sector_size as int / 64
    } else {
        1
    }
}

/// The requested count, or as many nonces as the free disk holds when the
/// request was zero.
pub open spec fn spec_base_nonces(requested: u64, free_disk: u64) -> int {
    if requested == 0 {
        free_disk as int / 262144
    } else {
        requested as int
    }
}

/// The base count aligned down to whole sectors under direct I/O.
pub open spec fn spec_aligned_nonces(direct_io: bool, base: int, nps: int) -> int {
    if direct_io {
        base / nps * nps
    } else {
        base
    }
}

/// The nonce count a task will actually plot — the requested count, or the
/// free disk's worth when none was requested, aligned down to whole sectors
/// under direct I/O. The plot file's name carries this count, so it is fixed
/// before the file is looked for.
pub fn plan_nonce_count(task: &PlotterTask, free_disk: u64, sector_size: u64) -> (r: Result<
    u64,
    PlotError,
>)
    requires
        task.direct_io ==> sector_size >= 64 && sector_size % 64 == 0,
    ensures
        ({
            let base = spec_base_nonces(task.nonces, free_disk);
            let nps = spec_nps(task.direct_io, sector_size);
            let n1 = spec_aligned_nonces(task.direct_io, base, nps);
            if n1 == 0 {
                r == Err::<u64, PlotError>(PlotError::ConfigInvalid)
            } else {
                r matches Ok(n) && n == n1
            }
        }),
{
    let n0: u64 = if task.nonces == 0 {
        free_disk / 262144
    } else {
        task.nonces
    };
    let mut nonces: u64 = n0;
    if task.direct_io {
        let nps: u64 = sector_size / 64;
        if nonces % nps > 0 {
            proof {
                lemma_fundamental_div_mod(nonces as int, nps as int);
                lemma_mod_bound(nonces as int, nps as int);
                assert((nonces as int / nps as int) * nps as int <= nonces as int)
                    by (nonlinear_arith)
                    requires
                        nonces as int == nps as int * (nonces as int / nps as int) + nonces as int
                            % nps as int,
                        nonces as int % nps as int >= 0,
                ;
            }
            nonces = nonces / nps * nps;
        } else {
            proof {
                lemma_fundamental_div_mod(n0 as int, nps as int);
                assert(n0 as int / nps as int * nps as int == n0 as int) by (nonlinear_arith)
                    requires
                        n0 as int == nps as int * (n0 as int / nps as int),
                ;
            }
        }
    }
    if nonces == 0 {
        Err(PlotError::ConfigInvalid)
    } else {
        Ok(nonces)
    }
}

/// Decide the whole geometry of a run, or why it cannot start.
pub fn plan_plot(
    task: &PlotterTask,
    free_disk: u64,
    sector_size: u64,
    free_memory: u64,
    gpu_mem_needed: u64,
    file_exists: bool,
) -> (r: Result<PlotPlan, PlotError>)
    requires
        vstd::utf8::is_ascii_chars(task.mem@),
        task.direct_io ==> sector_size >= 64 && sector_size % 64 == 0,
        task.nonces > 0 ==> task.nonces * 262144 + gpu_mem_needed <= u64::MAX,
        task.nonces == 0 ==> free_disk + gpu_mem_needed <= u64::MAX,
        gpu_mem_needed <= free_memory,
        (free_memory - gpu_mem_needed) * 1000 <= u64::MAX,
        gpu_mem_needed + spec_nps(task.direct_io, sector_size) * 262144 <= u64::MAX,
        2 * 262144 * lane_nonces(task.gpus is Some, (if task.direct_io {
            sector_size / 64
        } else {
            1u64
        })) <= u64::MAX,
    ensures
        ({
            let base = spec_base_nonces(task.nonces, free_disk);
            let nps = spec_nps(task.direct_io, sector_size);
            let n1 = spec_aligned_nonces(task.direct_io, base, nps);
            let gpu = task.gpus is Some;
            let npsu = (if task.direct_io {
                sector_size / 64
            } else {
                1u64
            });
            let skip_disk_check = file_exists || task.benchmark;
            &&& (n1 == 0 ==> r == Err::<PlotPlan, PlotError>(PlotError::ConfigInvalid))
            &&& (n1 > 0 && free_disk < n1 * 262144 && !skip_disk_check ==> r == Err::<
                PlotPlan,
                PlotError,
            >(PlotError::DiskFull))
            &&& (n1 > 0 && (free_disk >= n1 * 262144 || skip_disk_check)
                ==> match parsed_mem_bytes(task.mem@) {
                None => r == Err::<PlotPlan, PlotError>(PlotError::ConfigInvalid),
                Some(m) => if gpu_mem_shortage(m, npsu, gpu, gpu_mem_needed) {
                    r == Err::<PlotPlan, PlotError>(PlotError::HostMemInsufficient)
                } else {
                    let mem = sized_mem(
                        m,
                        n1 * 262144,
                        npsu,
                        gpu,
                        gpu_mem_needed,
                        free_memory,
                        task.async_io,
                    );
                    let nb = if task.async_io {
                        2int
                    } else {
                        1int
                    };
                    &&& r matches Ok(pl)
                    &&& pl.nonces == n1
                    &&& pl.plotsize == n1 * 262144
                    &&& pl.nonces_per_sector == nps
                    &&& pl.rounded_to_sector == (task.direct_io && base % nps != 0)
                    &&& pl.mem == mem
                    &&& pl.num_buffer == nb
                    &&& pl.buffer_size == mem / nb
                    &&& pl.nonces_per_buf == mem / nb / 262144
                    &&& pl.nonces_per_buf >= 1
                    &&& pl.buffer_size >= 262144
                },
            })
        }),
{
    let n0: u64 = if task.nonces == 0 {
        free_disk / 262144
    } else {
        task.nonces
    };
    proof {
        if task.nonces == 0 {
            lemma_fundamental_div_mod(free_disk as int, 262144);
            lemma_mod_bound(free_disk as int, 262144);
        }
    }
    let gpu: bool = task.gpus.is_some();
    let mut nps: u64 = 1;
    let mut nonces: u64 = n0;
    let mut rounded: bool = false;
    if task.direct_io {
        nps = sector_size / 64;
        if nonces % nps > 0 {
            rounded = true;
            proof {
                lemma_fundamental_div_mod(nonces as int, nps as int);
                lemma_mod_bound(nonces as int, nps as int);
                assert((nonces as int / nps as int) * nps as int <= nonces as int)
                    by (nonlinear_arith)
                    requires
                        nonces as int == nps as int * (nonces as int / nps as int) + nonces as int
                            % nps as int,
                        nonces as int % nps as int >= 0,
                ;
            }
            nonces = nonces / nps * nps;
        } else {
            proof {
                lemma_fundamental_div_mod(n0 as int, nps as int);
                assert(n0 as int / nps as int * nps as int == n0 as int) by (nonlinear_arith)
                    requires
                        n0 as int == nps as int * (n0 as int / nps as int),
                ;
            }
        }
    }
    if nonces == 0 {
        return Err(PlotError::ConfigInvalid);
    }
    proof {
        assert(nonces <= n0);
        assert(n0 as int * 262144 + gpu_mem_needed <= u64::MAX);
        assert(nonces as int * 262144 + gpu_mem_needed <= u64::MAX) by (nonlinear_arith)
            requires
                nonces <= n0,
                n0 as int * 262144 + gpu_mem_needed <= u64::MAX,
                gpu_mem_needed >= 0,
        ;
    }
    let plotsize: u64 = nonces * 262144;
    if free_disk < plotsize && !file_exists && !task.benchmark {
        return Err(PlotError::DiskFull);
    }
    let mem: u64 = match calculate_mem_to_use(
        task,
        nonces,
        free_memory,
        nps,
        gpu,
        gpu_mem_needed,
    ) {
        Ok(m) => m,
        Err(e) => {
            return Err(e);
        },
    };
    let num_buffer: u64 = if task.async_io {
        2
    } else {
        1
    };
    let buffer_size: u64 = mem / num_buffer;
    let nonces_per_buf: u64 = buffer_size / 262144;
    proof {
        let lane_unit = 262144 * lane_nonces(gpu, nps);
        assert(lane_unit >= 262144) by (nonlinear_arith)
            requires
                lane_nonces(gpu, nps) >= 1,
                lane_unit == 262144 * lane_nonces(gpu, nps),
        ;
        assert(buffer_size as int >= lane_unit);
        lemma_div_is_ordered(262144, buffer_size as int, 262144);
        lemma_div_multiples_vanish(1, 262144);
    }
    Ok(
        PlotPlan {
            nonces,
            plotsize,
            nonces_per_sector: nps,
            rounded_to_sector: rounded,
            mem,
            num_buffer,
            buffer_size,
            nonces_per_buf,
        },
    )
}

} // verus!
