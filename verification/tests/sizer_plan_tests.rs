//! The sizing rules, the run planning, the resume codec edge cases, the
//! pipeline ordering, and the small helpers.

use engraver::error::PlotError;
use engraver::pipeline::Pipeline;
use engraver::plan::plan_plot;
use engraver::plotter::{detect_simd, simd_tag, Buffer, PlotterTask};
use engraver::resume::{decode_resume, encode_resume};
use engraver::sizer::calculate_mem_to_use;

fn task(nonces: u64, mem: &str, direct_io: bool, async_io: bool, benchmark: bool) -> PlotterTask {
    PlotterTask {
        numeric_id: 1,
        start_nonce: 0,
        nonces,
        output_path: String::from("."),
        mem: String::from(mem),
        cpu_threads: 1,
        gpus: None,
        direct_io,
        async_io,
        quiet: true,
        benchmark,
        zcb: false,
    }
}

const GIB32: u64 = 32 * 1024 * 1024 * 1024;

#[test]
fn budget_is_rounded_down_to_whole_units() {
    // 10 GiB budget, plenty of plot and RAM, one buffer, one nonce per
    // sector: 10 GiB is exactly 40960 nonce units and stays as it is.
    let t = task(100_000, "10GiB", false, false, false);
    let mem = calculate_mem_to_use(&t, 100_000, GIB32, 1, false, 0);
    assert_eq!(mem, Ok(10 * 1024 * 1024 * 1024));
}

#[test]
fn tiny_budget_is_lifted_to_one_unit() {
    let t = task(1000, "1B", false, false, false);
    let mem = calculate_mem_to_use(&t, 1000, GIB32, 1, false, 0);
    assert_eq!(mem, Ok(262144));
}

#[test]
fn zero_budget_means_the_whole_plot_capped_by_free_memory() {
    // 100 nonces want 26214400 bytes and free memory is ample.
    let t = task(100, "0", false, false, false);
    let mem = calculate_mem_to_use(&t, 100, GIB32, 1, false, 0);
    assert_eq!(mem, Ok(100 * 262144));
    // With little free memory the free-RAM cap with its 1000/1024 headroom
    // bites first: 10 MiB free gives 10240000 bytes, 39 whole nonces.
    let mem = calculate_mem_to_use(&t, 100, 10 * 1024 * 1024, 1, false, 0);
    assert_eq!(mem, Ok(39 * 262144));
}

#[test]
fn double_buffering_keeps_lane_alignment() {
    // Two buffers, 64 nonces per sector: the unit is 33554432 bytes and a
    // 100 MiB budget holds three of them; each buffer gets a multiple of
    // 64 nonces.
    let t = task(100_000, "100MiB", true, true, false);
    let mem = calculate_mem_to_use(&t, 100_000, GIB32, 64, false, 0);
    assert_eq!(mem, Ok(3 * 2 * 262144 * 64));
    let per_buffer = mem.unwrap() / 2;
    assert_eq!(per_buffer % (262144 * 64), 0);
    assert!(per_buffer >= 262144 * 64);
}

#[test]
fn unparseable_budget_is_config_invalid() {
    let t = task(100, "10XB", false, false, false);
    let mem = calculate_mem_to_use(&t, 100, GIB32, 1, false, 0);
    assert_eq!(mem, Err(PlotError::ConfigInvalid));
}

#[test]
fn gpu_budget_too_small_for_staging_is_refused() {
    let mut t = task(100, "1MiB", false, false, false);
    t.gpus = Some(vec![String::from("0:0:1")]);
    let mem = calculate_mem_to_use(&t, 100, GIB32, 1, true, 512 * 1024 * 1024);
    assert_eq!(mem, Err(PlotError::HostMemInsufficient));
}

#[test]
fn direct_io_rounds_the_nonce_count_to_the_sector() {
    // 100 nonces at a 4096-byte sector: 64 nonces per sector, so the count
    // is rounded down to 64.
    let t = task(100, "1GiB", true, false, false);
    let plan = plan_plot(&t, u64::MAX / 4, 4096, GIB32, 0, false).unwrap();
    assert_eq!(plan.nonces_per_sector, 64);
    assert_eq!(plan.nonces, 64);
    assert!(plan.rounded_to_sector);
    assert_eq!(plan.plotsize, 64 * 262144);
}

#[test]
fn alignment_that_leaves_nothing_is_config_invalid() {
    let t = task(50, "1GiB", true, false, false);
    let plan = plan_plot(&t, u64::MAX / 4, 4096, GIB32, 0, false);
    assert!(matches!(plan, Err(PlotError::ConfigInvalid)));
}

#[test]
fn insufficient_disk_is_refused_unless_benchmark_or_existing() {
    let t = task(1000, "1GiB", false, false, false);
    let free_disk = 100 * 262144;
    assert!(matches!(plan_plot(&t, free_disk, 4096, GIB32, 0, false), Err(PlotError::DiskFull)));
    // An existing file is being resumed: no fresh space is needed.
    assert!(plan_plot(&t, free_disk, 4096, GIB32, 0, true).is_ok());
    // Benchmark mode writes nothing.
    let t = task(1000, "1GiB", false, false, true);
    assert!(plan_plot(&t, free_disk, 4096, GIB32, 0, false).is_ok());
}

#[test]
fn zero_nonces_fill_the_free_disk() {
    let t = task(0, "1GiB", false, false, false);
    let plan = plan_plot(&t, 1000 * 262144 + 5, 4096, GIB32, 0, false).unwrap();
    assert_eq!(plan.nonces, 1000);
    assert_eq!(plan.num_buffer, 1);
    // The budget is capped by the whole plot: one buffer of 1000 nonces.
    assert_eq!(plan.buffer_size, 1000 * 262144);
    assert_eq!(plan.nonces_per_buf, 1000);
}

#[test]
fn resume_sidecar_round_trips_and_rejects_corruption() {
    let bytes = encode_resume(0xDEAD_BEEF_0102_0304);
    assert_eq!(bytes.len(), 8);
    assert_eq!(bytes, vec![0x04, 0x03, 0x02, 0x01, 0xEF, 0xBE, 0xAD, 0xDE]);
    assert_eq!(decode_resume(Some(&bytes)), Ok(0xDEAD_BEEF_0102_0304));
    // A missing sidecar beside an existing file means already completed.
    assert_eq!(decode_resume(None), Err(PlotError::AlreadyCompleted));
    // So does a record of the wrong size.
    let short = vec![1u8, 2, 3];
    assert_eq!(decode_resume(Some(&short)), Err(PlotError::AlreadyCompleted));
}

#[test]
fn pipeline_hands_chunks_to_the_writer_in_order() {
    let mut p = Pipeline::new(2, 3);
    assert_eq!(p.dispatch(0), 0);
    assert_eq!(p.dispatch(1), 1);
    p.finish_hash(0);
    let first = p.start_write(0);
    assert_eq!(first, 0);
    p.finish_write(0);
    p.finish_hash(1);
    let second = p.start_write(1);
    assert_eq!(second, 1);
    p.finish_write(1);
    assert_eq!(p.dispatch(0), 2);
    p.finish_hash(0);
    let third = p.start_write(0);
    assert_eq!(third, 2);
    p.finish_write(0);
    assert!(first < second && second < third);
}

#[test]
fn buffers_start_filled_with_ones() {
    let b = Buffer::new(300);
    let v = b.get_buffer();
    assert_eq!(v.len(), 300);
    assert!(v.iter().all(|&x| x == 1));
}

#[test]
fn simd_tag_is_one_of_the_five() {
    let tag = detect_simd();
    assert!(["AVX512F", "AVX2", "AVX", "SSE2", ""].contains(&tag.as_str()));
}

#[test]
fn simd_tag_picks_the_widest_extension() {
    assert_eq!(simd_tag(true, true, true, true), "AVX512F");
    assert_eq!(simd_tag(false, true, true, true), "AVX2");
    assert_eq!(simd_tag(false, false, true, true), "AVX");
    assert_eq!(simd_tag(false, false, false, true), "SSE2");
    assert_eq!(simd_tag(false, false, false, false), "");
}

#[test]
fn plot_file_name_is_the_three_numbers_joined() {
    assert_eq!(
        engraver::naming::plot_file_name(4297397261279333938, 10000, 8192),
        "4297397261279333938_10000_8192"
    );
    assert_eq!(engraver::naming::plot_file_name(0, 0, 0), "0_0_0");
    assert_eq!(engraver::naming::plot_file_name(u64::MAX, 1, 10), "18446744073709551615_1_10");
}

#[test]
fn error_kinds_have_stable_names() {
    assert_eq!(PlotError::ConfigInvalid.kind_name(), "ConfigInvalid");
    assert_eq!(PlotError::DiskFull.kind_name(), "DiskFull");
    assert_eq!(PlotError::HostMemInsufficient.kind_name(), "HostMemInsufficient");
    assert_eq!(PlotError::AlreadyCompleted.kind_name(), "AlreadyCompleted");
    assert_eq!(PlotError::PathMissing.kind_name(), "PathMissing");
    assert_eq!(PlotError::IoFailed.kind_name(), "IoFailed");
    assert_eq!(PlotError::AffinityUnavailable.kind_name(), "AffinityUnavailable");
}
