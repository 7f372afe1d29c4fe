//! The scoop-major layout, resume determinism, benchmark mode, and the
//! independence of the output from the buffer count.

use engraver::hasher::plot_nonce;
use engraver::layout::{flush_chunk, plot_buffers, write_chunk};
use engraver::plotter::{Buffer, Plotter};
use engraver::resume::{decode_resume, encode_resume};

#[test]
fn file_length_and_scoop_placement() {
    let id = 7u64;
    let start = 5u64;
    let total = 2usize;
    let plotter = Plotter::new();
    let file = plotter.plot_to_memory(id, start, total, 2);
    assert_eq!(file.len(), total * 262144);
    for n in start..start + total as u64 {
        let nd = plot_nonce(id, n);
        for &s in &[0usize, 1, 2047, 4095] {
            let off = s * total * 64 + (n - start) as usize * 64;
            assert_eq!(&file[off..off + 64], &nd[s * 64..s * 64 + 64]);
        }
    }
}

#[test]
fn resume_after_interruption_matches_single_run() {
    let id = 12345u64;
    let start = 0u64;
    let total = 8usize;

    // Uninterrupted run, one buffer of eight nonces.
    let plotter = Plotter::new();
    let single = plotter.plot_to_memory(id, start, total, 8);

    // A run with four-nonce buffers, killed after the first flushed buffer.
    let mut file = vec![0u8; total * 262144];
    let mut buffer = Buffer::new(4 * 262144);
    buffer.fill_chunk(id, start, 4);
    let progress = flush_chunk(&mut file, buffer.get_buffer(), id, start, total, 0, 4, false);
    assert_eq!(progress, Some(4));
    let sidecar = encode_resume(4);

    // Restart: read the sidecar back and plot only what is left.
    let resumed_from = decode_resume(Some(&sidecar)).unwrap();
    assert_eq!(resumed_from, 4);
    plot_buffers(&mut file, id, start, total, resumed_from as usize, 4);

    assert_eq!(file, single);
}

#[test]
fn buffer_count_does_not_change_the_file() {
    let id = 99u64;
    let start = 1000u64;
    let total = 4usize;
    let plotter = Plotter::new();
    // Single buffering: one buffer the size of the whole range.
    let sync_io = plotter.plot_to_memory(id, start, total, 4);
    // Double buffering halves each buffer: two-nonce chunks.
    let async_io = plotter.plot_to_memory(id, start, total, 2);
    // And a lane-sized buffer: one nonce at a time.
    let tiny = plotter.plot_to_memory(id, start, total, 1);
    assert_eq!(sync_io, async_io);
    assert_eq!(sync_io, tiny);
}

#[test]
fn single_nonce_plot_is_that_nonce() {
    // With one nonce the scoop-major file is the nonce's own bytes: each
    // scoop block holds exactly its scoop.
    let plotter = Plotter::new();
    let file = plotter.plot_to_memory(77, 3, 1, 1);
    assert_eq!(file, plot_nonce(77, 3));
}

#[test]
fn benchmark_mode_leaves_file_and_resume_untouched() {
    let id = 3u64;
    let start = 0u64;
    let total = 1usize;
    let mut buffer = Buffer::new(262144);
    buffer.fill_chunk(id, start, 1);

    let mut file = vec![0xAAu8; 262144];
    let before = file.clone();
    let progress = flush_chunk(&mut file, buffer.get_buffer(), id, start, total, 0, 1, true);
    assert_eq!(progress, None);
    assert_eq!(file, before);

    // The same flush outside benchmark mode does write and does advance.
    let progress = flush_chunk(&mut file, buffer.get_buffer(), id, start, total, 0, 1, false);
    assert_eq!(progress, Some(1));
    assert_ne!(file, before);
}

#[test]
fn writer_places_chunk_at_its_offsets() {
    let id = 42u64;
    let start = 17u64;
    let total = 3usize;
    // Write only the middle chunk (one nonce at p = 1) into a fresh image.
    let mut buffer = Buffer::new(262144);
    buffer.fill_chunk(id, start + 1, 1);
    let mut file = vec![0u8; total * 262144];
    write_chunk(&mut file, buffer.get_buffer(), id, start, total, 1, 1);
    let nd = plot_nonce(id, start + 1);
    for &s in &[0usize, 1, 4095] {
        let off = s * total * 64 + 64;
        assert_eq!(&file[off..off + 64], &nd[s * 64..s * 64 + 64]);
        // The neighbouring nonce slots of the same scoop stay zero.
        assert_eq!(&file[off - 64..off], &[0u8; 64]);
        assert_eq!(&file[off + 64..off + 128], &[0u8; 64]);
    }
}
