//! Image limits: what forces an image to be tiled.
use gpu_info::limits::{GpuLimits, TilingReason};

/// RGBA of single floats.
const RGBA_F32: u64 = 16;

#[test]
fn tiling_reason_sees_the_binding_wall_the_dimension_check_cannot() {
    let limits = GpuLimits::new(16384, 128 << 20, 24 << 30, 19 << 30, true);

    // 4K = 126.6 MiB: under a 128 MiB binding, and far under the dimension cap.
    assert_eq!(limits.tiling_reason(3840, 2160, RGBA_F32), None);

    // 8K = 506 MiB: still only 7680 px, so the dimension check alone says nothing.
    assert_eq!(limits.tiling_reason(7680, 4320, RGBA_F32), Some(TilingReason::BufferBinding));

    // And the dimensional wall still reports itself, distinctly.
    assert_eq!(limits.tiling_reason(20000, 100, RGBA_F32), Some(TilingReason::TextureDimension));
}

#[test]
fn the_dimensional_wall_is_reported_when_both_apply() {
    let limits = GpuLimits::new(1024, 1 << 20, 8 << 30, 6 << 30, true);
    assert_eq!(limits.tiling_reason(4096, 4096, RGBA_F32), Some(TilingReason::TextureDimension));
}

#[test]
fn the_unlimited_constructors_never_tile() {
    for limits in [GpuLimits::cpu(8 << 30), GpuLimits::unconstrained()] {
        assert_eq!(limits.tiling_reason(100_000, 100_000, RGBA_F32), None);
        assert!(!limits.needs_tiling(100_000, 100_000, RGBA_F32));
    }
}

#[test]
fn sizes_beyond_64_bits_are_counted() {
    let limits = GpuLimits::new(u32::MAX, 128 << 20, 8 << 30, 6 << 30, true);
    assert_eq!(limits.tiling_reason(1 << 31, 1 << 31, 4), Some(TilingReason::BufferBinding));
    assert!(limits.needs_tiling(u32::MAX, u32::MAX, u64::MAX));
    for limits in [GpuLimits::cpu(8 << 30), GpuLimits::unconstrained()] {
        assert_eq!(limits.tiling_reason(1 << 31, 1 << 31, 4), None);
        assert!(!limits.needs_tiling(u32::MAX, u32::MAX, u64::MAX));
    }
}

#[test]
fn total_means_total() {
    const TOTAL: u64 = 8 << 30;
    assert_eq!(GpuLimits::cpu(TOTAL).total_memory, TOTAL);
    assert_eq!(GpuLimits::new(0, 0, TOTAL, TOTAL / 2, true).total_memory, TOTAL);
}

#[test]
fn image_bytes_is_the_one_size_fact() {
    assert_eq!(GpuLimits::image_bytes(3840, 2160, RGBA_F32), 132_710_400);
    assert_eq!(GpuLimits::image_bytes(2, 3, 4), 24);
}

#[test]
fn memory_alone_never_tiles() {
    let poor = GpuLimits::new(16384, 128 << 20, 1, 0, true);
    let rich = GpuLimits::new(16384, 128 << 20, 24 << 30, 24 << 30, true);
    for size in [(1, 1), (3840, 2160), (7680, 4320), (20000, 1)] {
        let (w, h) = size;
        assert_eq!(poor.tiling_reason(w, h, RGBA_F32), rich.tiling_reason(w, h, RGBA_F32));
    }
}

#[test]
fn the_walls_themselves_still_fit() {
    let limits = GpuLimits::new(100, 160, 0, 0, true);
    assert_eq!(limits.tiling_reason(10, 1, RGBA_F32), None);
    assert_eq!(limits.tiling_reason(11, 1, RGBA_F32), Some(TilingReason::BufferBinding));
    assert_eq!(limits.tiling_reason(100, 1, 1), None);
    assert_eq!(limits.tiling_reason(101, 1, 1), Some(TilingReason::TextureDimension));
    assert!(limits.needs_tiling(1, 101, 1));
    assert!(!limits.needs_tiling(1, 100, 1));
}

#[test]
fn constructors_keep_what_they_are_given() {
    let g = GpuLimits::new(1, 2, 3, 4, false);
    assert_eq!(
        (g.max_tile_dim, g.max_buffer_bytes, g.total_memory, g.available_memory, g.detected),
        (1, 2, 3, 4, false)
    );
    let c = GpuLimits::cpu(7);
    assert_eq!((c.max_tile_dim, c.max_buffer_bytes, c.available_memory), (u32::MAX, u64::MAX, 7));
    let u = GpuLimits::unconstrained();
    assert_eq!((u.total_memory, u.available_memory), (u64::MAX, u64::MAX));
}
