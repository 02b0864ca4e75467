//! GPU resource limits, and the one question every tiling consumer asks: can this image be
//! handed to the device in a single dispatch, and if not, why?
//!
//! This module holds only what the device imposes. Tile sizes and safety margins are policy and
//! stay with the consumer.
use crate::caps::Limits;
use vstd::prelude::*;

verus! {

/// Why a single dispatch cannot cover a whole image.
///
/// Named rather than a bare `bool`: the two causes have different remedies.
#[derive(Debug, Clone, Copy, PartialEq, Eq, Hash, Structural)]
pub enum TilingReason {
    /// Wider or taller than `GpuLimits::max_tile_dim`: a texture dimension limit.
    TextureDimension,
    /// Does not fit one buffer binding (`GpuLimits::max_buffer_bytes`): a byte limit.
    BufferBinding,
}

/// What the device can actually accept: measurements and adapter-reported caps, never heuristics.
#[derive(Debug, Clone, Copy, PartialEq, Eq, Structural)]
pub struct GpuLimits {
    /// Largest texture dimension in either axis.
    pub max_tile_dim: u32,
    /// Largest single buffer binding, in bytes.
    ///
    /// For a wgpu consumer this is the storage buffer binding size, not the buffer size: a compute
    /// shader's storage array is capped by the former, the smaller of the two on typical adapters.
    pub max_buffer_bytes: u64,
    /// Total device memory, without any margin.
    pub total_memory: u64,
    /// Memory a consumer may plan against, after whatever margin it applies.
    pub available_memory: u64,
    /// Were these measured, or are they fallback defaults?
    pub detected: bool,
}

/// Bytes of an image of `width` by `height` pixels of `bytes_per_pixel` bytes each.
pub open spec fn shape_bytes(width: nat, height: nat, bytes_per_pixel: nat) -> nat {
    width * height * bytes_per_pixel
}

impl GpuLimits {
    /// Build from values the caller has already established.
    #[must_use]
    pub fn new(
        max_tile_dim: u32,
        max_buffer_bytes: u64,
        total_memory: u64,
        available_memory: u64,
        detected: bool,
    ) -> (r: Self)
        ensures
            r == (GpuLimits {
                max_tile_dim,
                max_buffer_bytes,
                total_memory,
                available_memory,
                detected,
            }),
    {
        GpuLimits { max_tile_dim, max_buffer_bytes, total_memory, available_memory, detected }
    }

    /// Limits for a CPU backend: no device caps, memory is whatever the host has.
    #[must_use]
    pub fn cpu(available_memory: u64) -> (r: Self)
        ensures
            r == (GpuLimits {
                max_tile_dim: u32::MAX,
                max_buffer_bytes: u64::MAX,
                total_memory: available_memory,
                available_memory,
                detected: true,
            }),
    {
        Self::new(u32::MAX, u64::MAX, available_memory, available_memory, true)
    }

    /// No limits at all, for analysis paths that must not be constrained by a real device.
    #[must_use]
    pub fn unconstrained() -> (r: Self)
        ensures
            r == (GpuLimits {
                max_tile_dim: u32::MAX,
                max_buffer_bytes: u64::MAX,
                total_memory: u64::MAX,
                available_memory: u64::MAX,
                detected: false,
            }),
    {
        Self::new(u32::MAX, u64::MAX, u64::MAX, u64::MAX, false)
    }

    /// Build from a wgpu adapter's own reported caps.
    ///
    /// `available_memory` is what remains after the caller's safety margin. The storage buffer
    /// binding size, not the buffer size, becomes `max_buffer_bytes`.
    #[must_use]
    pub fn from_wgpu_limits(limits: &Limits, total_memory: u64, available_memory: u64) -> (r: Self)
        ensures
            r == (GpuLimits {
                max_tile_dim: limits.max_texture_dimension_2d,
                max_buffer_bytes: limits.max_storage_buffer_binding_size,
                total_memory,
                available_memory,
                detected: true,
            }),
    {
        Self::new(
            limits.max_texture_dimension_2d,
            limits.max_storage_buffer_binding_size,
            total_memory,
            available_memory,
            true,
        )
    }

    /// Bytes an image of this shape occupies: the single place a shape becomes bytes.
    #[must_use]
    pub fn image_bytes(width: u32, height: u32, bytes_per_pixel: u64) -> (r: u64)
        requires
            shape_bytes(width as nat, height as nat, bytes_per_pixel as nat) <= u64::MAX,
        ensures
            r == shape_bytes(width as nat, height as nat, bytes_per_pixel as nat),
    {
        assert(width * height <= 0xffff_ffff * 0xffff_ffff) by (nonlinear_arith)
            requires
                0 <= width <= 0xffff_ffff,
                0 <= height <= 0xffff_ffff,
        ;
        let pixels: u64 = (width as u64) * (height as u64);
        pixels * bytes_per_pixel
    }

    /// Is the image wider or taller than a texture may be?
    pub open spec fn exceeds_dimension(self, width: u32, height: u32) -> bool {
        width > self.max_tile_dim || height > self.max_tile_dim
    }

    /// Is the image larger than one buffer binding may be? The largest number is no cap.
    pub open spec fn exceeds_binding(self, width: u32, height: u32, bytes_per_pixel: u64) -> bool {
        self.max_buffer_bytes < u64::MAX && shape_bytes(
            width as nat,
            height as nat,
            bytes_per_pixel as nat,
        ) > self.max_buffer_bytes
    }

    /// Why one dispatch cannot cover the whole image: the dimension first, since a caller that
    /// cannot make the image narrower cannot fix it by using less memory.
    pub open spec fn reason(
        self,
        width: u32,
        height: u32,
        bytes_per_pixel: u64,
    ) -> Option<TilingReason> {
        if self.exceeds_dimension(width, height) {
            Some(TilingReason::TextureDimension)
        } else if self.exceeds_binding(width, height, bytes_per_pixel) {
            Some(TilingReason::BufferBinding)
        } else {
            None
        }
    }

    /// Why one dispatch cannot cover the whole image; `None` when it can.
    ///
    /// Two independent caps. Free memory is deliberately not a reason: it decides tiled versus
    /// streaming, not whether one dispatch can hold the image.
    #[must_use]
    pub fn tiling_reason(&self, width: u32, height: u32, bytes_per_pixel: u64) -> (r: Option<
        TilingReason,
    >)
        ensures
            r == self.reason(width, height, bytes_per_pixel),
    {
        if width > self.max_tile_dim || height > self.max_tile_dim {
            return Some(TilingReason::TextureDimension);
        }
        assert(0 <= width * height <= 0xffff_ffff * 0xffff_ffff) by (nonlinear_arith)
            requires
                0 <= width <= 0xffff_ffff,
                0 <= height <= 0xffff_ffff,
        ;
        let pixels: u64 = (width as u64) * (height as u64);
        assert(0 <= pixels * bytes_per_pixel <= u64::MAX * u64::MAX) by (nonlinear_arith)
            requires
                0 <= pixels <= u64::MAX,
                0 <= bytes_per_pixel <= u64::MAX,
        ;
        let bytes: u128 = (pixels as u128) * (bytes_per_pixel as u128);
        if self.max_buffer_bytes < u64::MAX && bytes > self.max_buffer_bytes as u128 {
            return Some(TilingReason::BufferBinding);
        }
        None
    }

    /// Must this image be split before it can be dispatched?
    #[must_use]
    pub fn needs_tiling(&self, width: u32, height: u32, bytes_per_pixel: u64) -> (r: bool)
        ensures
            r == (self.reason(width, height, bytes_per_pixel) is Some),
    {
        self.tiling_reason(width, height, bytes_per_pixel).is_some()
    }
}

/// A device without caps never demands tiling, whatever it is asked. The limits of `GpuLimits::cpu` and `GpuLimits::unconstrained` are such.
pub proof fn law_uncapped_never_tiles(
    limits: GpuLimits,
    width: u32,
    height: u32,
    bytes_per_pixel: u64,
)
    requires
        limits.max_tile_dim == u32::MAX,
        limits.max_buffer_bytes == u64::MAX,
    ensures
        limits.reason(width, height, bytes_per_pixel) is None,
{
}

/// Free and total memory are no reason to tile: limits that agree on the two caps give the same
/// answer.
pub proof fn law_memory_is_no_reason(
    a: GpuLimits,
    b: GpuLimits,
    width: u32,
    height: u32,
    bytes_per_pixel: u64,
)
    requires
        a.max_tile_dim == b.max_tile_dim,
        a.max_buffer_bytes == b.max_buffer_bytes,
    ensures
        a.reason(width, height, bytes_per_pixel) == b.reason(width, height, bytes_per_pixel),
{
}

/// What fits in one dispatch still fits when it is made smaller in any direction.
pub proof fn law_smaller_images_still_fit(
    limits: GpuLimits,
    width: u32,
    height: u32,
    bytes_per_pixel: u64,
    w: u32,
    h: u32,
    bpp: u64,
)
    requires
        limits.reason(width, height, bytes_per_pixel) is None,
        w <= width,
        h <= height,
        bpp <= bytes_per_pixel,
    ensures
        limits.reason(w, h, bpp) is None,
{
    assert(w * h * bpp <= width * height * bytes_per_pixel) by (nonlinear_arith)
        requires
            0 <= w <= width,
            0 <= h <= height,
            0 <= bpp <= bytes_per_pixel,
    ;
}

/// An image must be split for its dimensions exactly where it is wider or taller than a texture may
/// be; else for its bytes exactly where there is a cap on a binding and they exceed it; else not.
pub proof fn law_when_and_why_to_tile(
    limits: GpuLimits,
    width: u32,
    height: u32,
    bytes_per_pixel: u64,
)
    ensures
        limits.reason(width, height, bytes_per_pixel) == Some(TilingReason::TextureDimension)
            <==> width > limits.max_tile_dim || height > limits.max_tile_dim,
        limits.reason(width, height, bytes_per_pixel) == Some(TilingReason::BufferBinding)
            <==> width <= limits.max_tile_dim && height <= limits.max_tile_dim
            && limits.max_buffer_bytes != u64::MAX && width * height * bytes_per_pixel
            > limits.max_buffer_bytes,
        shape_bytes(width as nat, height as nat, bytes_per_pixel as nat) == width * height
            * bytes_per_pixel,
{
}

} // verus!
