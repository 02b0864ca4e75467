//! GPU information: capability reports, the limits and features that a device should be asked
//! for, the one shared device of a process, live and static video memory, live counters, and the
//! displays' color profiles.
//!
//! The library holds what is decided and computed. It takes what wgpu, the driver or the operating
//! system said as plain values and gives plain values back; whoever talks to them does nothing
//! else. Every function states what it returns, and the statements are proved.
pub mod caps;
pub mod cli;
pub mod compare;
pub mod diff;
pub mod displays;
pub mod flags;
pub mod image;
pub mod json;
pub mod limits;
pub mod model;
pub mod names;
pub mod narrow;
pub mod number;
pub mod paths;
pub mod pin;
pub mod pretty;
pub mod readback;
pub mod shared;
pub mod shared_vk;
pub mod stats;
pub mod text;
pub mod vram;
pub mod wide;

pub use image::{GpuImage, GpuImageError};
pub use limits::{GpuLimits, TilingReason};
pub use model::{
    query_backends, AdapterReport, DownlevelReport, GpuReport, TextureFormatReport,
};
pub use pretty::adapter_summary;
pub use shared::{recommended_limits, request_max_device, supported_sample_counts};
pub use vram::{vram_budget_bytes, VramInfo};
