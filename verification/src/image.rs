//! The canonical media-image handle: which images can be made, what crosses the host boundary, and
//! how rows lie in a staging buffer.
//!
//! The texture is always `Rgba16Float`: four channels of half floats. Here a half float is its
//! sixteen bits; hosts that speak single floats convert before an upload and after a readback.
use crate::model::TextureFormat;
use crate::number::{decimal, push_decimal};
use crate::readback::{
    map_error_label, map_error_text, poll_failure_label, poll_failure_text, ReadbackError,
};
use vstd::arithmetic::div_mod::{lemma_fundamental_div_mod, lemma_fundamental_div_mod_converse};
use vstd::prelude::*;

verus! {

/// The bits of the usages that the canonical handle is allocated with: copy source and target,
/// texture and storage binding, render attachment. Deliberately broad so one handle serves every
/// consumer.
pub const USAGE: u32 = 0x1f;

/// Bytes per texel: four channels of two bytes.
pub const BYTES_PER_PIXEL: u32 = 8;

/// Rows in a buffer that a texture is copied to start at multiples of this many bytes.
pub const ROW_ALIGNMENT: u32 = 256;

/// Errors from the allocation and host-boundary paths.
#[derive(Debug, PartialEq)]
pub enum GpuImageError {
    /// There is no adapter or device on this machine.
    NoDevice,
    /// A zero width or height was requested; an empty texture is invalid.
    ZeroSize,
    /// The requested dimensions exceed the device's `max_texture_dimension_2d`.
    TooLarge {
        /// Requested width.
        width: u32,
        /// Requested height.
        height: u32,
        /// The device limit that was exceeded.
        max: u32,
    },
    /// The host slice length did not equal `width * height * 4` (interleaved RGBA).
    PixelCount {
        /// Expected float count.
        expected: usize,
        /// Actual slice length received.
        got: usize,
    },
    /// A buffer map operation failed.
    MapFailed(String),
    /// Polling the device failed while waiting for the map to complete.
    Poll(String),
}

impl GpuImageError {
    /// How the error reads.
    pub open spec fn label(self) -> Seq<char> {
        match self {
            GpuImageError::NoDevice =>
                "no shared GPU device available (shared_device() returned None)"@,
            GpuImageError::ZeroSize => "zero-size image is invalid"@,
            GpuImageError::TooLarge { width, height, max } => "image "@ + decimal(width as nat)
                + "x"@ + decimal(height as nat) + " exceeds device max_texture_dimension_2d "@
                + decimal(max as nat),
            GpuImageError::PixelCount { expected, got } => "rgba slice length "@ + decimal(
                got as nat,
            ) + " != expected width*height*4 = "@ + decimal(expected as nat),
            GpuImageError::MapFailed(e) => "buffer map failed: "@ + e@,
            GpuImageError::Poll(e) => "device poll failed: "@ + e@,
        }
    }

    /// How the error reads.
    pub fn message(&self) -> (r: String)
        ensures
            r@ == self.label(),
    {
        match self {
            GpuImageError::NoDevice =>
                "no shared GPU device available (shared_device() returned None)".to_owned(),
            GpuImageError::ZeroSize => "zero-size image is invalid".to_owned(),
            GpuImageError::TooLarge { width, height, max } => {
                let mut s = "image ".to_owned();
                push_decimal(&mut s, *width as u64);
                s.append("x");
                push_decimal(&mut s, *height as u64);
                s.append(" exceeds device max_texture_dimension_2d ");
                push_decimal(&mut s, *max as u64);
                s
            },
            GpuImageError::PixelCount { expected, got } => {
                let mut s = "rgba slice length ".to_owned();
                push_decimal(&mut s, *got as u64);
                s.append(" != expected width*height*4 = ");
                push_decimal(&mut s, *expected as u64);
                s
            },
            GpuImageError::MapFailed(e) => {
                let mut s = "buffer map failed: ".to_owned();
                s.append(e.as_str());
                s
            },
            GpuImageError::Poll(e) => {
                let mut s = "device poll failed: ".to_owned();
                s.append(e.as_str());
                s
            },
        }
    }
}

/// The error of a readback whose wait failed with `e`.
pub fn read_error(e: ReadbackError) -> (r: GpuImageError)
    ensures
        match e {
            ReadbackError::Poll(p) => r matches GpuImageError::Poll(s) && s@
                == poll_failure_label(p),
            ReadbackError::MapFailed => r matches GpuImageError::MapFailed(s) && s@
                == map_error_label(),
            ReadbackError::Dropped => r matches GpuImageError::MapFailed(s) && s@
                == "map callback channel closed"@,
        },
{
    match e {
        ReadbackError::Poll(p) => GpuImageError::Poll(poll_failure_text(p)),
        ReadbackError::MapFailed => GpuImageError::MapFailed(map_error_text()),
        ReadbackError::Dropped => GpuImageError::MapFailed("map callback channel closed".to_owned()),
    }
}

// ---------------------------------------------------------------------------
// The handle
// ---------------------------------------------------------------------------

/// The canonical media-image handle around a texture `T`.
#[derive(Debug)]
pub struct GpuImage<T> {
    tex: T,
    width: u32,
    height: u32,
}

impl<T> GpuImage<T> {
    /// The texture.
    pub closed spec fn spec_texture(self) -> T {
        self.tex
    }

    /// Width and height in texels.
    pub closed spec fn size(self) -> (u32, u32) {
        (self.width, self.height)
    }

    /// Wrap a texture without copying. `width` and `height` are recorded as they are.
    #[must_use]
    pub fn adopt(tex: T, width: u32, height: u32) -> (r: Self)
        ensures
            r.spec_texture() == tex,
            r.size() == (width, height),
    {
        GpuImage { tex, width, height }
    }

    /// Borrow the underlying texture.
    #[must_use]
    pub fn texture(&self) -> (r: &T)
        ensures
            *r == self.spec_texture(),
    {
        &self.tex
    }

    /// Image width in texels.
    #[must_use]
    pub fn width(&self) -> (r: u32)
        ensures
            r == self.size().0,
    {
        self.width
    }

    /// Image height in texels.
    #[must_use]
    pub fn height(&self) -> (r: u32)
        ensures
            r == self.size().1,
    {
        self.height
    }

    /// The texel format: always `Rgba16Float`.
    #[must_use]
    pub fn format(&self) -> (r: TextureFormat)
        ensures
            r == TextureFormat::Rgba16Float,
    {
        TextureFormat::Rgba16Float
    }
}

// ---------------------------------------------------------------------------
// Making and filling
// ---------------------------------------------------------------------------

/// Why an image of this size cannot be made on a device with textures up to `max`, if it cannot.
pub open spec fn size_error(width: u32, height: u32, max: u32) -> Option<GpuImageError> {
    if width == 0 || height == 0 {
        Some(GpuImageError::ZeroSize)
    } else if width > max || height > max {
        Some(GpuImageError::TooLarge { width, height, max })
    } else {
        None
    }
}

/// Reject zero and over-limit dimensions before touching the GPU.
pub fn validate_dims(width: u32, height: u32, max: u32) -> (r: Result<(), GpuImageError>)
    ensures
        match r {
            Ok(_) => size_error(width, height, max) is None,
            Err(e) => size_error(width, height, max) == Some(e),
        },
{
    if width == 0 || height == 0 {
        return Err(GpuImageError::ZeroSize);
    }
    if width > max || height > max {
        return Err(GpuImageError::TooLarge { width, height, max });
    }
    Ok(())
}

/// Checks a request for an empty image against the shared device: `device` is its
/// `max_texture_dimension_2d`, none where there is no device.
pub fn check_new(device: Option<u32>, width: u32, height: u32) -> (r: Result<(), GpuImageError>)
    ensures
        match (device, r) {
            (None, _) => r == Err::<(), GpuImageError>(GpuImageError::NoDevice),
            (Some(max), Ok(_)) => size_error(width, height, max) is None,
            (Some(max), Err(e)) => size_error(width, height, max) == Some(e),
        },
{
    match device {
        None => Err(GpuImageError::NoDevice),
        Some(max) => validate_dims(width, height, max),
    }
}

/// The number of channel values of an image.
pub open spec fn value_count(width: u32, height: u32) -> nat {
    width as nat * height as nat * 4
}

/// Why `got` values cannot be uploaded as an image of this size, if they cannot. An image whose
/// values cannot be counted, or whose rows have no stride of 32 bits, is too large.
pub open spec fn upload_error(
    device: Option<u32>,
    width: u32,
    height: u32,
    got: usize,
) -> Option<GpuImageError> {
    match device {
        None => Some(GpuImageError::NoDevice),
        Some(max) => if size_error(width, height, max) is Some {
            size_error(width, height, max)
        } else if value_count(width, height) > usize::MAX {
            Some(GpuImageError::TooLarge { width, height, max })
        } else if got != value_count(width, height) {
            Some(GpuImageError::PixelCount { expected: value_count(width, height) as usize, got })
        } else if width * BYTES_PER_PIXEL > u32::MAX {
            Some(GpuImageError::TooLarge { width, height, max })
        } else {
            None
        },
    }
}

/// Checks an upload of `got` values and gives the row stride in bytes. A write from the host has
/// no row alignment, so rows are packed tightly.
pub fn check_upload(device: Option<u32>, width: u32, height: u32, got: usize) -> (r: Result<
    u32,
    GpuImageError,
>)
    ensures
        match r {
            Ok(stride) => upload_error(device, width, height, got) is None && stride == width
                * BYTES_PER_PIXEL,
            Err(e) => upload_error(device, width, height, got) == Some(e),
        },
{
    let max = match device {
        None => return Err(GpuImageError::NoDevice),
        Some(max) => max,
    };
    if width == 0 || height == 0 {
        return Err(GpuImageError::ZeroSize);
    }
    if width > max || height > max {
        return Err(GpuImageError::TooLarge { width, height, max });
    }
    assert(0 <= width * height <= 0xffff_ffff * 0xffff_ffff) by (nonlinear_arith)
        requires
            0 <= width <= 0xffff_ffff,
            0 <= height <= 0xffff_ffff,
    ;
    let pixels: u64 = width as u64 * height as u64;
    let values: u128 = pixels as u128 * 4;
    if values > usize::MAX as u128 {
        return Err(GpuImageError::TooLarge { width, height, max });
    }
    let expected: usize = values as usize;
    if got != expected {
        return Err(GpuImageError::PixelCount { expected, got });
    }
    match width.checked_mul(BYTES_PER_PIXEL) {
        Some(stride) => Ok(stride),
        None => Err(GpuImageError::TooLarge { width, height, max }),
    }
}

/// The low byte of sixteen bits.
pub open spec fn low_byte(h: u16) -> u8 {
    (h % 256) as u8
}

/// The high byte of sixteen bits.
pub open spec fn high_byte(h: u16) -> u8 {
    (h / 256) as u8
}

/// The bytes of `halves` in memory order: low byte first where `little`, else high byte first.
pub open spec fn half_bytes(halves: Seq<u16>, little: bool) -> Seq<u8> {
    Seq::new(
        halves.len() * 2,
        |i: int|
            if (i % 2 == 0) == little {
                low_byte(halves[i / 2])
            } else {
                high_byte(halves[i / 2])
            },
    )
}

/// The bytes of `halves` in memory order, as a texture write takes them.
pub fn pack_halves(halves: &Vec<u16>, little: bool) -> (r: Vec<u8>)
    ensures
        r@ == half_bytes(halves@, little),
{
    let mut r: Vec<u8> = Vec::new();
    let mut i: usize = 0;
    while i < halves.len()
        invariant
            i <= halves@.len(),
            r@.len() == 2 * i,
            forall|k: int| 0 <= k < 2 * i ==> #[trigger] r@[k] == half_bytes(halves@, little)[k],
        decreases halves@.len() - i,
    {
        let low = (halves[i] % 256) as u8;
        let high = (halves[i] / 256) as u8;
        if little {
            r.push(low);
            r.push(high);
        } else {
            r.push(high);
            r.push(low);
        }
        i = i + 1;
    }
    assert(r@ =~= half_bytes(halves@, little));
    r
}

// ---------------------------------------------------------------------------
// Reading back
// ---------------------------------------------------------------------------

/// The stride of rows of `width` texels in a staging buffer: the row's bytes, rounded up to the
/// row alignment.
pub open spec fn padded_row(width: u32) -> nat {
    ((width * BYTES_PER_PIXEL + ROW_ALIGNMENT - 1) / ROW_ALIGNMENT as int * ROW_ALIGNMENT) as nat
}

/// How an image lies in a staging buffer.
#[derive(Debug, Clone, Copy, PartialEq, Eq, Structural)]
pub struct Staging {
    /// Bytes of one row.
    pub unpadded: u32,
    /// Stride of the rows.
    pub padded: u32,
    /// Bytes of the buffer.
    pub size: u64,
}

/// Does a row of `width` texels have a stride of 32 bits, as a copy to a buffer takes it?
pub open spec fn row_fits(width: u32) -> bool {
    padded_row(width) <= u32::MAX
}

/// Is this how an image lies in a staging buffer?
pub open spec fn is_layout(s: Staging, width: u32, height: u32) -> bool {
    &&& s.unpadded == width * BYTES_PER_PIXEL
    &&& s.padded == padded_row(width)
    &&& s.size == padded_row(width) * height
}

/// The stride of rows of `width` texels in a staging buffer.
fn stride_of(width: u32) -> (r: u64)
    ensures
        r == padded_row(width),
        width * BYTES_PER_PIXEL <= r,
{
    let bytes: u64 = BYTES_PER_PIXEL as u64;
    let alignment: u64 = ROW_ALIGNMENT as u64;
    assert(bytes == 8 && alignment == 256);
    assert(0 <= width * bytes <= 0xffff_ffff * 8) by (nonlinear_arith)
        requires
            0 <= width <= 0xffff_ffff,
            bytes == 8,
    ;
    let unpadded: u64 = width as u64 * bytes;
    let blocks: u64 = (unpadded + (alignment - 1)) / alignment;
    blocks * alignment
}

/// The staging buffer for an image; none where a row is too long for one.
pub fn staging(width: u32, height: u32) -> (r: Option<Staging>)
    ensures
        match r {
            Some(s) => row_fits(width) && is_layout(s, width, height),
            None => !row_fits(width),
        },
{
    let stride = stride_of(width);
    if stride > u32::MAX as u64 {
        return None;
    }
    assert(0 <= stride * height <= u64::MAX) by (nonlinear_arith)
        requires
            0 <= stride <= u32::MAX,
            0 <= height <= u32::MAX,
    ;
    Some(
        Staging {
            unpadded: width * BYTES_PER_PIXEL,
            padded: stride as u32,
            size: stride * height as u64,
        },
    )
}

/// Checks a readback and gives the staging buffer to copy to: `device` is the shared device's
/// `max_texture_dimension_2d`, none where there is no device. A recorded width whose rows no
/// staging buffer can hold is too large.
pub fn check_read(device: Option<u32>, width: u32, height: u32) -> (r: Result<
    Staging,
    GpuImageError,
>)
    ensures
        match (device, r) {
            (None, _) => r == Err::<Staging, GpuImageError>(GpuImageError::NoDevice),
            (Some(_), Ok(s)) => row_fits(width) && is_layout(s, width, height),
            (Some(max), Err(e)) => !row_fits(width) && e == (GpuImageError::TooLarge {
                width,
                height,
                max,
            }),
        },
{
    match device {
        None => Err(GpuImageError::NoDevice),
        Some(max) => match staging(width, height) {
            Some(s) => Ok(s),
            None => Err(GpuImageError::TooLarge { width, height, max }),
        },
    }
}

/// The half float whose bytes stand at `at`.
pub open spec fn half_at(data: Seq<u8>, at: int, little: bool) -> u16 {
    if little {
        (data[at] + 256 * data[at + 1]) as u16
    } else {
        (data[at + 1] + 256 * data[at]) as u16
    }
}

/// Where value `k` of an image stands in its staging buffer.
pub open spec fn staged_at(width: u32, k: int) -> int {
    k / (width * 4) * padded_row(width) + k % (width * 4) * 2
}

/// The values of an image that lies in a staging buffer.
pub open spec fn staged_values(data: Seq<u8>, width: u32, height: u32, little: bool) -> Seq<u16> {
    Seq::new(value_count(width, height), |k: int| half_at(data, staged_at(width, k), little))
}

proof fn lemma_row(width: u32, height: u32, y: int, x: int)
    requires
        0 <= y < height,
        0 <= x < width * 4,
    ensures
        staged_at(width, y * (width * 4) + x) == y * padded_row(width) + x * 2,
        y * (width * 4) + x < value_count(width, height),
        0 <= y * padded_row(width) + x * 2,
        y * padded_row(width) + x * 2 + 1 < padded_row(width) * height,
{
    let w4 = width * 4;
    let p = padded_row(width) as int;
    lemma_fundamental_div_mod_converse(y * w4 + x, w4, y, x);
    assert(p >= width * 8);
    assert(y * w4 + x < width as nat * height as nat * 4) by (nonlinear_arith)
        requires
            0 <= y < height,
            0 <= x < w4,
            w4 == width * 4,
    ;
    assert(0 <= y * p) by (nonlinear_arith)
        requires
            0 <= y,
            0 <= p,
    ;
    assert(y * p + x * 2 + 1 < p * height) by (nonlinear_arith)
        requires
            0 <= y < height,
            0 <= x < w4,
            w4 == width * 4,
            p >= width * 8,
    ;
}

/// The half floats of an image that lies in a staging buffer: rows without their padding. None
/// where the buffer has not the image's size.
pub fn unpad_rows(data: &[u8], width: u32, height: u32, little: bool) -> (r: Option<Vec<u16>>)
    ensures
        match r {
            Some(v) => data@.len() == padded_row(width) * height && v@ == staged_values(
                data@,
                width,
                height,
                little,
            ),
            None => data@.len() != padded_row(width) * height,
        },
{
    let n: usize = data.len();
    let stride = stride_of(width);
    assert(0 <= stride * height <= u64::MAX * u64::MAX) by (nonlinear_arith)
        requires
            0 <= stride <= u64::MAX,
            0 <= height <= u64::MAX,
    ;
    if n as u128 != stride as u128 * height as u128 {
        return None;
    }
    let ghost p = padded_row(width) as int;
    if height == 0 {
        let r: Vec<u16> = Vec::new();
        assert(value_count(width, height) == 0) by (nonlinear_arith)
            requires
                height == 0,
                value_count(width, height) == width as nat * height as nat * 4,
        ;
        assert(r@ =~= staged_values(data@, width, height, little));
        return Some(r);
    }
    assert(stride <= n) by (nonlinear_arith)
        requires
            n == stride * height,
            height >= 1,
            stride >= 0,
    ;
    let padded: usize = stride as usize;
    let row_values: usize = width as usize * 4;
    let mut r: Vec<u16> = Vec::new();
    let mut y: u32 = 0;
    let mut row_start: usize = 0;
    assert(0 * (width * 4) == 0);
    while y < height
        invariant
            y <= height,
            row_values == width * 4,
            p == padded_row(width),
            padded == p,
            n == data@.len() == p * height,
            row_start == y * p,
            r@.len() == y * (width * 4),
            forall|k: int|
                0 <= k < r@.len() ==> #[trigger] r@[k] == half_at(
                    data@,
                    staged_at(width, k),
                    little,
                ),
        decreases height - y,
    {
        let mut x: usize = 0;
        while x < row_values
            invariant
                x <= row_values,
                y < height,
                row_values == width * 4,
                p == padded_row(width),
                n == data@.len() == p * height,
                row_start == y * p,
                r@.len() == y * (width * 4) + x,
                forall|k: int|
                    0 <= k < r@.len() ==> #[trigger] r@[k] == half_at(
                        data@,
                        staged_at(width, k),
                        little,
                    ),
            decreases row_values - x,
        {
            proof {
                lemma_row(width, height, y as int, x as int);
            }
            let at: usize = row_start + x * 2;
            let a: u16 = data[at] as u16;
            let b: u16 = data[at + 1] as u16;
            let h: u16 = if little {
                a + 256 * b
            } else {
                b + 256 * a
            };
            r.push(h);
            x = x + 1;
        }
        assert((y + 1) * (width * 4) == y * (width * 4) + width * 4) by (nonlinear_arith);
        assert((y + 1) * p == y * p + p) by (nonlinear_arith);
        assert((y + 1) * p <= p * height) by (nonlinear_arith)
            requires
                y + 1 <= height,
                0 <= p,
        ;
        y = y + 1;
        row_start = row_start + padded;
    }
    assert(height * (width * 4) == value_count(width, height)) by (nonlinear_arith)
        requires
            value_count(width, height) == width as nat * height as nat * 4,
    ;
    assert(r@ =~= staged_values(data@, width, height, little));
    Some(r)
}

/// Does the staging buffer `data` hold an image whose rows, tightly packed, are `bytes`? This is
/// what copying a texture to a buffer leaves there.
pub open spec fn is_staged(data: Seq<u8>, bytes: Seq<u8>, width: u32, height: u32) -> bool {
    &&& data.len() == padded_row(width) * height
    &&& bytes.len() == value_count(width, height) * 2
    &&& forall|y: int, c: int|
        0 <= y < height && 0 <= c < width * BYTES_PER_PIXEL ==> data[#[trigger] staged_byte(
            width,
            y,
            c,
        )] == bytes[y * (width * BYTES_PER_PIXEL) + c]
}

/// Where byte `c` of row `y` stands in a staging buffer.
pub open spec fn staged_byte(width: u32, y: int, c: int) -> int {
    y * padded_row(width) + c
}

/// A readback returns what was uploaded: where the staging buffer holds the packed image, the
/// values that come out are those that went in, whatever the memory order.
pub proof fn law_readback_returns_upload(
    halves: Seq<u16>,
    data: Seq<u8>,
    width: u32,
    height: u32,
    little: bool,
)
    requires
        halves.len() == value_count(width, height),
        is_staged(data, half_bytes(halves, little), width, height),
    ensures
        staged_values(data, width, height, little) == halves,
{
    let out = staged_values(data, width, height, little);
    let bytes = half_bytes(halves, little);
    assert forall|k: int| 0 <= k < halves.len() implies out[k] == halves[k] by {
        let w4 = width * 4;
        assert(w4 > 0) by (nonlinear_arith)
            requires
                0 <= k < width as nat * height as nat * 4,
                w4 == width * 4,
        ;
        let y = k / w4;
        let x = k % w4;
        lemma_fundamental_div_mod(k, w4);
        assert(0 <= y < height) by (nonlinear_arith)
            requires
                0 <= k < width as nat * height as nat * 4,
                w4 == width * 4,
                w4 > 0,
                k == w4 * y + x,
                0 <= x < w4,
        ;
        assert(data[staged_byte(width, y, 2 * x)] == bytes[y * (width * BYTES_PER_PIXEL) + 2 * x]);
        assert(data[staged_byte(width, y, 2 * x + 1)] == bytes[y * (width * BYTES_PER_PIXEL) + (2
            * x + 1)]);
        assert(y * (width * BYTES_PER_PIXEL) + 2 * x == 2 * k) by (nonlinear_arith)
            requires
                k == w4 * y + x,
                w4 == width * 4,
                BYTES_PER_PIXEL == 8,
        ;
        assert(bytes[2 * k] == if little {
            low_byte(halves[k])
        } else {
            high_byte(halves[k])
        });
        assert(bytes[2 * k + 1] == if little {
            high_byte(halves[k])
        } else {
            low_byte(halves[k])
        });
        assert(staged_at(width, k) == staged_byte(width, y, 2 * x));
    }
    assert(out =~= halves);
}

/// Rows of a staging buffer start where the device wants them and hold the whole row, and no row
/// is padded by as much as the alignment.
pub proof fn law_rows_are_aligned(width: u32)
    ensures
        padded_row(width) % ROW_ALIGNMENT as nat == 0,
        width * BYTES_PER_PIXEL <= padded_row(width) < width * BYTES_PER_PIXEL + ROW_ALIGNMENT,
{
}

/// A size is good where both sides are at least one and at most the device's limit; else the error
/// tells which: an empty side first.
pub proof fn law_sizes(width: u32, height: u32, max: u32)
    ensures
        size_error(width, height, max) is None <==> 1 <= width <= max && 1 <= height <= max,
        size_error(width, height, max) == Some(GpuImageError::ZeroSize) <==> width == 0 || height
            == 0,
        size_error(width, height, max) == Some(GpuImageError::TooLarge { width, height, max })
            <==> width > 0 && height > 0 && (width > max || height > max),
{
}

/// An upload is good where there is a device, the size is good, there are four values for each
/// texel, and a row's bytes can be counted in 32 bits; each error comes on its own inputs.
pub proof fn law_uploads(device: Option<u32>, width: u32, height: u32, got: usize)
    ensures
        upload_error(device, width, height, got) is None <==> device is Some && 1 <= width
            <= device->0 && 1 <= height <= device->0 && got == width * height * 4 && width * 8
            <= u32::MAX,
        upload_error(device, width, height, got) == Some(GpuImageError::NoDevice) <==> device
            is None,
        upload_error(device, width, height, got) == Some(GpuImageError::ZeroSize) <==> device is Some
            && (width == 0 || height == 0),
        device is Some && 1 <= width <= device->0 && 1 <= height <= device->0 && width * height * 4
            <= usize::MAX && got != width * height * 4 ==> upload_error(device, width, height, got)
            == Some(
            GpuImageError::PixelCount { expected: (width * height * 4) as usize, got },
        ),
        device is Some && width > 0 && height > 0 && (width > device->0 || height > device->0)
            ==> upload_error(device, width, height, got) == Some(
            GpuImageError::TooLarge { width, height, max: device->0 },
        ),
        value_count(width, height) == width * height * 4,
{
    assert(width as nat * height as nat * 4 == width * height * 4);
}

/// A value more is two bytes more, which read in memory order give the value.
pub proof fn law_bytes_of_values(halves: Seq<u16>, h: u16, little: bool)
    ensures
        ({
            let before = half_bytes(halves, little);
            let more = half_bytes(halves.push(h), little);
            let first = more[2 * halves.len() as int];
            let second = more[(2 * halves.len() + 1) as int];
            &&& more.len() == before.len() + 2
            &&& before.len() == 2 * halves.len()
            &&& more.take(before.len() as int) == before
            &&& little ==> first + 256 * second == h
            &&& !little ==> second + 256 * first == h
        }),
{
    let before = half_bytes(halves, little);
    let more = half_bytes(halves.push(h), little);
    assert(more.take(before.len() as int) =~= before);
}

/// The values that come out of a staging buffer, row by row: value `x` of row `y` is what the two
/// bytes at that place of the row give.
pub proof fn law_values_of_rows(
    data: Seq<u8>,
    width: u32,
    height: u32,
    little: bool,
    y: int,
    x: int,
)
    requires
        data.len() == padded_row(width) * height,
        0 <= y < height,
        0 <= x < width * 4,
    ensures
        staged_values(data, width, height, little).len() == width * height * 4,
        0 <= y * (width * 4) + x < width * height * 4,
        ({
            let value = staged_values(data, width, height, little)[y * (width * 4) + x];
            let at = y * padded_row(width) + 2 * x;
            &&& 0 <= at < data.len() - 1
            &&& little ==> value == data[at] + 256 * data[at + 1]
            &&& !little ==> value == data[at + 1] + 256 * data[at]
        }),
{
    lemma_row(width, height, y, x);
    assert(y * (width * 4) + x >= 0) by (nonlinear_arith)
        requires
            0 <= y,
            0 <= x,
            width >= 0,
    ;
    assert(width as nat * height as nat * 4 == width * height * 4);
}

/// A row takes eight bytes for each texel, and rows start at the least multiples of 256 that leave
/// room for it; the buffer holds one row for each row of the image.
pub proof fn law_layouts(s: Staging, width: u32, height: u32)
    requires
        is_layout(s, width, height),
    ensures
        s.unpadded == width * 8,
        s.padded % 256 == 0,
        width * 8 <= s.padded < width * 8 + 256,
        s.size == s.padded * height,
        padded_row(width) == s.padded,
{
    law_rows_are_aligned(width);
}

/// What each error says.
pub proof fn law_messages(width: u32, height: u32, max: u32, expected: usize, got: usize, e: String)
    ensures
        GpuImageError::NoDevice.label()
            == "no shared GPU device available (shared_device() returned None)"@,
        GpuImageError::ZeroSize.label() == "zero-size image is invalid"@,
        (GpuImageError::TooLarge { width, height, max }).label() == "image "@ + decimal(
            width as nat,
        ) + "x"@ + decimal(height as nat) + " exceeds device max_texture_dimension_2d "@ + decimal(
            max as nat,
        ),
        (GpuImageError::PixelCount { expected, got }).label() == "rgba slice length "@ + decimal(
            got as nat,
        ) + " != expected width*height*4 = "@ + decimal(expected as nat),
        GpuImageError::MapFailed(e).label() == "buffer map failed: "@ + e@,
        GpuImageError::Poll(e).label() == "device poll failed: "@ + e@,
{
}

/// A row has a stride of 32 bits up to this many texels and for no more.
pub proof fn law_longest_row(width: u32)
    ensures
        row_fits(width) <==> width <= 536_870_880,
{
}

} // verus!
