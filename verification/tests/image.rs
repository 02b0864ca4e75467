//! Images at the host boundary.
use gpu_info::image::{
    check_new, check_read, check_upload, pack_halves, read_error, staging, unpad_rows,
    validate_dims, GpuImage, GpuImageError, BYTES_PER_PIXEL, ROW_ALIGNMENT, USAGE,
};
use gpu_info::model::TextureFormat;
use gpu_info::readback::{MapEvent, MapSlot, PollFailure, ReadbackError};

/// Does this machine put the low byte first?
fn little() -> bool {
    1u16.to_ne_bytes()[0] == 1
}

/// A staging buffer as copying a texture of these bytes leaves it.
fn stage(bytes: &[u8], width: u32, height: u32) -> Vec<u8> {
    let s = staging(width, height).unwrap();
    let mut data = vec![0xaa_u8; s.size as usize];
    for y in 0..height as usize {
        let row = s.unpadded as usize;
        let at = y * s.padded as usize;
        data[at..at + row].copy_from_slice(&bytes[y * row..(y + 1) * row]);
    }
    data
}

#[test]
fn constants_are_wgpus() {
    assert_eq!(ROW_ALIGNMENT, wgpu::COPY_BYTES_PER_ROW_ALIGNMENT);
    let usage = wgpu::TextureUsages::TEXTURE_BINDING
        | wgpu::TextureUsages::STORAGE_BINDING
        | wgpu::TextureUsages::COPY_SRC
        | wgpu::TextureUsages::COPY_DST
        | wgpu::TextureUsages::RENDER_ATTACHMENT;
    assert_eq!(USAGE, usage.bits());
    assert_eq!(
        wgpu::TextureFormat::Rgba16Float.block_copy_size(None),
        Some(BYTES_PER_PIXEL)
    );
}

#[test]
fn halves_are_packed_as_they_lie_in_memory() {
    let halves: Vec<u16> = vec![0, 1, 0x3c00, 0xff00, 0x00ff, 0xffff];
    assert_eq!(pack_halves(&halves, little()), bytemuck::cast_slice::<u16, u8>(&halves).to_vec());
    assert_eq!(pack_halves(&vec![0x1234], true), vec![0x34, 0x12]);
    assert_eq!(pack_halves(&vec![0x1234], false), vec![0x12, 0x34]);
}

#[test]
fn a_staged_image_reads_back_within_half_precision() {
    let (w, h) = (17u32, 13u32);
    let n = (w * h * 4) as usize;
    let src: Vec<f32> = (0..n).map(|i| (i % 101) as f32 / 100.0).collect();
    let halves: Vec<u16> = src.iter().map(|&v| half::f16::from_f32(v).to_bits()).collect();
    for order in [true, false] {
        let data = stage(&pack_halves(&halves, order), w, h);
        assert_eq!(unpad_rows(&data[1..], w, h, order), None);
        let back = unpad_rows(&data, w, h, order).unwrap();
        assert_eq!(back, halves);
        let worst = src
            .iter()
            .zip(back.iter())
            .map(|(a, b)| (a - half::f16::from_bits(*b).to_f32()).abs())
            .fold(0.0f32, f32::max);
        assert!(worst < 1e-3);
    }
}

#[test]
fn rows_are_padded_to_the_alignment() {
    let at = |w: u32, h: u32| staging(w, h).unwrap();
    assert_eq!((at(17, 13).unpadded, at(17, 13).padded), (136, 256));
    assert_eq!(at(17, 13).size, 256 * 13);
    assert_eq!((at(32, 1).unpadded, at(32, 1).padded), (256, 256));
    assert_eq!((at(33, 2).unpadded, at(33, 2).padded), (264, 512));
    assert_eq!(at(0, 5).size, 0);
    assert_eq!(unpad_rows(&[], 0, 5, true), Some(vec![]));
    assert_eq!(unpad_rows(&[], u32::MAX, 0, true), Some(vec![]));
    assert_eq!(unpad_rows(&[], u32::MAX, 1, true), None);
}

#[test]
fn sizes_are_validated_before_the_device_is_touched() {
    assert_eq!(validate_dims(1, 1, 1), Ok(()));
    assert_eq!(validate_dims(0, 1, 8), Err(GpuImageError::ZeroSize));
    assert_eq!(validate_dims(1, 0, 8), Err(GpuImageError::ZeroSize));
    let too_large = GpuImageError::TooLarge { width: 9, height: 8, max: 8 };
    assert_eq!(validate_dims(9, 8, 8), Err(too_large));
    assert_eq!(
        validate_dims(8, 9, 8),
        Err(GpuImageError::TooLarge { width: 8, height: 9, max: 8 })
    );
    assert_eq!(check_new(None, 0, 0), Err(GpuImageError::NoDevice));
    assert_eq!(check_new(Some(8), 8, 8), Ok(()));
    assert_eq!(check_new(Some(8), 0, 8), Err(GpuImageError::ZeroSize));
}

#[test]
fn an_upload_must_have_every_value() {
    assert_eq!(check_upload(Some(16), 2, 3, 24), Ok(16));
    assert_eq!(
        check_upload(Some(16), 2, 3, 23),
        Err(GpuImageError::PixelCount { expected: 24, got: 23 })
    );
    assert_eq!(check_upload(None, 2, 3, 24), Err(GpuImageError::NoDevice));
    assert_eq!(check_upload(Some(16), 0, 3, 0), Err(GpuImageError::ZeroSize));
    assert!(matches!(check_upload(Some(2), 2, 3, 24), Err(GpuImageError::TooLarge { .. })));
    assert_eq!(
        check_upload(Some(u32::MAX), 1 << 30, 1, 7),
        Err(GpuImageError::PixelCount { expected: 1 << 32, got: 7 })
    );
}

#[test]
fn an_upload_that_cannot_be_counted_or_laid_out_is_too_large() {
    let max = u32::MAX;
    assert_eq!(
        check_upload(Some(max), max, max, 7),
        Err(GpuImageError::TooLarge { width: max, height: max, max })
    );
    let width = 1 << 29;
    assert_eq!(
        check_upload(Some(max), width, 1, 1 << 31),
        Err(GpuImageError::TooLarge { width, height: 1, max })
    );
    assert_eq!(check_upload(Some(max), width - 1, 1, (1 << 31) - 4), Ok(u32::MAX - 7));
}

#[test]
fn a_readback_needs_a_device() {
    assert_eq!(check_read(None, 4, 4), Err(GpuImageError::NoDevice));
    assert_eq!(check_read(Some(16), 4, 4).ok(), staging(4, 4));
    assert_eq!(check_read(None, u32::MAX, 4), Err(GpuImageError::NoDevice));
}

#[test]
fn a_row_that_no_staging_buffer_holds_is_too_large() {
    let widest = (u32::MAX - ROW_ALIGNMENT + 1) / BYTES_PER_PIXEL;
    assert_eq!(staging(widest, 1).unwrap().padded, u32::MAX - ROW_ALIGNMENT + 1);
    for width in [widest + 1, 1 << 29, u32::MAX] {
        assert_eq!(staging(width, 1), None);
        assert_eq!(
            check_read(Some(16384), width, 1),
            Err(GpuImageError::TooLarge { width, height: 1, max: 16384 })
        );
    }
}

#[test]
fn an_adopted_texture_keeps_its_size() {
    let img = GpuImage::adopt("texture", 8, 4);
    assert_eq!((img.width(), img.height()), (8, 4));
    assert_eq!(img.format(), TextureFormat::Rgba16Float);
    assert_eq!(*img.texture(), "texture");
}

#[test]
fn image_errors_say_what_is_wrong() {
    assert_eq!(
        GpuImageError::NoDevice.message(),
        "no shared GPU device available (shared_device() returned None)"
    );
    assert_eq!(GpuImageError::ZeroSize.message(), "zero-size image is invalid");
    assert_eq!(
        GpuImageError::TooLarge { width: 9, height: 10, max: 8 }.message(),
        "image 9x10 exceeds device max_texture_dimension_2d 8"
    );
    assert_eq!(
        GpuImageError::PixelCount { expected: 24, got: 23 }.message(),
        "rgba slice length 23 != expected width*height*4 = 24"
    );
    assert_eq!(GpuImageError::MapFailed("x".into()).message(), "buffer map failed: x");
    assert_eq!(GpuImageError::Poll("y".into()).message(), "device poll failed: y");
}

#[test]
fn readback_errors_become_image_errors() {
    assert_eq!(
        read_error(ReadbackError::MapFailed),
        GpuImageError::MapFailed(wgpu::BufferAsyncError.to_string())
    );
    assert_eq!(
        read_error(ReadbackError::Dropped),
        GpuImageError::MapFailed("map callback channel closed".into())
    );
    assert_eq!(
        read_error(ReadbackError::Poll(PollFailure::Timeout)),
        GpuImageError::Poll(wgpu::PollError::Timeout.to_string())
    );
}

#[test]
fn readback_errors_say_what_wgpu_says() {
    let index = ReadbackError::Poll(PollFailure::WrongSubmissionIndex(7, 5));
    assert_eq!(
        index.message(),
        format!("device poll failed: {}", wgpu::PollError::WrongSubmissionIndex(7, 5))
    );
    assert_eq!(
        index.message(),
        "device poll failed: Tried to wait using a submission index (7) that has not been returned by a successful submission (last successful submission: 5"
    );
    assert_eq!(
        ReadbackError::Poll(PollFailure::Timeout).message(),
        "device poll failed: The requested Wait timed out before the submission was completed."
    );
    assert_eq!(
        ReadbackError::MapFailed.message(),
        "buffer map failed: Error occurred when trying to async map a buffer"
    );
    assert_eq!(ReadbackError::Dropped.message(), "buffer map callback dropped without running");
}

#[test]
fn dropped_callback_reports_dropped() {
    let mut slot = MapSlot::new();
    slot.finish(MapEvent::Dropped);
    assert!(matches!(slot.take(), Some(Err(ReadbackError::Dropped))));
}

#[test]
fn the_first_outcome_stays() {
    let mut slot = MapSlot::new();
    assert_eq!(slot.take(), None);
    slot.finish(MapEvent::Mapped);
    slot.finish(MapEvent::Dropped);
    assert_eq!(slot.take(), Some(Ok(())));
    assert_eq!(slot.take(), None);
    slot.finish(MapEvent::Failed);
    assert_eq!(slot.map_read_step(Ok(())), Some(Err(ReadbackError::MapFailed)));
}

#[test]
fn a_failed_poll_ends_the_wait() {
    let mut slot = MapSlot::new();
    assert_eq!(slot.map_read_step(Ok(())), None);
    assert_eq!(
        slot.map_read_step(Err(PollFailure::Timeout)),
        Some(Err(ReadbackError::Poll(PollFailure::Timeout)))
    );
    slot.finish(MapEvent::Mapped);
    assert_eq!(slot.map_read_step(Ok(())), Some(Ok(())));
}
