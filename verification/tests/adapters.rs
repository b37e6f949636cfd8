use capture_encoder::adapters::stride_for;
use capture_encoder::error::EncoderError;
use capture_encoder::frame::{PixelLayout, VideoFrame, ROW_ALIGNMENT};
use capture_encoder::{bgra_frame, build_frame, nv12_frame, uyvy422_frame, yuyv422_frame};

fn ramp(len: usize) -> Vec<u8> {
    (0..len).map(|i| (i % 251) as u8 + 1).collect()
}

/// Checks that the plane holds `src` row by row, with zeros behind every row.
fn check_plane(frame: &VideoFrame, index: usize, src: &[u8], row_bytes: usize, rows: usize) {
    let plane = frame.plane(index);
    let stride = (row_bytes + 31) / 32 * 32;
    assert_eq!(plane.row_bytes(), row_bytes);
    assert_eq!(plane.rows(), rows);
    assert_eq!(plane.stride(), stride);
    assert_eq!(plane.data().len(), stride * rows);
    assert_eq!(src.len(), row_bytes * rows);
    for r in 0..rows {
        let row = &plane.data()[r * stride..(r + 1) * stride];
        assert_eq!(&row[..row_bytes], &src[r * row_bytes..(r + 1) * row_bytes]);
        assert!(row[row_bytes..].iter().all(|b| *b == 0));
    }
}

#[test]
fn stride_is_the_next_multiple_of_the_alignment() {
    assert_eq!(ROW_ALIGNMENT, 32);
    assert_eq!(stride_for(0), 0);
    assert_eq!(stride_for(1), 32);
    assert_eq!(stride_for(31), 32);
    assert_eq!(stride_for(32), 32);
    assert_eq!(stride_for(33), 64);
    assert_eq!(stride_for(5120), 5120);
    assert_eq!(stride_for(0x4_0000_0000), 0x4_0000_0000);
}

#[test]
fn layout_geometry() {
    assert_eq!(PixelLayout::Bgra.plane_count(), 1);
    assert_eq!(PixelLayout::Uyvy422.plane_count(), 1);
    assert_eq!(PixelLayout::Yuyv422.plane_count(), 1);
    assert_eq!(PixelLayout::Nv12.plane_count(), 2);
    assert_eq!(PixelLayout::Yuv420p.plane_count(), 3);
    assert_eq!(PixelLayout::Bgra.row_bytes(0, 1280), 5120);
    assert_eq!(PixelLayout::Uyvy422.row_bytes(0, 1280), 2560);
    assert_eq!(PixelLayout::Yuyv422.row_bytes(0, 1280), 2560);
    assert_eq!(PixelLayout::Nv12.row_bytes(0, 1280), 1280);
    assert_eq!(PixelLayout::Nv12.row_bytes(1, 1280), 1280);
    assert_eq!(PixelLayout::Yuv420p.row_bytes(0, 1280), 1280);
    assert_eq!(PixelLayout::Yuv420p.row_bytes(2, 1280), 640);
    assert_eq!(PixelLayout::Bgra.rows(0, 720), 720);
    assert_eq!(PixelLayout::Nv12.rows(0, 720), 720);
    assert_eq!(PixelLayout::Nv12.rows(1, 720), 360);
    assert_eq!(PixelLayout::Yuv420p.rows(1, 720), 360);
    assert!(PixelLayout::Bgra.fits(3, 5));
    assert!(PixelLayout::Uyvy422.fits(3, 5));
    assert!(PixelLayout::Nv12.fits(4, 6));
    assert!(!PixelLayout::Nv12.fits(3, 6));
    assert!(!PixelLayout::Nv12.fits(4, 5));
    assert!(!PixelLayout::Yuv420p.fits(3, 5));
    assert_eq!(PixelLayout::Bgra.row_bytes(0, u32::MAX), 4 * (u32::MAX as u64));
}

#[test]
fn bgra_rows_are_copied_into_padded_rows() {
    // 3 pixels a row: 12 bytes of data in a stride of 32.
    let src = ramp(3 * 2 * 4);
    let frame = bgra_frame(&src, 3, 2).expect("the size matches");
    assert_eq!(frame.layout(), PixelLayout::Bgra);
    assert_eq!(frame.width(), 3);
    assert_eq!(frame.height(), 2);
    assert_eq!(frame.pts(), None);
    assert_eq!(frame.plane_count(), 1);
    check_plane(&frame, 0, &src, 12, 2);
    let data = frame.plane(0).data();
    assert_eq!(data[0], src[0]);
    assert_eq!(data[11], src[11]);
    assert_eq!(data[12], 0);
    assert_eq!(data[32], src[12]);
    assert_eq!(data[43], src[23]);
}

#[test]
fn bgra_rows_that_fill_the_stride_are_contiguous() {
    let src = ramp(8 * 3 * 4);
    let frame = bgra_frame(&src, 8, 3).unwrap();
    assert_eq!(frame.plane(0).stride(), 32);
    assert_eq!(frame.plane(0).data(), &src[..]);
}

#[test]
fn bgra_buffer_one_byte_short_is_rejected() {
    let src = ramp(16 * 9 * 4 - 1);
    assert!(bgra_frame(&src, 16, 9).is_none());
    let src = ramp(1280 * 720 * 4 - 1);
    assert!(bgra_frame(&src, 1280, 720).is_none());
}

#[test]
fn bgra_buffer_of_any_other_size_is_rejected() {
    assert!(bgra_frame(&ramp(16 * 9 * 4 + 1), 16, 9).is_none());
    assert!(bgra_frame(&ramp(16 * 9 * 3), 16, 9).is_none());
    assert!(bgra_frame(&[], 16, 9).is_none());
    assert!(bgra_frame(&ramp(4), 0, 0).is_none());
    assert!(bgra_frame(&ramp(16 * 9 * 4), 9, 16).is_some());
    assert!(bgra_frame(&ramp(16 * 9 * 4), 16, 9).is_some());
}

#[test]
fn bgra_hd_frame() {
    let src = ramp(1280 * 720 * 4);
    let frame = bgra_frame(&src, 1280, 720).unwrap();
    assert_eq!(frame.plane(0).stride(), 5120);
    assert_eq!(frame.plane(0).data(), &src[..]);
}

#[test]
fn empty_image_is_a_frame_without_bytes() {
    let frame = bgra_frame(&[], 0, 0).unwrap();
    assert_eq!(frame.plane_count(), 1);
    assert_eq!(frame.plane(0).data().len(), 0);
    let frame = bgra_frame(&[], 5, 0).unwrap();
    assert_eq!(frame.plane(0).row_bytes(), 20);
    assert_eq!(frame.plane(0).stride(), 32);
    assert_eq!(frame.plane(0).rows(), 0);
    let frame = bgra_frame(&[], 0, 5).unwrap();
    assert_eq!(frame.plane(0).stride(), 0);
    assert_eq!(frame.plane(0).rows(), 5);
    assert_eq!(frame.plane(0).data().len(), 0);
}

#[test]
fn uyvy_and_yuyv_take_two_bytes_a_pixel() {
    let src = ramp(5 * 3 * 2);
    let frame = uyvy422_frame(&src, 5, 3).unwrap();
    assert_eq!(frame.layout(), PixelLayout::Uyvy422);
    assert_eq!((frame.width(), frame.height()), (5, 3));
    check_plane(&frame, 0, &src, 10, 3);
    let frame = yuyv422_frame(&src, 5, 3).unwrap();
    assert_eq!(frame.layout(), PixelLayout::Yuyv422);
    check_plane(&frame, 0, &src, 10, 3);
    assert_eq!(frame.pts(), None);
}

#[test]
fn uyvy_and_yuyv_reject_other_sizes() {
    assert!(uyvy422_frame(&ramp(5 * 3 * 2 - 1), 5, 3).is_none());
    assert!(uyvy422_frame(&ramp(5 * 3 * 2 + 1), 5, 3).is_none());
    assert!(uyvy422_frame(&ramp(5 * 3 * 4), 5, 3).is_none());
    assert!(yuyv422_frame(&ramp(5 * 3 * 2 - 1), 5, 3).is_none());
    assert!(yuyv422_frame(&ramp(5 * 3 * 2 + 1), 5, 3).is_none());
    assert!(yuyv422_frame(&[], 5, 3).is_none());
}

#[test]
fn nv12_has_a_luma_plane_and_a_chroma_plane_of_half_its_size() {
    let src = ramp(6 * 4 + 6 * 2);
    let frame = nv12_frame(&src, 6, 4).unwrap();
    assert_eq!(frame.layout(), PixelLayout::Nv12);
    assert_eq!(frame.plane_count(), 2);
    check_plane(&frame, 0, &src[..24], 6, 4);
    check_plane(&frame, 1, &src[24..], 6, 2);
    assert_eq!(frame.plane(1).data()[0], src[24]);
    assert_eq!(frame.plane(1).data()[32], src[30]);
}

#[test]
fn nv12_rejects_other_sizes_and_odd_dimensions() {
    assert!(nv12_frame(&ramp(6 * 4 + 6 * 2 - 1), 6, 4).is_none());
    assert!(nv12_frame(&ramp(6 * 4 + 6 * 2 + 1), 6, 4).is_none());
    assert!(nv12_frame(&ramp(6 * 4), 6, 4).is_none());
    assert!(nv12_frame(&ramp(5 * 4 + 10), 5, 4).is_none());
    assert!(nv12_frame(&ramp(6 * 3 + 9), 6, 3).is_none());
    assert!(nv12_frame(&ramp(3 * 3 + 4), 3, 3).is_none());
}

#[test]
fn build_frame_names_the_failure() {
    assert_eq!(
        build_frame(PixelLayout::Bgra, &ramp(15), 2, 2).err(),
        Some(EncoderError::InvalidBufferSize)
    );
    assert_eq!(
        build_frame(PixelLayout::Nv12, &ramp(13), 3, 3).err(),
        Some(EncoderError::InvalidBufferSize)
    );
    assert!(build_frame(PixelLayout::Bgra, &ramp(16), 2, 2).is_ok());
}

#[test]
fn build_frame_agrees_with_the_named_adapters() {
    let src = ramp(4 * 2 * 4);
    assert_eq!(build_frame(PixelLayout::Bgra, &src, 4, 2).ok(), bgra_frame(&src, 4, 2));
    let src = ramp(4 * 2 * 2);
    assert_eq!(build_frame(PixelLayout::Uyvy422, &src, 4, 2).ok(), uyvy422_frame(&src, 4, 2));
    assert_eq!(build_frame(PixelLayout::Yuyv422, &src, 4, 2).ok(), yuyv422_frame(&src, 4, 2));
    let src = ramp(4 * 2 * 3 / 2);
    assert_eq!(build_frame(PixelLayout::Nv12, &src, 4, 2).ok(), nv12_frame(&src, 4, 2));
}

#[test]
fn planar_420_has_three_planes() {
    let src = ramp(4 * 4 + 2 * 2 + 2 * 2);
    let frame = build_frame(PixelLayout::Yuv420p, &src, 4, 4).unwrap();
    assert_eq!(frame.plane_count(), 3);
    check_plane(&frame, 0, &src[..16], 4, 4);
    check_plane(&frame, 1, &src[16..20], 2, 2);
    check_plane(&frame, 2, &src[20..], 2, 2);
    assert!(build_frame(PixelLayout::Yuv420p, &src[..23], 4, 4).is_err());
}

#[test]
fn set_pts_changes_nothing_but_the_timestamp() {
    let src = ramp(3 * 2 * 4);
    let plain = bgra_frame(&src, 3, 2).unwrap();
    let mut stamped = plain.clone();
    stamped.set_pts(42);
    assert_eq!(stamped.pts(), Some(42));
    assert_eq!(stamped.plane(0), plain.plane(0));
    assert_eq!(stamped.layout(), plain.layout());
    assert_eq!((stamped.width(), stamped.height()), (3, 2));
    assert_ne!(stamped, plain);
    stamped.set_pts(-1);
    assert_eq!(stamped.pts(), Some(-1));
}

#[test]
fn repacked_plane_has_the_wanted_stride() {
    let src = ramp(3 * 2 * 4);
    let frame = bgra_frame(&src, 3, 2).unwrap();
    let plane = frame.plane(0);
    // Tight: the source again.
    assert_eq!(plane.repacked(12), Some(src.clone()));
    // The same stride: the plane's own bytes.
    assert_eq!(plane.repacked(32), Some(plane.data().to_vec()));
    // Wider.
    let wide = plane.repacked(16).unwrap();
    assert_eq!(wide.len(), 32);
    assert_eq!(&wide[..12], &src[..12]);
    assert_eq!(&wide[12..16], &[0, 0, 0, 0]);
    assert_eq!(&wide[16..28], &src[12..]);
    assert_eq!(&wide[28..], &[0, 0, 0, 0]);
    // Narrower than a row: no such layout.
    assert_eq!(plane.repacked(11), None);
    assert_eq!(plane.repacked(0), None);
}

#[test]
fn repacked_plane_without_rows_or_columns() {
    let frame = bgra_frame(&[], 0, 5).unwrap();
    assert_eq!(frame.plane(0).repacked(0), Some(vec![]));
    assert_eq!(frame.plane(0).repacked(4), Some(vec![0u8; 20]));
    let frame = bgra_frame(&[], 5, 0).unwrap();
    assert_eq!(frame.plane(0).repacked(20), Some(vec![]));
    assert_eq!(frame.plane(0).repacked(19), None);
}

#[test]
fn repacked_plane_that_cannot_be_addressed() {
    let frame = bgra_frame(&ramp(16), 2, 2).unwrap();
    assert_eq!(frame.plane(0).repacked(usize::MAX), None);
    assert!(frame.plane(0).clone().repacked(8).is_some());
}
