use pixel_stream::capture::{
    compact_indexed_rgba8, copy_bgra_into_frame, strip_row_padding, tightly_packed_rgba, ReadbackPixelFormat,
};

#[test]
fn indexed_rgba8_readback_compacts_red_channel() {
    let pixels = vec![3, 255, 0, 255, 17, 0, 0, 255, 89, 255, 0, 255, 241, 0, 0, 255];

    assert_eq!(compact_indexed_rgba8(&pixels, 2, 2), vec![3, 17, 89, 241]);
}

#[test]
fn compaction_stops_at_the_pixels_present() {
    assert_eq!(compact_indexed_rgba8(&[9, 0, 0, 0, 8, 0, 0], 4, 4), vec![9]);
    assert_eq!(compact_indexed_rgba8(&[9, 0, 0, 0, 8, 0, 0, 0], 1, 1), vec![9]);
}

#[test]
fn row_padding_is_removed() {
    let data = [1, 2, 0, 0, 3, 4, 0, 0, 5, 6];
    assert_eq!(strip_row_padding(&data, 4, 2, 3), vec![1, 2, 3, 4, 5, 6]);
    assert_eq!(strip_row_padding(&data, 4, 2, 2), vec![1, 2, 3, 4]);
    assert_eq!(strip_row_padding(&data, 4, 3, 3), vec![1, 2, 0, 3, 4, 0, 5, 6]);
}

#[test]
fn strided_rows_are_packed_and_copied_back() {
    let frame = [1, 2, 3, 4, 99, 5, 6, 7, 8, 99];
    let packed = tightly_packed_rgba(&frame, 5, 1, 2);
    assert_eq!(packed, vec![1, 2, 3, 4, 5, 6, 7, 8]);
    let mut target = [0u8; 10];
    copy_bgra_into_frame(&packed, &mut target, 5, 1, 2);
    assert_eq!(target, [1, 2, 3, 4, 0, 5, 6, 7, 8, 0]);
}

#[test]
fn readback_rows_are_four_bytes_per_pixel() {
    assert_eq!(ReadbackPixelFormat::Bgra.row_bytes(10), 40);
    assert_eq!(ReadbackPixelFormat::IndexedRgba8.row_bytes(3), 12);
    assert!(ReadbackPixelFormat::Bgra.is_bgra());
    assert!(!ReadbackPixelFormat::IndexedRgba8.is_bgra());
}
