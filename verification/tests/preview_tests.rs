use pixel_stream::gpu_layout::{
    lookup_texture_height, next_available_readback_entity, output_image_count, palette_texture_data,
};
use pixel_stream::palette_lut::LUT_ENTRY_COUNT;
use pixel_stream::preview_debug::{
    align_copy_bytes_per_row, audit_preview_pixel, audited_quantized_pixel_debug, exact_palette_index,
    expected_gpu_lookup_index, padded_preview_palette, preview_expected_readout, preview_overlay_mask_pixel,
    preview_quantized_pixel_debug, raw_pixel_debug, rgb_key, PixelAudit, PreviewFrameValidationSummary,
    PreviewLookupRoute, PreviewPixelSource, QuantizedPixelDebug, RawPixelDebug,
};
use pixel_stream::preview_throttle::{PreviewPaletteThrottle, ThrottleStep};

fn raw_debug(route: PreviewLookupRoute, _expected_index: Option<u8>) -> RawPixelDebug {
    RawPixelDebug {
        x: 0,
        y: 0,
        b: 0,
        g: 0,
        r: 0,
        a: 255,
        lookup_rgb: [0, 0, 0],
        lookup_key: 0,
        lookup_route: route,
    }
}

fn quantized_debug(index: u8) -> QuantizedPixelDebug {
    QuantizedPixelDebug {
        palette_index: index,
        shader_palette_index: index,
        color: [4, 5, 6, 255],
        lookup_rgb: [0, 0, 0],
        direct_overlay: false,
    }
}

fn altered_fixtures(index: u8) -> (Vec<u8>, Vec<[u8; 4]>) {
    let lookup = vec![index];
    let mut palette = vec![[0, 0, 0, 255]; usize::from(index) + 1];
    palette[usize::from(index)] = [1, 2, 3, 255];
    (lookup, palette)
}

#[test]
fn after_click_keeps_altered_label_when_after_matches_altered_expectation() {
    let raw = raw_debug(PreviewLookupRoute::AlteredTable, Some(9));
    let quantized = quantized_debug(9);
    let (lookup, palette) = altered_fixtures(9);

    let (label, index, color) =
        preview_expected_readout(&raw, &quantized, PreviewPixelSource::Quantized, &lookup, &palette);

    assert_eq!(label, "altered/prequantized IPSMAP table");
    assert_eq!(index, "9");
    assert_eq!(color, [1, 2, 3, 255]);
}

#[test]
fn after_click_reports_mismatch_when_unmarked_output_differs_from_expectation() {
    let raw = raw_debug(PreviewLookupRoute::AlteredTable, Some(9));
    let quantized = quantized_debug(42);
    let (lookup, palette) = altered_fixtures(9);

    let (label, index, color) =
        preview_expected_readout(&raw, &quantized, PreviewPixelSource::Quantized, &lookup, &palette);

    assert_eq!(label, "altered/prequantized IPSMAP table");
    assert_eq!(index, "9");
    assert_eq!(color, [1, 2, 3, 255]);
    assert_ne!(u32::from(quantized.palette_index), index.parse::<u32>().unwrap());
}

#[test]
fn overlay_marker_identifies_direct_output_even_when_indices_match() {
    let raw = raw_debug(PreviewLookupRoute::AlteredTable, Some(9));
    let mut quantized = quantized_debug(9);
    quantized.direct_overlay = true;

    let (label, index, color) = preview_expected_readout(&raw, &quantized, PreviewPixelSource::Raw, &[], &[]);

    assert_eq!(label, "direct output overlay");
    assert_eq!(index, "9");
    assert_eq!(color, [4, 5, 6, 255]);
}

#[test]
fn gpu_lookup_metadata_is_the_authority_for_audited_mapping() {
    let mut raw = raw_debug(PreviewLookupRoute::AlteredTable, None);
    raw.lookup_rgb = [62, 68, 18];
    let mut quantized = quantized_debug(73);
    quantized.lookup_rgb = [63, 68, 18];
    let gpu_key = rgb_key(quantized.lookup_rgb);
    let mut lookup = vec![0; gpu_key + 1];
    lookup[gpu_key] = 73;

    assert_eq!(expected_gpu_lookup_index(&raw, &quantized, &lookup, &[]), Some(73));
}

#[test]
fn quantized_readback_contains_exact_gpu_lookup_rgb() {
    let mut data = vec![0; 256];
    data[..4].copy_from_slice(&[73, 63, 68, 18]);
    let palette = vec![[0, 0, 0, 255]; 74];

    let debug = preview_quantized_pixel_debug(0, 0, 1, &data, &palette);

    assert_eq!(debug.palette_index, 73);
    assert_eq!(debug.lookup_rgb, [63, 68, 18]);
}

#[test]
fn after_click_preserves_direct_table_label_for_raw_direct_text() {
    let raw = raw_debug(PreviewLookupRoute::DirectTable, Some(12));
    let quantized = quantized_debug(12);
    let mut lookup = vec![0; LUT_ENTRY_COUNT + 1];
    lookup[LUT_ENTRY_COUNT] = 12;
    let mut palette = vec![[0, 0, 0, 255]; 13];
    palette[12] = [1, 2, 3, 255];

    let (label, index, color) =
        preview_expected_readout(&raw, &quantized, PreviewPixelSource::Quantized, &lookup, &palette);

    assert_eq!(label, "direct IPSMAP table");
    assert_eq!(index, "12");
    assert_eq!(color, [1, 2, 3, 255]);
}

#[test]
fn missing_table_entry_reads_out_of_range() {
    let raw = raw_debug(PreviewLookupRoute::AlteredTable, None);
    let mut quantized = quantized_debug(3);
    quantized.lookup_rgb = [0, 0, 5];
    let (label, index, color) =
        preview_expected_readout(&raw, &quantized, PreviewPixelSource::Quantized, &[1, 2], &[]);
    assert_eq!(label, "altered/prequantized IPSMAP table");
    assert_eq!(index, "out of range");
    assert_eq!(color, [0, 0, 0, 255]);
}

#[test]
fn exact_palette_route_finds_the_first_matching_color() {
    let palette = [[9, 9, 9, 255], [1, 2, 3, 255], [1, 2, 3, 0]];
    assert_eq!(exact_palette_index(1, 2, 3, &palette), Some(1));
    assert_eq!(exact_palette_index(4, 2, 3, &palette), None);
    let mut raw = raw_debug(PreviewLookupRoute::ExactPalette, None);
    raw.r = 1;
    raw.g = 2;
    raw.b = 3;
    let (label, index, color) =
        preview_expected_readout(&raw, &quantized_debug(0), PreviewPixelSource::Raw, &[], &palette);
    assert_eq!(label, "exact palette bypass");
    assert_eq!(index, "1");
    assert_eq!(color, [1, 2, 3, 255]);
}

#[test]
fn rgb_keys_pack_red_green_blue() {
    assert_eq!(rgb_key([0x14, 0x07, 0x2A]), 1_312_554);
    assert_eq!(rgb_key([255, 255, 255]), LUT_ENTRY_COUNT - 1);
}

#[test]
fn readback_rows_are_aligned_to_256_bytes() {
    assert_eq!(align_copy_bytes_per_row(0), 0);
    assert_eq!(align_copy_bytes_per_row(4), 256);
    assert_eq!(align_copy_bytes_per_row(256), 256);
    assert_eq!(align_copy_bytes_per_row(257), 512);

    let mut data = vec![0u8; 512];
    data[256] = 7;
    data[257] = 1;
    data[258] = 2;
    data[259] = 3;
    let palette = vec![[0, 0, 0, 255]; 8];
    let debug = preview_quantized_pixel_debug(0, 1, 2, &data, &palette);
    assert_eq!(debug.palette_index, 7);
    assert_eq!(debug.lookup_rgb, [1, 2, 3]);
    assert!(!debug.direct_overlay);
    assert!(preview_overlay_mask_pixel(0, 1, 2, &data));
    assert!(!preview_overlay_mask_pixel(1, 1, 2, &data));
    assert!(!preview_overlay_mask_pixel(0, 5, 2, &data));
}

#[test]
fn preview_palette_is_padded_with_black() {
    let padded = padded_preview_palette(vec![[1, 2, 3, 4]]);
    assert_eq!(padded.len(), 256);
    assert_eq!(padded[0], [1, 2, 3, 4]);
    assert_eq!(padded[255], [0, 0, 0, 255]);
    let long = padded_preview_palette(vec![[5, 5, 5, 5]; 300]);
    assert_eq!(long.len(), 256);
}

#[test]
fn texture_layout_sizes() {
    assert_eq!(output_image_count(0), 2);
    assert_eq!(output_image_count(3), 6);
    assert_eq!(palette_texture_data(&[]), (1, vec![0, 0, 0, 255]));
    assert_eq!(palette_texture_data(&[[1, 2, 3, 4], [5, 6, 7, 8]]), (2, vec![1, 2, 3, 4, 5, 6, 7, 8]));
    assert_eq!(lookup_texture_height(LUT_ENTRY_COUNT), 4096);
    assert_eq!(lookup_texture_height(2 * LUT_ENTRY_COUNT), 8192);
}

fn step(throttle: &mut PreviewPaletteThrottle, delta: u128, images: usize, current: usize) -> ThrottleStep {
    throttle.step(delta, images, current)
}

#[test]
fn throttle_warms_up_then_displays_outputs_a_batch_late() {
    let mut throttle = PreviewPaletteThrottle::new(10, 2);
    let first = step(&mut throttle, 0, 4, 0);
    assert!(first.should_render);
    assert_eq!(first.render_output, Some(0));
    assert_eq!(first.display_index, None);
    assert_eq!(first.next_output_index, 1);

    let second = step(&mut throttle, 10, 4, 1);
    assert_eq!(second.display_index, None);
    let third = step(&mut throttle, 10, 4, 2);
    assert_eq!(third.display_index, None);
    assert!(!third.reveal_preview);

    let fourth = step(&mut throttle, 10, 4, 3);
    assert_eq!(fourth.display_index, Some(2));
    assert!(fourth.reveal_preview);
    assert_eq!(fourth.next_output_index, 0);

    let fifth = step(&mut throttle, 10, 4, 0);
    assert_eq!(fifth.display_index, Some(3));
    assert!(!fifth.reveal_preview);

    let idle = step(&mut throttle, 5, 4, 1);
    assert!(!idle.should_render);
    assert_eq!(idle.render_output, None);
    assert_eq!(idle.next_output_index, 1);
    let again = step(&mut throttle, 5, 4, 1);
    assert!(again.should_render);
    assert_eq!(again.display_index, Some(0));
}

#[test]
fn throttle_without_images_renders_nothing_into_outputs() {
    let mut throttle = PreviewPaletteThrottle::new(10, 0);
    let s = step(&mut throttle, 25, 0, 0);
    assert!(s.should_render);
    assert_eq!(s.render_output, None);
    assert_eq!(s.next_output_index, 0);
}

#[test]
fn readback_entities_are_used_in_turn() {
    let entities = [10u64, 11, 12];
    let mut next = 1usize;
    assert_eq!(next_available_readback_entity(&entities, &mut next, &[11]), Some(12));
    assert_eq!(next, 0);
    assert_eq!(next_available_readback_entity(&entities, &mut next, &[]), Some(10));
    assert_eq!(next, 1);

    let mut busy = 5usize;
    assert_eq!(next_available_readback_entity(&entities, &mut busy, &[10, 11, 12]), None);
    assert_eq!(busy, 2);

    let mut untouched = 7usize;
    assert_eq!(next_available_readback_entity(&[], &mut untouched, &[]), None);
    assert_eq!(untouched, 7);
}

#[test]
fn raw_pixels_read_bgra_and_take_the_expected_lookup() {
    let mut data = vec![0u8; 256 * 2];
    data[256..260].copy_from_slice(&[0x2A, 0x07, 0x14, 200]);
    let plain = raw_pixel_debug(0, 1, 2, &data, None);
    assert_eq!((plain.r, plain.g, plain.b, plain.a), (0x14, 0x07, 0x2A, 200));
    assert_eq!(plain.lookup_rgb, [0x14, 0x07, 0x2A]);
    assert_eq!(plain.lookup_key, 1_312_554);
    assert_eq!(plain.lookup_route, PreviewLookupRoute::AlteredTable);

    let routed = raw_pixel_debug(0, 1, 2, &data, Some((PreviewLookupRoute::DirectTable, 3, [1, 2, 3])));
    assert_eq!(routed.lookup_rgb, [1, 2, 3]);
    assert_eq!(routed.lookup_key, rgb_key([1, 2, 3]));
    assert_eq!(routed.lookup_route, PreviewLookupRoute::DirectTable);

    let outside = raw_pixel_debug(0, 5, 2, &data, None);
    assert_eq!((outside.x, outside.y, outside.a, outside.lookup_key), (0, 5, 0, 0));
    assert_eq!(outside.lookup_route, PreviewLookupRoute::AlteredTable);
}

#[test]
fn audit_flags_mismatches_and_drift() {
    let quantized = vec![7u8, 0, 0, 0];
    let audit = vec![8u8, 0, 0, 9];
    let mask = vec![0u8, 0, 0, 0];
    let palette = vec![[1, 1, 1, 255]; 9];
    let q = audited_quantized_pixel_debug(0, 0, 1, &quantized, &audit, &mask, &palette);
    assert_eq!((q.palette_index, q.shader_palette_index, q.lookup_rgb), (7, 8, [0, 0, 9]));
    assert!(!q.direct_overlay);

    let mut raw = raw_debug(PreviewLookupRoute::AlteredTable, None);
    raw.lookup_rgb = [0, 0, 9];
    let mut lookup = vec![0u8; 10];
    lookup[9] = 7;
    assert_eq!(
        audit_preview_pixel(&raw, &q, &lookup, &palette),
        Some(PixelAudit { mapping_mismatch: true, drift: false })
    );
    let mut agreeing = q;
    agreeing.shader_palette_index = 7;
    assert_eq!(audit_preview_pixel(&raw, &agreeing, &lookup, &palette), None);
    raw.lookup_rgb = [0, 0, 8];
    assert_eq!(
        audit_preview_pixel(&raw, &agreeing, &lookup, &palette),
        Some(PixelAudit { mapping_mismatch: false, drift: true })
    );
    let mut overlay = agreeing;
    overlay.direct_overlay = true;
    assert_eq!(audit_preview_pixel(&raw, &overlay, &lookup, &palette), None);

    let mut summary = PreviewFrameValidationSummary::default();
    summary.record(PixelAudit { mapping_mismatch: true, drift: true });
    summary.record(PixelAudit { mapping_mismatch: false, drift: true });
    assert_eq!((summary.mismatches, summary.mapping_mismatches, summary.drifts), (1, 1, 2));
}
