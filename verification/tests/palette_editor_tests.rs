use pixel_stream::palette_editor::{padded_preview_palette, PreviewPaletteEditor};

#[test]
fn padding_fills_and_cuts_to_256_cells() {
    let padded = padded_preview_palette(vec![[1, 2, 3, 4]]);
    assert_eq!(padded.len(), 256);
    assert_eq!(padded[0], [1, 2, 3, 4]);
    assert_eq!(padded[255], [0, 0, 0, 255]);
    let long = padded_preview_palette(vec![[9, 9, 9, 9]; 300]);
    assert_eq!(long, vec![[9, 9, 9, 9]; 256]);
}

#[test]
fn selecting_clamps_to_the_last_cell() {
    let mut editor = PreviewPaletteEditor::new(vec![[0, 0, 0, 255]; 4]);
    assert_eq!(editor.status(), "Palette editor ready");
    editor.select_cell(2);
    assert_eq!(editor.selected(), 2);
    assert_eq!(editor.status(), "Selected cell 2");
    editor.select_cell(40);
    assert_eq!(editor.selected(), 3);
    assert_eq!(editor.status(), "Selected cell 3");
}

#[test]
fn set_color_changes_only_the_selected_cell() {
    let mut editor = PreviewPaletteEditor::new(vec![[0, 0, 0, 255]; 3]);
    editor.select_cell(1);
    editor.set_color([10, 20, 30, 255], "changed".to_string());
    assert_eq!(editor.colors(), &[[0, 0, 0, 255], [10, 20, 30, 255], [0, 0, 0, 255]]);
    assert!(editor.dirty());
    assert_eq!(editor.status(), "changed");
    assert_eq!(editor.status_line(), "Cell 1 #0A141E  changed");
}

#[test]
fn set_colors_keeps_the_cell_count_and_refuses_empty() {
    let mut editor = PreviewPaletteEditor::new(vec![[0, 0, 0, 255]; 2]);
    editor.select_cell(1);
    editor.set_colors(vec![], "Loaded x".to_string());
    assert_eq!(editor.status(), "Loaded palette was empty");
    assert!(!editor.dirty());
    editor.set_colors(vec![[1, 1, 1, 1], [2, 2, 2, 2], [3, 3, 3, 3]], "Loaded x".to_string());
    assert_eq!(editor.colors(), &[[1, 1, 1, 1], [2, 2, 2, 2]]);
    assert_eq!(editor.status(), "Loaded x; rebake needed");
    editor.set_colors(vec![[7, 7, 7, 7]], "Generated".to_string());
    assert_eq!(editor.selected(), 0);
    editor.mark_committed();
    assert!(!editor.dirty());
    assert_eq!(editor.status(), "IPSMAP6 rebake queued");
}

#[test]
fn raw_pick_reads_the_bgra_pixel() {
    let mut editor = PreviewPaletteEditor::new(vec![[0, 0, 0, 255]; 2]);
    assert!(!editor.raw_pick_click(true));
    editor.arm_raw_pick();
    assert!(editor.picking_raw());
    assert!(editor.raw_pick_click(false));
    assert_eq!(editor.status(), "Pick Raw is armed: click inside the raw preview");
    assert!(editor.raw_pick_click(true));
    assert!(!editor.picking_raw());
    // Two pixels wide: rows are padded to 256 bytes.
    let mut data = vec![0u8; 512];
    data[256 + 4..256 + 8].copy_from_slice(&[0x30, 0x20, 0xAB, 0xFF]);
    editor.finish_raw_pick(1, 1, 2, &data);
    assert_eq!(editor.colors()[0], [0xAB, 0x20, 0x30, 0xFF]);
    assert_eq!(editor.status(), "Set cell 0 from raw #AB2030; rebake needed");
    editor.finish_raw_pick(1, 2, 2, &data);
    assert_eq!(editor.status(), "Raw pick out of range at 1, 2");
}

#[test]
fn loading_a_committed_palette_pads_it() {
    let mut editor = PreviewPaletteEditor::new(vec![[0, 0, 0, 255]; 2]);
    editor.select_cell(1);
    editor.set_color([5, 5, 5, 5], "x".to_string());
    editor.load_committed(vec![[1, 2, 3, 4]]);
    assert_eq!(editor.colors().len(), 256);
    assert_eq!(editor.selected(), 1);
    assert!(!editor.dirty());
}
