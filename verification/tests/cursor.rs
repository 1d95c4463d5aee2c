use redlight::cursor::{
    color_buffer_len, cursor_from_mask, mask_layout, recolor_pixels, MaskLayout, CURSOR_IDS,
};

#[test]
fn recolor_keeps_red_and_alpha() {
    let mut buf = vec![10, 20, 30, 40, 50, 60, 70, 80, 1, 2];
    recolor_pixels(&mut buf);
    assert_eq!(buf, vec![0, 0, 30, 40, 0, 0, 70, 80, 1, 2]);
}

#[test]
fn recolor_empty() {
    let mut buf: Vec<u8> = Vec::new();
    recolor_pixels(&mut buf);
    assert!(buf.is_empty());
}

#[test]
fn layout_checks_and_strides() {
    assert_eq!(mask_layout(32, 64), Some(MaskLayout { height: 32, stride: 4, mono_stride: 4 }));
    assert_eq!(mask_layout(33, 10), Some(MaskLayout { height: 5, stride: 8, mono_stride: 6 }));
    assert_eq!(mask_layout(1, 2), Some(MaskLayout { height: 1, stride: 4, mono_stride: 2 }));
    assert_eq!(mask_layout(0, 64), None);
    assert_eq!(mask_layout(-3, 64), None);
    assert_eq!(mask_layout(32, 0), None);
    assert_eq!(mask_layout(32, 63), None);
    assert_eq!(mask_layout(32, -64), None);
}

#[test]
fn color_buffer_sizes() {
    assert_eq!(color_buffer_len(32, 32), Some(4096));
    assert_eq!(color_buffer_len(3, 5), Some(60));
    assert_eq!(color_buffer_len(0, 5), None);
    assert_eq!(color_buffer_len(5, -1), None);
}

#[test]
fn mask_pixels_map_to_red_black_transparent() {
    // Width 4, height 1, stride 4: AND row then XOR row.
    // Pixels: (and, xor) = (1,0) transparent, (0,0) black, (0,1) white -> red, (1,1) invert -> red.
    let and_row = [0b1001_0000u8, 0, 0, 0];
    let xor_row = [0b0011_0000u8, 0, 0, 0];
    let mask: Vec<u8> = and_row.iter().chain(xor_row.iter()).copied().collect();
    let px = cursor_from_mask(&mask, 4, 4, 1);
    assert_eq!(
        px,
        vec![0, 0, 0, 0, 0, 0, 0, 255, 0, 0, 255, 255, 0, 0, 255, 255]
    );
}

#[test]
fn mask_rows_are_read_top_down() {
    // Width 9 (two bytes per row used), height 2, stride 4.
    let mut mask = vec![0u8; 4 * 4];
    mask[0] = 0xFF; // AND row 0: pixels 0..8 transparent-candidates
    mask[1] = 0x80; // AND row 0, pixel 8
    mask[4 * 2 + 1] = 0x80; // XOR row 0 (row 2 of the mask), pixel 8
    mask[4 * 3] = 0x01; // XOR row 1 (row 3), pixel 7
    let px = cursor_from_mask(&mask, 4, 9, 2);
    assert_eq!(px.len(), 9 * 2 * 4);
    let at = |x: usize, y: usize| &px[(y * 9 + x) * 4..(y * 9 + x) * 4 + 4];
    assert_eq!(at(0, 0), &[0, 0, 0, 0]);
    assert_eq!(at(8, 0), &[0, 0, 255, 255]);
    assert_eq!(at(7, 1), &[0, 0, 255, 255]);
    assert_eq!(at(0, 1), &[0, 0, 0, 255]);
}

#[test]
fn thirteen_system_cursors() {
    assert_eq!(CURSOR_IDS.len(), 13);
    assert_eq!(CURSOR_IDS[0], 32512);
    assert_eq!(CURSOR_IDS[12], 32650);
}

#[test]
fn malformed_sizes_refused_at_extremes() {
    assert_eq!(mask_layout(i32::MAX, 3), None);
    assert_eq!(mask_layout(i32::MAX, -2), None);
    assert_eq!(color_buffer_len(-65536, -65536), None);
    assert_eq!(color_buffer_len(i32::MAX, 0), None);
}
