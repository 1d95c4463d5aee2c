use redlight::icon::{make_icon_bin, rgba_to_ico};

/// Independent encoding of a single-image `.ico` file, built with `to_le_bytes`.
fn expected_ico(rgba: &[u8], size: u32) -> Vec<u8> {
    let s = size as usize;
    let xor_size = s * s * 4;
    let and_row = ((s + 31) / 32) * 4;
    let and_size = and_row * s;
    let image_size = 40 + xor_size + and_size;
    let mut v = Vec::new();
    v.extend_from_slice(&0u16.to_le_bytes());
    v.extend_from_slice(&1u16.to_le_bytes());
    v.extend_from_slice(&1u16.to_le_bytes());
    v.push(size as u8);
    v.push(size as u8);
    v.push(0);
    v.push(0);
    v.extend_from_slice(&1u16.to_le_bytes());
    v.extend_from_slice(&32u16.to_le_bytes());
    v.extend_from_slice(&(image_size as u32).to_le_bytes());
    v.extend_from_slice(&22u32.to_le_bytes());
    v.extend_from_slice(&40u32.to_le_bytes());
    v.extend_from_slice(&(size as i32).to_le_bytes());
    v.extend_from_slice(&((size * 2) as i32).to_le_bytes());
    v.extend_from_slice(&1u16.to_le_bytes());
    v.extend_from_slice(&32u16.to_le_bytes());
    for _ in 0..6 {
        v.extend_from_slice(&0u32.to_le_bytes());
    }
    for y in (0..s).rev() {
        for x in 0..s {
            let i = (y * s + x) * 4;
            v.push(rgba[i + 2]);
            v.push(rgba[i + 1]);
            v.push(rgba[i]);
            v.push(rgba[i + 3]);
        }
    }
    v.resize(v.len() + and_size, 0);
    v
}

/// The icon image drawn with floating-point distances.
fn expected_icon_rgba() -> Vec<u8> {
    const SIZE: u32 = 32;
    let mut rgba = vec![0u8; (SIZE * SIZE * 4) as usize];
    let center = (SIZE as f32 - 1.0) / 2.0;
    let radius = center;
    for y in 0..SIZE {
        for x in 0..SIZE {
            let dx = x as f32 - center;
            let dy = y as f32 - center;
            let dist = (dx * dx + dy * dy).sqrt();
            if dist <= radius {
                let i = ((y * SIZE + x) * 4) as usize;
                rgba[i] = 220;
                rgba[i + 1] = 20;
                rgba[i + 2] = 20;
                rgba[i + 3] = if dist > radius - 1.5 { 180 } else { 255 };
            }
        }
    }
    rgba
}

#[test]
fn icon_matches_float_drawing() {
    let expected = expected_ico(&expected_icon_rgba(), 32);
    assert_eq!(make_icon_bin(), expected);
}

#[test]
fn icon_header_fields() {
    let ico = make_icon_bin();
    // 22 + 40 + 32*32*4 + 4*32
    assert_eq!(ico.len(), 4286);
    assert_eq!(&ico[0..6], &[0, 0, 1, 0, 1, 0]);
    assert_eq!(&ico[6..10], &[32, 32, 0, 0]);
    assert_eq!(&ico[10..14], &[1, 0, 32, 0]);
    // image length 40 + 4096 + 128 = 4264 = 0x10A8
    assert_eq!(&ico[14..18], &[0xA8, 0x10, 0, 0]);
    assert_eq!(&ico[18..22], &[22, 0, 0, 0]);
    assert_eq!(&ico[22..26], &[40, 0, 0, 0]);
    assert_eq!(&ico[26..30], &[32, 0, 0, 0]);
    assert_eq!(&ico[30..34], &[64, 0, 0, 0]);
    assert!(ico[ico.len() - 128..].iter().all(|&b| b == 0));
}

#[test]
fn icon_centre_corner_and_rim() {
    let ico = make_icon_bin();
    // Pixel (x, y) of the image is stored at row 31 - y, as BGRA.
    let at = |x: usize, y: usize| {
        let k = 62 + ((31 - y) * 32 + x) * 4;
        [ico[k], ico[k + 1], ico[k + 2], ico[k + 3]]
    };
    assert_eq!(at(16, 16), [20, 20, 220, 255]);
    assert_eq!(at(0, 0), [0, 0, 0, 0]);
    assert_eq!(at(31, 31), [0, 0, 0, 0]);
    // (0, 15) is just over 15.5 from the centre: off the disc.
    assert_eq!(at(0, 15), [0, 0, 0, 0]);
    // (1, 15) is about 14.5 from the centre: on the disc, on its rim.
    assert_eq!(at(1, 15), [20, 20, 220, 180]);
    // (2, 15) is 13.5 from the centre: inside the rim.
    assert_eq!(at(2, 15), [20, 20, 220, 255]);
}

#[test]
fn small_image_is_reordered_and_flipped() {
    // 2x2 image, pixels numbered 1..4 in reading order.
    let rgba: Vec<u8> = vec![
        1, 2, 3, 4, 5, 6, 7, 8, // row 0
        9, 10, 11, 12, 13, 14, 15, 16, // row 1
    ];
    let ico = rgba_to_ico(&rgba, 2);
    assert_eq!(ico, expected_ico(&rgba, 2));
    assert_eq!(ico.len(), 62 + 16 + 8);
    // Bottom row first, BGRA.
    assert_eq!(&ico[62..70], &[11, 10, 9, 12, 15, 14, 13, 16]);
    assert_eq!(&ico[70..78], &[3, 2, 1, 4, 7, 6, 5, 8]);
}

#[test]
fn empty_image_has_headers_only() {
    let ico = rgba_to_ico(&[], 0);
    assert_eq!(ico.len(), 62);
    assert_eq!(ico, expected_ico(&[], 0));
}

#[test]
fn size_256_writes_zero_in_size_bytes() {
    let rgba = vec![7u8; 256 * 256 * 4];
    let ico = rgba_to_ico(&rgba, 256);
    assert_eq!(ico[6], 0);
    assert_eq!(ico[7], 0);
    assert_eq!(ico, expected_ico(&rgba, 256));
}

#[test]
fn odd_size_pads_mask_rows() {
    let rgba: Vec<u8> = (0..(33 * 33 * 4)).map(|i| (i % 251) as u8).collect();
    let ico = rgba_to_ico(&rgba, 33);
    // mask rows of 33 pixels take 8 bytes
    assert_eq!(ico.len(), 62 + 33 * 33 * 4 + 8 * 33);
    assert_eq!(ico, expected_ico(&rgba, 33));
}

#[test]
fn pixels_read_back() {
    let rgba: Vec<u8> = (0..(5 * 5 * 4)).map(|i| (i * 7 % 256) as u8).collect();
    let ico = rgba_to_ico(&rgba, 5);
    let s = 5;
    let mut back = vec![0u8; s * s * 4];
    for y in 0..s {
        for x in 0..s {
            let j = 62 + ((s - 1 - y) * s + x) * 4;
            let k = (y * s + x) * 4;
            back[k] = ico[j + 2];
            back[k + 1] = ico[j + 1];
            back[k + 2] = ico[j];
            back[k + 3] = ico[j + 3];
        }
    }
    assert_eq!(back, rgba);
}

#[test]
fn different_images_different_files() {
    let a = vec![1u8; 3 * 3 * 4];
    let mut b = a.clone();
    b[17] = 2;
    assert_ne!(rgba_to_ico(&a, 3), rgba_to_ico(&b, 3));
    // Bytes past the image do not count.
    let mut c = a.clone();
    c.push(9);
    assert_eq!(rgba_to_ico(&a, 3), rgba_to_ico(&c, 3));
}
