use preview::pixels::{premultiply_to_bgra, surface_data_to_image};

#[test]
fn premultiply_swaps_to_bgra_and_scales_by_alpha() {
    let out = premultiply_to_bgra(&[200, 100, 50, 255, 200, 100, 50, 128, 10, 20, 30, 0]);
    assert_eq!(out, vec![50, 100, 200, 255, 25, 50, 100, 128, 0, 0, 0, 0]);
}

#[test]
fn premultiply_rounds_to_nearest() {
    // 255 * 1 / 255 = 1, 1 * 128 / 255 = 0.502 -> 1, 3 * 85 / 255 = 1
    assert_eq!(premultiply_to_bgra(&[3, 1, 255, 1]), vec![1, 0, 0, 1]);
    assert_eq!(premultiply_to_bgra(&[1, 1, 1, 128]), vec![1, 1, 1, 128]);
    assert_eq!(premultiply_to_bgra(&[3, 3, 3, 85]), vec![1, 1, 1, 85]);
}

#[test]
fn premultiply_ignores_a_partial_pixel() {
    assert_eq!(premultiply_to_bgra(&[1, 2, 3, 255, 9, 9]), vec![3, 2, 1, 255]);
    assert_eq!(premultiply_to_bgra(&[]), Vec::<u8>::new());
}

#[test]
fn premultiplied_channels_never_exceed_alpha() {
    let mut rgba = Vec::new();
    for a in [0u8, 1, 17, 128, 254, 255] {
        rgba.extend_from_slice(&[255, 255, 255, a]);
    }
    let out = premultiply_to_bgra(&rgba);
    for p in out.chunks(4) {
        assert!(p[0] <= p[3] && p[1] <= p[3] && p[2] <= p[3]);
    }
}

#[test]
fn surface_data_is_unpremultiplied_to_rgba() {
    // one row of two pixels, stride padded to 12 bytes, second row after it
    let data = [
        25, 50, 100, 128, 1, 2, 3, 0, 99, 99, 99, 99, // row 0 (+ padding)
        50, 100, 200, 255, 255, 0, 0, 255, 99, 99, 99, 99, // row 1
    ];
    let img = surface_data_to_image(&data, 2, 2, 12);
    assert_eq!((img.width(), img.height()), (2, 2));
    assert_eq!(
        img.pixels(),
        &[199, 100, 50, 128, 0, 0, 0, 0, 200, 100, 50, 255, 0, 0, 255, 255]
    );
}

#[test]
fn unpremultiply_caps_at_255() {
    // a color channel above alpha is out of range for cairo; it is capped
    let img = surface_data_to_image(&[200, 0, 0, 100], 1, 1, 4);
    assert_eq!(img.pixels(), &[0, 0, 255, 100]);
}

#[test]
fn opaque_images_round_trip() {
    let rgba: Vec<u8> = (0..48u32).map(|i| if i % 4 == 3 { 255 } else { (i * 37 % 256) as u8 }).collect();
    let surface = premultiply_to_bgra(&rgba);
    let back = surface_data_to_image(&surface, 4, 3, 16);
    assert_eq!(back.pixels(), rgba.as_slice());
}

#[test]
fn valid_surface_data_survives_the_round_trip() {
    // every alpha, with color channels 0, a/3, a/2 and a (any order)
    let mut data = Vec::new();
    for a in 0..=255u8 {
        data.extend_from_slice(&[a / 3, a / 2, a, a]);
        data.extend_from_slice(&[a, 0, a / 3, a]);
    }
    let (w, h) = (16u32, 32u32);
    assert_eq!(data.len(), (w * h * 4) as usize);
    let img = surface_data_to_image(&data, w, h, (w * 4) as usize);
    assert_eq!(premultiply_to_bgra(img.pixels()), data);
}
