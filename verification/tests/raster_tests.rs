use preview::raster::Raster;
use preview::transforms::{crop, crop_rect, flip_h, flip_v, rect_between, resize, rotate_ccw, rotate_cw};

fn px(v: u8) -> [u8; 4] {
    [v, v.wrapping_add(1), v.wrapping_add(2), 255]
}

/// A `w` x `h` image whose pixel (x, y) is `px(10 * y + x)`.
fn sample(w: u32, h: u32) -> Raster {
    let mut data = Vec::new();
    for y in 0..h {
        for x in 0..w {
            data.extend_from_slice(&px((10 * y + x) as u8));
        }
    }
    Raster::new(w, h, data).unwrap()
}

fn pixel(img: &Raster, x: u32, y: u32) -> [u8; 4] {
    let i = ((y * img.width() + x) * 4) as usize;
    let p = img.pixels();
    [p[i], p[i + 1], p[i + 2], p[i + 3]]
}

#[test]
fn new_checks_buffer_length() {
    assert!(Raster::new(2, 2, vec![0; 16]).is_some());
    assert!(Raster::new(2, 2, vec![0; 15]).is_none());
    assert!(Raster::new(2, 2, vec![0; 17]).is_none());
    assert!(Raster::new(0, 5, vec![]).is_some());
    let r = Raster::new(3, 1, vec![7; 12]).unwrap();
    assert_eq!(r.width(), 3);
    assert_eq!(r.height(), 1);
    assert_eq!(r.into_pixels(), vec![7; 12]);
}

#[test]
fn rotate_cw_moves_pixels_clockwise() {
    // 3 x 2 image: row 0 = a b c, row 1 = d e f
    let img = sample(3, 2);
    let r = rotate_cw(&img);
    assert_eq!((r.width(), r.height()), (2, 3));
    // clockwise: row 0 = d a, row 1 = e b, row 2 = f c
    assert_eq!(pixel(&r, 0, 0), px(10));
    assert_eq!(pixel(&r, 1, 0), px(0));
    assert_eq!(pixel(&r, 0, 1), px(11));
    assert_eq!(pixel(&r, 1, 1), px(1));
    assert_eq!(pixel(&r, 0, 2), px(12));
    assert_eq!(pixel(&r, 1, 2), px(2));
}

#[test]
fn rotate_ccw_moves_pixels_counter_clockwise() {
    let img = sample(3, 2);
    let r = rotate_ccw(&img);
    assert_eq!((r.width(), r.height()), (2, 3));
    // counter-clockwise: row 0 = c f, row 1 = b e, row 2 = a d
    assert_eq!(pixel(&r, 0, 0), px(2));
    assert_eq!(pixel(&r, 1, 0), px(12));
    assert_eq!(pixel(&r, 0, 2), px(0));
    assert_eq!(pixel(&r, 1, 2), px(10));
}

#[test]
fn rotations_undo_each_other() {
    let img = sample(4, 3);
    assert_eq!(rotate_ccw(&rotate_cw(&img)).pixels(), img.pixels());
    assert_eq!(rotate_cw(&rotate_ccw(&img)).pixels(), img.pixels());
    let back = rotate_cw(&rotate_ccw(&img));
    assert_eq!((back.width(), back.height()), (4, 3));
}

#[test]
fn four_quarter_turns_give_back_the_image() {
    let img = sample(5, 2);
    let turned = rotate_cw(&rotate_cw(&rotate_cw(&rotate_cw(&img))));
    assert_eq!((turned.width(), turned.height()), (5, 2));
    assert_eq!(turned.pixels(), img.pixels());
    assert_eq!(flip_h(&flip_v(&img)).pixels(), flip_v(&flip_h(&img)).pixels());
}

#[test]
fn half_turn_is_both_flips() {
    let img = sample(4, 3);
    let twice = rotate_cw(&rotate_cw(&img));
    assert_eq!(twice.pixels(), flip_h(&flip_v(&img)).pixels());
}

#[test]
fn flips_mirror_and_undo_themselves() {
    let img = sample(3, 2);
    let h = flip_h(&img);
    assert_eq!(pixel(&h, 0, 0), px(2));
    assert_eq!(pixel(&h, 2, 1), px(10));
    let v = flip_v(&img);
    assert_eq!(pixel(&v, 0, 0), px(10));
    assert_eq!(pixel(&v, 2, 1), px(2));
    assert_eq!(flip_h(&h).pixels(), img.pixels());
    assert_eq!(flip_v(&v).pixels(), img.pixels());
}

#[test]
fn crop_rect_clamps_to_the_image() {
    assert_eq!(crop_rect(10, 8, 2, 3, 4, 2), Some((2, 3, 4, 2)));
    // size cut to what remains
    assert_eq!(crop_rect(10, 8, 8, 6, 5, 5), Some((8, 6, 2, 2)));
    // origin past the image moves onto the last column / row
    assert_eq!(crop_rect(10, 8, 50, 50, 5, 5), Some((9, 7, 1, 1)));
    // empty requests and empty images
    assert_eq!(crop_rect(10, 8, 1, 1, 0, 3), None);
    assert_eq!(crop_rect(10, 8, 1, 1, 3, 0), None);
    assert_eq!(crop_rect(0, 8, 0, 0, 3, 3), None);
}

#[test]
fn crop_cuts_out_the_rectangle() {
    let img = sample(4, 3);
    let c = crop(&img, 1, 1, 2, 5).unwrap();
    assert_eq!((c.width(), c.height()), (2, 2));
    assert_eq!(pixel(&c, 0, 0), px(11));
    assert_eq!(pixel(&c, 1, 0), px(12));
    assert_eq!(pixel(&c, 0, 1), px(21));
    assert_eq!(pixel(&c, 1, 1), px(22));
    assert!(crop(&img, 1, 1, 0, 1).is_none());
    let whole = crop(&img, 0, 0, 4, 3).unwrap();
    assert_eq!(whole.pixels(), img.pixels());
}

#[test]
fn rect_between_corners() {
    assert_eq!(rect_between(2, 3, 7, 10), (2, 3, 5, 7));
    assert_eq!(rect_between(7, 10, 2, 3), (7, 10, 0, 0));
}

#[test]
fn resize_changes_the_size() {
    let img = sample(4, 3);
    let r = resize(&img, 8, 6);
    assert_eq!((r.width(), r.height()), (8, 6));
    assert_eq!(r.pixels().len(), 8 * 6 * 4);
    let same = resize(&img, 4, 3);
    assert_eq!(same.pixels(), img.pixels());
}

#[test]
fn resize_of_an_empty_image_is_transparent_black() {
    let img = Raster::new(0, 3, vec![]).unwrap();
    let r = resize(&img, 2, 2);
    assert_eq!((r.width(), r.height()), (2, 2));
    assert_eq!(r.pixels(), &[0u8; 16][..]);
}

#[test]
fn resize_keeps_a_single_color() {
    let q = [200u8, 30, 7, 255];
    let img = Raster::new(5, 4, q.repeat(20)).unwrap();
    for (w, h) in [(11, 9), (3, 2), (1, 1), (40, 1)] {
        let r = resize(&img, w, h);
        for y in 0..h {
            for x in 0..w {
                assert_eq!(pixel(&r, x, y), q);
            }
        }
    }
}

#[test]
fn resize_takes_colors_from_nearby_pixels() {
    // left half red, right half blue; doubled in width
    let red = [255u8, 0, 0, 255];
    let blue = [0u8, 0, 255, 255];
    let mut data = Vec::new();
    for _ in 0..2 {
        for x in 0..100 {
            data.extend_from_slice(if x < 50 { &red } else { &blue });
        }
    }
    let img = Raster::new(100, 2, data).unwrap();
    let r = resize(&img, 200, 2);
    for y in 0..2 {
        assert_eq!(pixel(&r, 10, y), red);
        assert_eq!(pixel(&r, 60, y), red);
        assert_eq!(pixel(&r, 140, y), blue);
        assert_eq!(pixel(&r, 190, y), blue);
    }
}
