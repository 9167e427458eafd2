use image_editor_core::raster::RgbaImage;
use image_editor_core::fill::{flood_fill_pixels, FILL_TOLERANCE};
use image_editor_core::blur::separable_box_blur_u8;

fn img(w: u32, h: u32, px: &[[u8; 4]]) -> RgbaImage {
    let data: Vec<u8> = px.iter().flat_map(|p| p.iter().copied()).collect();
    RgbaImage::from_raw(w, h, data).unwrap()
}

#[test]
fn from_raw_checks_length() {
    assert!(RgbaImage::from_raw(2, 2, vec![0u8; 16]).is_some());
    assert!(RgbaImage::from_raw(2, 2, vec![0u8; 15]).is_none());
    assert!(RgbaImage::from_raw(0, 5, vec![]).is_some());
}

#[test]
fn new_filled_repeats_the_pixel() {
    let i = RgbaImage::new_filled(3, 2, [1, 2, 3, 4]);
    assert_eq!(i.width(), 3);
    assert_eq!(i.height(), 2);
    assert_eq!(i.as_bytes().len(), 24);
    assert_eq!(i.get_pixel(2, 1), [1, 2, 3, 4]);
}

#[test]
fn put_and_get_pixel() {
    let mut i = RgbaImage::new_filled(2, 2, [0, 0, 0, 0]);
    i.put_pixel(1, 0, [9, 8, 7, 6]);
    assert_eq!(i.get_pixel(1, 0), [9, 8, 7, 6]);
    assert_eq!(i.get_pixel(0, 1), [0, 0, 0, 0]);
    assert_eq!(&i.as_bytes()[4..8], &[9, 8, 7, 6]);
}

#[test]
fn flip_h_mirrors_rows() {
    let i = img(2, 1, &[[1, 1, 1, 1], [2, 2, 2, 2]]);
    let f = i.flip_h();
    assert_eq!(f.get_pixel(0, 0), [2, 2, 2, 2]);
    assert_eq!(f.get_pixel(1, 0), [1, 1, 1, 1]);
}

#[test]
fn flip_v_mirrors_columns() {
    let i = img(1, 2, &[[1, 1, 1, 1], [2, 2, 2, 2]]);
    let f = i.flip_v();
    assert_eq!(f.get_pixel(0, 0), [2, 2, 2, 2]);
    assert_eq!(f.get_pixel(0, 1), [1, 1, 1, 1]);
}

#[test]
fn flips_twice_give_back_the_image() {
    let i = img(3, 2, &[[1, 0, 0, 1], [2, 0, 0, 1], [3, 0, 0, 1], [4, 0, 0, 1], [5, 0, 0, 1], [6, 0, 0, 1]]);
    assert_eq!(i.flip_h().flip_h().as_bytes(), i.as_bytes());
    assert_eq!(i.flip_v().flip_v().as_bytes(), i.as_bytes());
}

#[test]
fn rotate_cw_turns_a_row_into_a_column() {
    // a b c / d e f  turned clockwise:  d a / e b / f c
    let i = img(3, 2, &[[1, 0, 0, 0], [2, 0, 0, 0], [3, 0, 0, 0], [4, 0, 0, 0], [5, 0, 0, 0], [6, 0, 0, 0]]);
    let r = i.rotate_cw();
    assert_eq!((r.width(), r.height()), (2, 3));
    assert_eq!(r.get_pixel(0, 0)[0], 4);
    assert_eq!(r.get_pixel(1, 0)[0], 1);
    assert_eq!(r.get_pixel(0, 2)[0], 6);
    assert_eq!(r.get_pixel(1, 2)[0], 3);
}

#[test]
fn rotate_ccw_is_the_reverse_turn() {
    let i = img(3, 2, &[[1, 0, 0, 0], [2, 0, 0, 0], [3, 0, 0, 0], [4, 0, 0, 0], [5, 0, 0, 0], [6, 0, 0, 0]]);
    let r = i.rotate_ccw();
    assert_eq!((r.width(), r.height()), (2, 3));
    assert_eq!(r.get_pixel(0, 0)[0], 3);
    assert_eq!(r.get_pixel(1, 2)[0], 4);
    assert_eq!(i.rotate_cw().rotate_ccw().as_bytes(), i.as_bytes());
    assert_eq!(i.rotate_ccw().rotate_cw().as_bytes(), i.as_bytes());
}

#[test]
fn crop_takes_the_rectangle() {
    let i = img(3, 2, &[[1, 0, 0, 0], [2, 0, 0, 0], [3, 0, 0, 0], [4, 0, 0, 0], [5, 0, 0, 0], [6, 0, 0, 0]]);
    let c = i.crop(1, 0, 2, 2);
    assert_eq!((c.width(), c.height()), (2, 2));
    assert_eq!(c.get_pixel(0, 0)[0], 2);
    assert_eq!(c.get_pixel(1, 1)[0], 6);
}

#[test]
fn invert_keeps_alpha() {
    let mut i = img(1, 1, &[[10, 200, 255, 77]]);
    i.invert();
    assert_eq!(i.get_pixel(0, 0), [245, 55, 0, 77]);
    i.invert();
    assert_eq!(i.get_pixel(0, 0), [10, 200, 255, 77]);
}

#[test]
fn flood_fill_stops_at_different_colours() {
    // left column white, right column black: filling the left stays left
    let mut i = img(2, 2, &[[255, 255, 255, 255], [0, 0, 0, 255], [255, 255, 255, 255], [0, 0, 0, 255]]);
    flood_fill_pixels(&mut i, 0, 0, [255, 0, 0, 255]);
    assert_eq!(i.get_pixel(0, 0), [255, 0, 0, 255]);
    assert_eq!(i.get_pixel(0, 1), [255, 0, 0, 255]);
    assert_eq!(i.get_pixel(1, 0), [0, 0, 0, 255]);
    assert_eq!(i.get_pixel(1, 1), [0, 0, 0, 255]);
}

#[test]
fn flood_fill_tolerance_is_inclusive() {
    assert_eq!(FILL_TOLERANCE, 30);
    // second pixel differs by exactly 30 in total, third by 31 from the start
    let mut i = img(3, 1, &[[100, 100, 100, 255], [110, 110, 110, 255], [131, 100, 100, 255]]);
    flood_fill_pixels(&mut i, 0, 0, [0, 0, 0, 0]);
    assert_eq!(i.get_pixel(0, 0), [0, 0, 0, 0]);
    assert_eq!(i.get_pixel(1, 0), [0, 0, 0, 0]);
    assert_eq!(i.get_pixel(2, 0), [131, 100, 100, 255]);
}

#[test]
fn flood_fill_does_not_jump_diagonally() {
    let mut i = img(2, 2, &[[0, 0, 0, 0], [9, 99, 9, 9], [9, 99, 9, 9], [0, 0, 0, 0]]);
    flood_fill_pixels(&mut i, 0, 0, [1, 1, 1, 1]);
    assert_eq!(i.get_pixel(0, 0), [1, 1, 1, 1]);
    assert_eq!(i.get_pixel(1, 1), [0, 0, 0, 0]);
}

#[test]
fn flood_fill_with_the_start_colour_changes_nothing() {
    let mut i = img(2, 1, &[[5, 5, 5, 5], [6, 6, 6, 6]]);
    flood_fill_pixels(&mut i, 0, 0, [5, 5, 5, 5]);
    assert_eq!(i.get_pixel(1, 0), [6, 6, 6, 6]);
}

#[test]
fn box_blur_radius_zero_is_identity() {
    let src: Vec<u8> = (0..24).map(|v| v as u8 * 10).collect();
    assert_eq!(separable_box_blur_u8(&src, 3, 2, 0), src);
}

#[test]
fn box_blur_of_a_flat_image_stays_flat() {
    let src = vec![40u8; 4 * 4 * 4];
    assert_eq!(separable_box_blur_u8(&src, 4, 4, 2), src);
}

#[test]
fn box_blur_exact_values() {
    // one row of three pixels; channel 0 = 0, 30, 90; radius 1
    let src = vec![0u8, 0, 0, 0, 30, 0, 0, 0, 90, 0, 0, 0];
    let out = separable_box_blur_u8(&src, 3, 1, 1);
    // windows: [0,30] -> 15, [0,30,90] -> 40, [30,90] -> 60 (integer division)
    assert_eq!(out[0], 15);
    assert_eq!(out[4], 40);
    assert_eq!(out[8], 60);
}

#[test]
fn cropping_to_the_whole_image_changes_nothing() {
    let i = img(2, 2, &[[1, 2, 3, 4], [5, 6, 7, 8], [9, 10, 11, 12], [13, 14, 15, 16]]);
    assert_eq!(i.crop(0, 0, 2, 2).as_bytes(), i.as_bytes());
}

#[test]
fn filling_twice_is_filling_once() {
    let mut i = img(3, 1, &[[10, 10, 10, 10], [12, 12, 12, 12], [200, 0, 0, 255]]);
    flood_fill_pixels(&mut i, 0, 0, [1, 2, 3, 4]);
    let once = i.as_bytes().clone();
    flood_fill_pixels(&mut i, 0, 0, [1, 2, 3, 4]);
    assert_eq!(i.as_bytes(), &once);
}

#[test]
fn blur_of_radius_zero_on_random_bytes() {
    let src: Vec<u8> = (0..48u32).map(|v| (v * 37 % 251) as u8).collect();
    assert_eq!(separable_box_blur_u8(&src, 4, 3, 0), src);
}

#[test]
fn two_quarter_turns_make_a_half_turn() {
    let i = img(3, 2, &[[1, 0, 0, 0], [2, 0, 0, 0], [3, 0, 0, 0], [4, 0, 0, 0], [5, 0, 0, 0], [6, 0, 0, 0]]);
    let half = i.rotate_cw().rotate_cw();
    let mirrored = i.flip_h().flip_v();
    assert_eq!(half.as_bytes(), mirrored.as_bytes());
    assert_eq!((half.width(), half.height()), (3, 2));
    assert_eq!(half.get_pixel(0, 0), [6, 0, 0, 0]);
}
