use image_editor_core::editor::ImageEditor;
use image_editor_core::history::UndoHistory;
use image_editor_core::raster::RgbaImage;
use image_editor_core::retouch::{warm_pixel, brighten_pixel, block_average};

#[test]
fn warming_moves_red_up_and_blue_down() {
    assert_eq!(warm_pixel([100, 50, 100, 7], 20), [120, 50, 80, 7]);
    assert_eq!(warm_pixel([100, 50, 100, 7], -20), [80, 50, 120, 7]);
    assert_eq!(warm_pixel([250, 50, 10, 7], 35), [255, 50, 0, 7]);
}

#[test]
fn warming_survives_extreme_shifts() {
    assert_eq!(warm_pixel([1, 2, 3, 4], i32::MIN), [0, 2, 255, 4]);
    assert_eq!(warm_pixel([1, 2, 3, 4], i32::MAX), [255, 2, 0, 4]);
}

#[test]
fn brightening_moves_colour_channels_only() {
    assert_eq!(brighten_pixel([10, 200, 250, 99], 10), [20, 210, 255, 99]);
    assert_eq!(brighten_pixel([10, 200, 250, 99], -45), [0, 155, 205, 99]);
}

#[test]
fn block_average_rounds_down() {
    let s = vec![[0u8, 10, 255, 255], [1, 11, 0, 255], [2, 13, 0, 0]];
    assert_eq!(block_average(&s), Some([1, 11, 85, 170]));
}

#[test]
fn empty_block_has_no_average() {
    assert_eq!(block_average(&Vec::new()), None);
}

#[test]
fn smudge_starts_from_the_background_pixel() {
    let mut e = ImageEditor::new();
    e.new_image(3, 2);
    e.doc.image.as_mut().unwrap().put_pixel(2, 1, [9, 8, 7, 6]);
    assert_eq!(e.smudge_source(2, 1), Some([9, 8, 7, 6]));
    assert_eq!(e.smudge_source(3, 1), None);
}

#[test]
fn smudge_has_no_source_without_an_image() {
    let e = ImageEditor::new();
    assert_eq!(e.smudge_source(0, 0), None);
}

#[test]
fn cropping_a_placed_image_records_undo_and_moves_it() {
    let mut e = ImageEditor::new();
    e.new_image(8, 8);
    let mut img = RgbaImage::new_filled(4, 4, [0, 0, 0, 255]);
    img.put_pixel(2, 1, [50, 60, 70, 255]);
    e.insert_image_layer(img, 1.0f32.to_bits(), 1.0f32.to_bits(), 4.0f32.to_bits(), 4.0f32.to_bits());
    e.history = UndoHistory::new();
    e.crop_image_layer(1, 1, 3, 3, 2.0f32.to_bits(), 2.0f32.to_bits(), 2.0f32.to_bits(), 2.0f32.to_bits());
    let p = &e.doc.image_layer_data[&0];
    assert_eq!((p.image.width(), p.image.height()), (2, 2));
    assert_eq!(p.image.get_pixel(1, 0), [50, 60, 70, 255]);
    assert_eq!(f32::from_bits(p.canvas_x_bits), 2.0);
    assert_eq!(f32::from_bits(p.display_w_bits), 2.0);
    assert!(e.history.can_undo());
    assert!(e.dirty);
}

#[test]
fn cropping_outside_a_placed_image_does_nothing() {
    let mut e = ImageEditor::new();
    e.new_image(8, 8);
    e.insert_image_layer(RgbaImage::new_filled(4, 4, [0, 0, 0, 255]), 0, 0, 4.0f32.to_bits(), 4.0f32.to_bits());
    e.history = UndoHistory::new();
    e.crop_image_layer(1, 1, 5, 3, 0, 0, 0, 0);
    e.crop_image_layer(2, 1, 2, 3, 0, 0, 0, 0);
    assert_eq!(e.doc.image_layer_data[&0].image.width(), 4);
    assert!(!e.history.can_undo());
}

#[test]
fn placing_an_image_layer_moves_and_sizes_it() {
    let mut e = ImageEditor::new();
    e.new_image(8, 8);
    e.insert_image_layer(RgbaImage::new_filled(4, 2, [0, 0, 0, 255]), 0, 0, 1.0f32.to_bits(), 1.0f32.to_bits());
    e.dirty = false;
    e.place_image_layer(1.5f32.to_bits(), 2.5f32.to_bits(), 4.0f32.to_bits(), 2.0f32.to_bits());
    let p = &e.doc.image_layer_data[&0];
    assert_eq!(f32::from_bits(p.canvas_x_bits), 1.5);
    assert_eq!(f32::from_bits(p.canvas_y_bits), 2.5);
    assert_eq!(f32::from_bits(p.display_w_bits), 4.0);
    assert_eq!(f32::from_bits(p.display_h_bits), 2.0);
    assert!(e.dirty && e.composite_dirty);
}

#[test]
fn placing_without_an_image_layer_does_nothing() {
    let mut e = ImageEditor::new();
    e.new_image(8, 8);
    e.dirty = false;
    e.place_image_layer(1, 2, 3, 4);
    assert!(!e.dirty);
    assert!(e.doc.image_layer_data.is_empty());
}

#[test]
fn background_edits_go_through_the_composite_under_image_layers() {
    let mut e = ImageEditor::new();
    e.new_image(8, 8);
    e.texture_dirty = true;
    e.texture_dirty_rect = Some([1, 1, 3, 3]);
    e.composite_dirty = false;
    e.promote_dirty_to_composite();
    assert_eq!(e.texture_dirty_rect, Some([1, 1, 3, 3]));
    assert!(!e.composite_dirty);
    e.insert_image_layer(RgbaImage::new_filled(2, 2, [0, 0, 0, 255]), 0, 0, 1.0f32.to_bits(), 1.0f32.to_bits());
    e.composite_dirty = false;
    e.texture_dirty_rect = Some([1, 1, 3, 3]);
    e.promote_dirty_to_composite();
    assert_eq!(e.texture_dirty_rect, None);
    assert!(e.composite_dirty && e.texture_dirty);
}

#[test]
fn uniform_block_keeps_its_colour() {
    let s = vec![[12u8, 34, 56, 78]; 7];
    assert_eq!(block_average(&s), Some([12, 34, 56, 78]));
}

#[test]
fn warming_then_cooling_gives_back_the_pixel() {
    let p = [100u8, 20, 90, 255];
    assert_eq!(warm_pixel(warm_pixel(p, 17), -17), p);
}
