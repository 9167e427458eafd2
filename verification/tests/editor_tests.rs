use std::collections::HashMap;
use image_editor_core::editor::ImageEditor;
use image_editor_core::layers::{TextLayer, ImageLayer, OPACITY_ONE};
use image_editor_core::labels::{LayerKind, BlendMode, Tool, FilterPanel};
use image_editor_core::raster::RgbaImage;
use image_editor_core::color::RgbaColor;
use image_editor_core::text_edit::TextEvent;
use image_editor_core::tools::PaintTarget;
use image_editor_core::cache::{LoadedCache, apply_cache};

fn editor_with_image(w: u32, h: u32) -> ImageEditor {
    let mut e = ImageEditor::new();
    e.new_image(w, h);
    e
}

fn names(e: &ImageEditor) -> Vec<String> {
    e.doc.layers.iter().map(|l| l.name.clone()).collect()
}

fn ids(e: &ImageEditor) -> Vec<u64> {
    e.doc.layers.iter().map(|l| l.id).collect()
}

fn text_layer(id: u64, content: &str) -> TextLayer {
    TextLayer {
        id,
        content: content.to_string(),
        img_x_bits: 0,
        img_y_bits: 0,
        font_size_bits: 24.0f32.to_bits(),
        box_width_bits: None,
        box_height_bits: None,
        rotation_bits: 0,
        color: RgbaColor { r: 0, g: 0, b: 0, a: 255 },
        bold: false,
        italic: false,
        underline: false,
        font_name: "Ubuntu".to_string(),
        rendered_height_bits: 0,
    }
}

#[test]
fn new_editor_starts_with_a_background_layer() {
    let e = ImageEditor::new();
    assert!(!e.is_dirty());
    assert_eq!(names(&e), vec!["Background"]);
    assert_eq!(e.doc.layers[0].opacity_bits, 1.0f32.to_bits());
    assert_eq!(e.tool, Tool::Brush);
    assert_eq!(e.hex_input, "#000000FF");
    assert!(e.doc.image.is_none());
}

#[test]
fn new_image_is_white_and_undoable() {
    let mut e = editor_with_image(4, 3);
    let img = e.doc.image.as_ref().unwrap();
    assert_eq!((img.width(), img.height()), (4, 3));
    assert_eq!(img.get_pixel(3, 2), [255, 255, 255, 255]);
    assert_eq!((e.resize_w, e.resize_h), (4, 3));
    assert!(e.is_dirty());
    e.undo();
    assert!(e.doc.image.is_none());
}

#[test]
fn new_raster_layer_goes_above_the_active_one() {
    let mut e = editor_with_image(2, 2);
    e.new_raster_layer();
    assert_eq!(names(&e), vec!["Background", "Layer 1"]);
    assert_eq!(e.doc.active_layer_id, 1);
    assert_eq!(e.doc.layer_images[&1].get_pixel(1, 1), [0, 0, 0, 0]);
    e.doc.active_layer_id = 0;
    e.new_raster_layer();
    assert_eq!(names(&e), vec!["Background", "Layer 2", "Layer 1"]);
    assert_eq!(e.doc.layers[1].kind, LayerKind::Raster);
    assert_eq!(e.doc.layers[1].blend_mode, BlendMode::Normal);
}

#[test]
fn new_raster_layer_needs_an_image() {
    let mut e = ImageEditor::new();
    e.new_raster_layer();
    assert_eq!(e.doc.layers.len(), 1);
    assert!(!e.history.can_undo());
}

#[test]
fn undo_and_redo_a_layer() {
    let mut e = editor_with_image(2, 2);
    e.new_raster_layer();
    e.undo();
    assert_eq!(ids(&e), vec![0]);
    assert!(e.doc.layer_images.is_empty());
    e.redo();
    assert_eq!(ids(&e), vec![0, 1]);
    assert!(e.doc.layer_images.contains_key(&1));
}

#[test]
fn duplicate_background_becomes_a_raster_copy() {
    let mut e = editor_with_image(2, 2);
    e.duplicate_active_layer();
    assert_eq!(names(&e), vec!["Background", "Background (copy)"]);
    assert_eq!(e.doc.layers[1].kind, LayerKind::Raster);
    assert_eq!(e.doc.layer_images[&1].get_pixel(0, 0), [255, 255, 255, 255]);
    e.duplicate_active_layer();
    assert_eq!(names(&e), vec!["Background", "Background (copy)", "Background (copy) copy"]);
}

#[test]
fn duplicate_text_layer_copies_the_text() {
    let mut e = editor_with_image(2, 2);
    e.doc.text_layers.push(text_layer(0, "hi"));
    e.doc.next_text_id = 1;
    e.ensure_layer_entry_for_text(0);
    assert_eq!(names(&e), vec!["Background", "Text 1"]);
    e.duplicate_active_layer();
    assert_eq!(e.doc.text_layers.len(), 2);
    assert_eq!(e.doc.text_layers[1].id, 1);
    assert_eq!(e.doc.text_layers[1].content, "hi");
    assert_eq!(e.doc.layers[2].linked_text_id, Some(1));
    // an existing entry is not added twice
    e.ensure_layer_entry_for_text(0);
    assert_eq!(e.doc.layers.len(), 3);
}

#[test]
fn delete_keeps_the_last_layer_and_activates_the_one_below() {
    let mut e = editor_with_image(2, 2);
    e.delete_active_layer();
    assert_eq!(e.doc.layers.len(), 1);
    e.new_raster_layer();
    e.new_raster_layer();
    assert_eq!(ids(&e), vec![0, 1, 2]);
    e.delete_active_layer();
    assert_eq!(ids(&e), vec![0, 1]);
    assert_eq!(e.doc.active_layer_id, 1);
    assert!(!e.doc.layer_images.contains_key(&2));
}

#[test]
fn move_up_then_down_restores_the_stack() {
    let mut e = editor_with_image(2, 2);
    e.new_raster_layer();
    e.new_raster_layer();
    e.doc.active_layer_id = 1;
    e.move_layer_up();
    assert_eq!(ids(&e), vec![0, 2, 1]);
    e.move_layer_down();
    assert_eq!(ids(&e), vec![0, 1, 2]);
    // nothing moves into the lowest slot
    e.move_layer_down();
    assert_eq!(ids(&e), vec![0, 1, 2]);
}

#[test]
fn merge_down_replaces_the_lower_raster() {
    let mut e = editor_with_image(2, 2);
    e.new_raster_layer();
    let idx = e.merge_down_plan().unwrap();
    assert_eq!(idx, 1);
    assert!(e.layer_raster_at(idx).is_some());
    assert!(e.layer_raster_at(idx - 1).is_some());
    e.apply_merge_down(Some(RgbaImage::new_filled(2, 2, [1, 2, 3, 4])));
    assert_eq!(ids(&e), vec![0]);
    assert_eq!(e.doc.active_layer_id, 0);
    assert_eq!(e.doc.image.as_ref().unwrap().get_pixel(0, 0), [1, 2, 3, 4]);
    assert_eq!(e.merge_down_plan(), None);
}

#[test]
fn flatten_leaves_only_the_background() {
    let mut e = editor_with_image(2, 2);
    e.new_raster_layer();
    e.doc.text_layers.push(text_layer(0, "x"));
    e.flatten_all_layers(Some(RgbaImage::new_filled(2, 2, [9, 9, 9, 9])));
    assert_eq!(names(&e), vec!["Background"]);
    assert!(e.doc.layer_images.is_empty());
    assert!(e.doc.text_layers.is_empty());
    assert_eq!(e.doc.image.as_ref().unwrap().get_pixel(1, 1), [9, 9, 9, 9]);
    e.flatten_all_layers(None);
    assert_eq!(e.doc.layers.len(), 1);
}

#[test]
fn image_layers_are_placed_flipped_and_rasterized() {
    let mut e = editor_with_image(4, 4);
    e.insert_image_layer(RgbaImage::new_filled(2, 2, [5, 5, 5, 255]), 1.0f32.to_bits(), 1.0f32.to_bits(),
        2.0f32.to_bits(), 2.0f32.to_bits());
    assert_eq!(names(&e), vec!["Background", "Image 1"]);
    assert_eq!(e.tool, Tool::Pan);
    assert_eq!(e.image_layer_for_active(), Some(0));
    assert_eq!(e.selected_image_layer, Some(0));
    e.flip_image_layer_h();
    assert!(e.doc.image_layer_data[&0].flip_h);
    e.flip_image_layer_v();
    assert!(e.doc.image_layer_data[&0].flip_v);
    let (idx, iid) = e.rasterize_plan().unwrap();
    assert_eq!((idx, iid), (1, 0));
    e.apply_rasterize(RgbaImage::new_filled(4, 4, [0, 0, 0, 0]));
    assert_eq!(e.doc.layers[1].kind, LayerKind::Raster);
    assert_eq!(e.doc.layers[1].name, "Image 1");
    assert!(e.doc.image_layer_data.is_empty());
    assert_eq!(e.selected_image_layer, None);
}

#[test]
fn flood_fill_uses_the_current_colour() {
    let mut e = editor_with_image(3, 2);
    e.color = RgbaColor { r: 255, g: 0, b: 0, a: 255 };
    e.flood_fill(1, 1);
    assert_eq!(e.doc.image.as_ref().unwrap().get_pixel(0, 0), [255, 0, 0, 255]);
    e.new_raster_layer();
    e.flood_fill(0, 0);
    assert_eq!(e.doc.layer_images[&1].get_pixel(2, 1), [255, 0, 0, 255]);
    e.doc.layers[1].locked = true;
    e.color = RgbaColor { r: 0, g: 255, b: 0, a: 255 };
    e.flood_fill(0, 0);
    assert_eq!(e.doc.layer_images[&1].get_pixel(2, 1), [255, 0, 0, 255]);
}

#[test]
fn grayscale_uses_integer_luma_weights() {
    let mut e = editor_with_image(1, 1);
    e.doc.image.as_mut().unwrap().put_pixel(0, 0, [100, 150, 200, 77]);
    assert_eq!(e.paint_target(), PaintTarget::Background);
    e.apply_grayscale();
    // (2126*100 + 7152*150 + 722*200) / 10000 = 142
    assert_eq!(e.doc.image.as_ref().unwrap().get_pixel(0, 0), [142, 142, 142, 77]);
    e.apply_grayscale();
    assert_eq!(e.doc.image.as_ref().unwrap().get_pixel(0, 0), [142, 142, 142, 77]);
}

#[test]
fn invert_on_a_text_layer_does_nothing() {
    let mut e = editor_with_image(1, 1);
    e.apply_invert();
    assert_eq!(e.doc.image.as_ref().unwrap().get_pixel(0, 0), [0, 0, 0, 255]);
    e.doc.text_layers.push(text_layer(0, "t"));
    e.ensure_layer_entry_for_text(0);
    assert_eq!(e.paint_target(), PaintTarget::TextLayer);
    e.dirty = false;
    e.apply_invert();
    assert!(!e.dirty);
    assert_eq!(e.doc.image.as_ref().unwrap().get_pixel(0, 0), [0, 0, 0, 255]);
}

#[test]
fn flips_and_rotations_of_the_background() {
    let mut e = editor_with_image(3, 2);
    e.doc.image.as_mut().unwrap().put_pixel(0, 0, [1, 1, 1, 1]);
    e.apply_flip_h();
    assert_eq!(e.doc.image.as_ref().unwrap().get_pixel(2, 0), [1, 1, 1, 1]);
    e.apply_flip_v();
    assert_eq!(e.doc.image.as_ref().unwrap().get_pixel(2, 1), [1, 1, 1, 1]);
    e.apply_rotate_cw();
    assert_eq!((e.resize_w, e.resize_h), (2, 3));
    e.apply_rotate_ccw();
    assert_eq!((e.resize_w, e.resize_h), (3, 2));
    assert_eq!(e.doc.image.as_ref().unwrap().get_pixel(2, 1), [1, 1, 1, 1]);
}

#[test]
fn crop_cuts_background_and_raster_layers() {
    let mut e = editor_with_image(4, 4);
    e.new_raster_layer();
    e.doc.image.as_mut().unwrap().put_pixel(2, 2, [7, 7, 7, 7]);
    e.apply_crop(1, 1, 10, 3);
    assert_eq!((e.resize_w, e.resize_h), (3, 2));
    assert_eq!(e.doc.image.as_ref().unwrap().get_pixel(1, 1), [7, 7, 7, 7]);
    let l = &e.doc.layer_images[&1];
    assert_eq!((l.width(), l.height()), (3, 2));
    // an empty rectangle changes nothing
    e.apply_crop(2, 2, 2, 5);
    assert_eq!((e.resize_w, e.resize_h), (3, 2));
}

#[test]
fn filter_results_land_on_their_layer() {
    let mut e = editor_with_image(2, 2);
    e.filter_panel = FilterPanel::Blur;
    e.complete_filter(RgbaImage::new_filled(1, 1, [0, 0, 0, 0]));
    assert_eq!(e.doc.image.as_ref().unwrap().width(), 2);
    e.is_processing = true;
    e.filter_target_layer_id = 0;
    e.complete_filter(RgbaImage::new_filled(1, 1, [3, 3, 3, 3]));
    assert_eq!(e.doc.image.as_ref().unwrap().width(), 1);
    assert_eq!((e.resize_w, e.resize_h), (1, 1));
    assert_eq!(e.filter_panel, FilterPanel::Closed);
    assert!(!e.is_processing);
}

#[test]
fn dirty_rectangle_grows() {
    let mut e = ImageEditor::new();
    e.expand_dirty_rect(5, 5, 6, 6);
    assert_eq!(e.texture_dirty_rect, Some([5, 5, 6, 6]));
    e.expand_dirty_rect(2, 7, 4, 9);
    assert_eq!(e.texture_dirty_rect, Some([2, 5, 6, 9]));
    let mut f = ImageEditor::new();
    f.texture_dirty = true;
    f.expand_dirty_rect(1, 1, 2, 2);
    assert_eq!(f.texture_dirty_rect, None);
}

#[test]
fn typing_into_a_text_layer_and_discarding_an_empty_one() {
    let mut e = editor_with_image(2, 2);
    e.doc.text_layers.push(text_layer(0, ""));
    e.ensure_layer_entry_for_text(0);
    e.selected_text = Some(0);
    e.editing_text = true;
    let copies = e.process_text_input(&vec![TextEvent::Text("hé".to_string()), TextEvent::SelectAll, TextEvent::Copy]);
    assert_eq!(copies, vec!["hé".to_string()]);
    assert_eq!(e.doc.text_layers[0].content, "hé");
    assert_eq!((e.text_cursor, e.text_sel_anchor), (3, Some(0)));
    // deleting everything and pressing Enter discards the text and its layer
    e.process_text_input(&vec![TextEvent::Delete, TextEvent::Enter { shift: false }]);
    assert!(e.doc.text_layers.is_empty());
    assert_eq!(ids(&e), vec![0]);
    assert_eq!(e.selected_text, None);
    assert!(!e.editing_text);
}

#[test]
fn committing_a_non_empty_text_keeps_it() {
    let mut e = editor_with_image(2, 2);
    e.doc.text_layers.push(text_layer(0, "keep"));
    e.ensure_layer_entry_for_text(0);
    e.selected_text = Some(0);
    e.editing_text = true;
    e.text_cursor = 4;
    e.commit_or_discard_active_text();
    assert_eq!(e.doc.text_layers.len(), 1);
    assert_eq!(e.doc.layers.len(), 2);
    assert_eq!(e.text_cursor, 0);
}

#[test]
fn text_layer_measures() {
    let t = text_layer(0, "ab\r\ncde\r\n\r\n");
    assert_eq!(t.line_count(), 3);
    assert_eq!(t.max_line_chars(), 3);
    assert_eq!(text_layer(0, "").line_count(), 1);
    assert_eq!(text_layer(0, "").max_line_chars(), 1);
    assert_eq!(text_layer(0, "xy\r").max_line_chars(), 3);
    let mut r = text_layer(0, "x");
    assert_eq!(r.font_family_name(), "Ubuntu");
    r.font_name = "Roboto".to_string();
    r.italic = true;
    assert_eq!(r.font_family_name(), "Roboto-Italic");
    r.bold = true;
    assert_eq!(r.font_family_name(), "Roboto-Bold");
}

#[test]
fn favourite_colour_hotkeys_pick_opaque_colours() {
    let mut e = ImageEditor::new();
    e.color_favorites.toggle(RgbaColor { r: 1, g: 2, b: 3, a: 4 });
    e.select_favorite_color(0);
    assert_eq!(e.color, RgbaColor { r: 1, g: 2, b: 3, a: 255 });
    assert_eq!(e.hex_input, "#010203");
    e.select_favorite_color(5);
    assert_eq!(e.color, RgbaColor { r: 1, g: 2, b: 3, a: 255 });
}

#[test]
fn menu_state_and_layers_below() {
    let mut e = editor_with_image(2, 2);
    let m = e.menu_state();
    assert!(m.has_image && m.can_undo && !m.can_redo && !m.several_layers && !m.can_merge);
    e.new_raster_layer();
    e.new_raster_layer();
    e.doc.layers[1].visible = false;
    let below = e.layers_below(2);
    assert_eq!(below, vec![(0, LayerKind::Background, BlendMode::Normal, OPACITY_ONE)]);
    assert!(e.menu_state().can_merge);
}

#[test]
fn applying_a_cache_replaces_the_document() {
    let mut e = editor_with_image(2, 2);
    let mut images = HashMap::new();
    images.insert(4u64, RgbaImage::new_filled(2, 2, [1, 1, 1, 1]));
    let layers = vec![
        ImageLayer { id: 0, name: "Background".to_string(), opacity_bits: OPACITY_ONE, visible: true, locked: false,
            blend_mode: BlendMode::Normal, kind: LayerKind::Background, linked_text_id: None, linked_image_id: None },
        ImageLayer { id: 4, name: "Layer 4".to_string(), opacity_bits: OPACITY_ONE, visible: true, locked: false,
            blend_mode: BlendMode::Multiply, kind: LayerKind::Raster, linked_text_id: None, linked_image_id: None },
    ];
    apply_cache(&mut e, LoadedCache {
        background: None,
        layers,
        layer_images: images,
        text_layers: vec![],
        image_layer_data: HashMap::new(),
        active_layer_id: 4,
        next_layer_id: 5,
        next_text_id: 0,
        next_image_layer_id: 0,
    });
    assert_eq!(ids(&e), vec![0, 4]);
    assert_eq!(e.doc.active_layer_id, 4);
    assert_eq!(e.doc.image.as_ref().unwrap().width(), 2);
    assert!(e.composite_dirty);
}

#[test]
fn grayscale_matches_the_image_crate() {
    let mut e = editor_with_image(2, 1);
    e.doc.image.as_mut().unwrap().put_pixel(0, 0, [12, 250, 99, 3]);
    e.doc.image.as_mut().unwrap().put_pixel(1, 0, [255, 255, 255, 0]);
    let before = image::RgbaImage::from_raw(2, 1, e.doc.image.as_ref().unwrap().as_bytes().clone()).unwrap();
    let expected = image::DynamicImage::ImageRgba8(before).grayscale().to_rgba8().into_raw();
    e.apply_grayscale();
    assert_eq!(e.doc.image.as_ref().unwrap().as_bytes(), &expected);
    let l = (2126 * 12 + 7152 * 250 + 722 * 99) / 10000;
    assert_eq!(e.doc.image.as_ref().unwrap().get_pixel(0, 0), [l as u8, l as u8, l as u8, 3]);
}

#[test]
fn cursor_keys_stay_on_character_boundaries() {
    let mut e = editor_with_image(2, 2);
    e.doc.text_layers.push(text_layer(0, "aé€b"));
    e.ensure_layer_entry_for_text(0);
    e.selected_text = Some(0);
    e.editing_text = true;
    e.text_cursor = 0;
    let evs = vec![
        TextEvent::ArrowRight { shift: false },
        TextEvent::ArrowRight { shift: true },
        TextEvent::ArrowRight { shift: true },
        TextEvent::Backspace,
        TextEvent::ArrowLeft { shift: false },
        TextEvent::End { shift: true },
    ];
    e.process_text_input(&evs);
    let c = &e.doc.text_layers[0].content;
    assert_eq!(c, "ab");
    assert!(c.is_char_boundary(e.text_cursor) && e.text_cursor <= c.len());
    let a = e.text_sel_anchor.unwrap();
    assert!(c.is_char_boundary(a) && a <= c.len());
    assert_eq!((e.text_cursor, a), (2, 0));
}
