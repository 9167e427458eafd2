use image_editor_core::editor::ImageEditor;
use image_editor_core::history::UndoHistory;
use image_editor_core::labels::{BlendMode, FilterPanel, LayerKind, Tool};
use image_editor_core::panel::FilterAction;
use image_editor_core::layers::TextLayer;
use image_editor_core::color::RgbaColor;
use image_editor_core::raster::RgbaImage;

fn editor_with_layers() -> ImageEditor {
    let mut e = ImageEditor::new();
    e.new_image(4, 4);
    e.new_raster_layer();
    e.new_raster_layer();
    e
}

fn ids(e: &ImageEditor) -> Vec<u64> {
    e.doc.layers.iter().map(|l| l.id).collect()
}

fn text(id: u64, content: &str) -> TextLayer {
    TextLayer {
        id,
        content: content.to_string(),
        img_x_bits: 0,
        img_y_bits: 0,
        font_size_bits: 24.0f32.to_bits(),
        box_width_bits: None,
        box_height_bits: None,
        rotation_bits: 0,
        color: RgbaColor { r: 0, g: 0, b: 0, a: 255 },
        bold: false,
        italic: false,
        underline: false,
        font_name: "Ubuntu".to_string(),
        rendered_height_bits: 0,
    }
}

#[test]
fn toggling_visibility_and_lock() {
    let mut e = editor_with_layers();
    e.composite_dirty = false;
    e.toggle_layer_visible(1);
    assert!(!e.doc.layers[1].visible);
    assert!(e.composite_dirty && e.dirty);
    e.toggle_layer_locked(2);
    assert!(e.doc.layers[2].locked);
    e.toggle_layer_locked(2);
    assert!(!e.doc.layers[2].locked);
}

#[test]
fn opacity_and_blend_of_a_layer() {
    let mut e = editor_with_layers();
    e.set_layer_opacity(1, 0.5f32.to_bits());
    assert_eq!(f32::from_bits(e.doc.layers[1].opacity_bits), 0.5);
    e.set_layer_blend(2, BlendMode::Screen);
    assert_eq!(e.doc.layers[2].blend_mode, BlendMode::Screen);
}

#[test]
fn renaming_keeps_empty_names_out() {
    let mut e = editor_with_layers();
    let id = e.doc.layers[1].id;
    e.rename_layer(id, "Sky".to_string());
    assert_eq!(e.doc.layers[1].name, "Sky");
    e.rename_layer(id, String::new());
    assert_eq!(e.doc.layers[1].name, "Sky");
    e.rename_layer(999, "Nothing".to_string());
    assert_eq!(e.doc.layers[1].name, "Sky");
}

#[test]
fn reordering_swaps_two_layers_with_undo() {
    let mut e = editor_with_layers();
    let before = ids(&e);
    e.history = UndoHistory::new();
    e.reorder_layers(1, 2);
    assert_eq!(ids(&e), vec![before[0], before[2], before[1]]);
    assert!(e.history.can_undo());
    e.undo();
    assert_eq!(ids(&e), before);
}

#[test]
fn deleting_from_the_panel() {
    let mut e = editor_with_layers();
    let before = ids(&e);
    e.doc.active_layer_id = before[2];
    e.delete_layer_at(2);
    assert_eq!(ids(&e), vec![before[0], before[1]]);
    assert_eq!(e.doc.active_layer_id, before[1]);
    e.delete_layer_at(0);
    assert_eq!(ids(&e), vec![before[0], before[1]]);
}

#[test]
fn selecting_a_text_layer_opens_it_for_editing() {
    let mut e = ImageEditor::new();
    e.new_image(4, 4);
    e.doc.text_layers.push(text(0, "héllo"));
    e.ensure_layer_entry_for_text(0);
    let idx = e.doc.layers.iter().position(|l| l.kind == LayerKind::Text).unwrap();
    e.select_layer(0);
    e.select_layer(idx);
    assert_eq!(e.tool, Tool::Text);
    assert_eq!(e.selected_text, Some(0));
    assert!(e.editing_text);
    assert_eq!(e.text_cursor, "héllo".len());
    assert_eq!(e.text_sel_anchor, None);
}

#[test]
fn selecting_an_image_layer_selects_its_image() {
    let mut e = ImageEditor::new();
    e.new_image(4, 4);
    e.insert_image_layer(RgbaImage::new_filled(2, 2, [0, 0, 0, 255]), 0, 0, 0, 0);
    e.select_layer(0);
    assert_eq!(e.selected_image_layer, None);
    assert_eq!(e.doc.active_layer_id, e.doc.layers[0].id);
    e.select_layer(1);
    assert_eq!(e.selected_image_layer, Some(0));
    assert!(!e.editing_text);
}

#[test]
fn toggling_visibility_twice_restores_the_layer() {
    let mut e = editor_with_layers();
    let before = e.doc.layers[2].visible;
    e.toggle_layer_visible(2);
    e.toggle_layer_visible(2);
    assert_eq!(e.doc.layers[2].visible, before);
}

#[test]
fn reordering_twice_restores_the_stack() {
    let mut e = editor_with_layers();
    let before = ids(&e);
    e.reorder_layers(1, 2);
    e.reorder_layers(1, 2);
    assert_eq!(ids(&e), before);
}

#[test]
fn a_new_text_gets_the_next_id_and_a_layer() {
    let mut e = ImageEditor::new();
    e.new_image(4, 4);
    let mut t = text(77, "ignored");
    t.bold = true;
    e.create_text_layer(t);
    assert_eq!(e.doc.text_layers.len(), 1);
    assert_eq!(e.doc.text_layers[0].id, 0);
    assert_eq!(e.doc.text_layers[0].content, "");
    assert!(e.doc.text_layers[0].bold);
    assert_eq!(e.doc.next_text_id, 1);
    assert_eq!(e.selected_text, Some(0));
    assert!(e.editing_text);
    assert_eq!(e.text_cursor, 0);
    let l = e.doc.layers.iter().find(|l| l.linked_text_id == Some(0)).unwrap();
    assert_eq!(l.name, "Text 1");
    assert_eq!(e.doc.active_layer_id, l.id);
}

#[test]
fn starting_another_text_drops_the_empty_one() {
    let mut e = ImageEditor::new();
    e.new_image(4, 4);
    e.create_text_layer(text(0, ""));
    e.create_text_layer(text(0, ""));
    assert_eq!(e.doc.text_layers.len(), 1);
    assert_eq!(e.doc.text_layers[0].id, 1);
    assert_eq!(e.doc.layers.iter().filter(|l| l.kind == LayerKind::Text).count(), 1);
}

#[test]
fn clicking_a_text_opens_it_at_its_end() {
    let mut e = ImageEditor::new();
    e.new_image(4, 4);
    e.doc.text_layers.push(text(5, "abc"));
    e.ensure_layer_entry_for_text(5);
    let link = e.doc.layers.iter().find(|l| l.linked_text_id == Some(5)).unwrap().id;
    e.doc.active_layer_id = e.doc.layers[0].id;
    e.open_text_layer(5);
    assert_eq!(e.selected_text, Some(5));
    assert!(e.editing_text);
    assert_eq!(e.text_cursor, 3);
    assert_eq!(e.doc.active_layer_id, link);
}

#[test]
fn pan_click_on_a_text_selects_without_editing() {
    let mut e = ImageEditor::new();
    e.new_image(4, 4);
    e.doc.text_layers.push(text(5, "abc"));
    e.ensure_layer_entry_for_text(5);
    e.selected_image_layer = Some(3);
    e.select_text_layer(5);
    assert_eq!(e.selected_text, Some(5));
    assert!(!e.editing_text);
    assert_eq!(e.selected_image_layer, None);
}

#[test]
fn deselecting_commits_the_text() {
    let mut e = ImageEditor::new();
    e.new_image(4, 4);
    e.create_text_layer(text(0, ""));
    e.selected_image_layer = Some(1);
    e.deselect_all();
    assert_eq!(e.selected_text, None);
    assert_eq!(e.selected_image_layer, None);
    assert!(e.doc.text_layers.is_empty());
}

#[test]
fn preview_then_cancel_gives_back_the_document() {
    let mut e = editor_with_layers();
    let before: Vec<u64> = ids(&e);
    assert!(e.filter_action(FilterAction::Preview));
    assert!(e.filter_preview_active && e.processing_is_preview);
    e.new_raster_layer();
    assert!(!e.filter_action(FilterAction::Cancel));
    assert_eq!(ids(&e), before);
    assert!(!e.filter_preview_active);
}

#[test]
fn applying_without_preview_records_undo_and_asks_to_run() {
    let mut e = editor_with_layers();
    e.filter_panel = FilterPanel::Blur;
    e.history = UndoHistory::new();
    assert!(e.filter_action(FilterAction::Apply));
    assert!(e.history.can_undo());
    assert_eq!(e.filter_panel, FilterPanel::Closed);
}

#[test]
fn undo_after_a_panel_delete_keeps_the_new_active_layer() {
    let mut e = editor_with_layers();
    let before = ids(&e);
    e.doc.active_layer_id = before[2];
    e.history = UndoHistory::new();
    e.delete_layer_at(2);
    e.undo();
    assert_eq!(ids(&e), before);
    assert_eq!(e.doc.active_layer_id, before[1]);
}

#[test]
fn the_lowest_slot_is_never_reordered() {
    let mut e = editor_with_layers();
    let before = ids(&e);
    e.history = UndoHistory::new();
    e.reorder_layers(0, 2);
    e.reorder_layers(1, 1);
    assert_eq!(ids(&e), before);
    assert!(!e.history.can_undo());
}
