use image_editor_core::editor::ImageEditor;
use image_editor_core::history::UndoHistory;
use image_editor_core::labels::{LayerKind, Tool};
use image_editor_core::layers::TextLayer;
use image_editor_core::raster::RgbaImage;
use image_editor_core::color::RgbaColor;
use image_editor_core::stroke::StrokeGesture;

fn empty_text(id: u64) -> TextLayer {
    TextLayer {
        id,
        content: String::new(),
        img_x_bits: 0,
        img_y_bits: 0,
        font_size_bits: 24.0f32.to_bits(),
        box_width_bits: None,
        box_height_bits: None,
        rotation_bits: 0,
        color: RgbaColor { r: 0, g: 0, b: 0, a: 255 },
        bold: false,
        italic: false,
        underline: false,
        font_name: "Ubuntu".to_string(),
        rendered_height_bits: 0,
    }
}

fn editing_an_empty_text() -> ImageEditor {
    let mut e = ImageEditor::new();
    e.new_image(4, 4);
    e.create_text_layer(empty_text(0));
    e.tool = Tool::Text;
    e
}

#[test]
fn choosing_the_text_tool_keeps_the_text_being_edited() {
    let mut e = editing_an_empty_text();
    e.choose_tool(Tool::Text);
    assert_eq!(e.tool, Tool::Text);
    assert_eq!(e.selected_text, Some(0));
    assert!(e.editing_text);
    assert_eq!(e.doc.text_layers.len(), 1);
}

#[test]
fn choosing_another_tool_ends_text_editing() {
    let mut e = editing_an_empty_text();
    e.choose_tool(Tool::Brush);
    assert_eq!(e.tool, Tool::Brush);
    assert_eq!(e.selected_text, None);
    assert!(!e.editing_text);
    assert!(e.doc.text_layers.is_empty());
    assert_eq!(e.doc.layers.iter().filter(|l| l.kind == LayerKind::Text).count(), 0);
}

#[test]
fn single_keys_wait_while_typing() {
    let mut e = ImageEditor::new();
    assert!(e.single_keys_active(false));
    assert!(!e.single_keys_active(true));
    e.editing_text = true;
    assert!(!e.single_keys_active(false));
}

#[test]
fn confirming_a_crop_needs_the_crop_tool_and_both_corners() {
    let mut e = ImageEditor::new();
    e.tool = Tool::Brush;
    assert!(!e.crop_confirm_applies(true, true));
    e.tool = Tool::Crop;
    assert!(e.crop_confirm_applies(true, true));
    assert!(!e.crop_confirm_applies(true, false));
    assert!(!e.crop_confirm_applies(false, true));
}

#[test]
fn deleting_needs_a_selected_placed_image() {
    let mut e = ImageEditor::new();
    e.new_image(4, 4);
    assert!(!e.can_delete_selected_image());
    e.insert_image_layer(RgbaImage::new_filled(2, 2, [5, 5, 5, 255]), 0, 0, 2.0f32.to_bits(), 2.0f32.to_bits());
    assert!(e.can_delete_selected_image());
    e.selected_image_layer = None;
    assert!(!e.can_delete_selected_image());
}

#[test]
fn a_drag_records_one_undo_and_draws_segment_by_segment() {
    let mut e = ImageEditor::new();
    e.new_image(4, 4);
    e.tool = Tool::Brush;
    e.history = UndoHistory::new();
    let mut g = StrokeGesture::new();
    assert!(!e.history.can_undo());
    assert!(!e.stroke_drag_frame(&mut g, true));
    assert!(e.history.can_undo());
    assert_eq!((g.dragging, g.pending), (true, 1));
    e.undo();
    assert!(!e.history.can_undo());
    assert!(e.stroke_drag_frame(&mut g, true));
    assert!(!e.history.can_undo());
    assert!(!e.stroke_drag_frame(&mut g, false));
    assert_eq!(g.pending, 1);
    assert!(e.stroke_drag_frame(&mut g, true));
    e.composite_dirty = false;
    e.stroke_release(&mut g);
    assert_eq!(g, StrokeGesture::new());
    assert!(e.composite_dirty);
}

#[test]
fn a_drag_that_starts_off_the_canvas_draws_nothing_at_first() {
    let mut e = ImageEditor::new();
    e.new_image(4, 4);
    let mut g = StrokeGesture::new();
    assert!(!e.stroke_drag_frame(&mut g, false));
    assert_eq!((g.dragging, g.pending), (true, 0));
    assert!(!e.stroke_drag_frame(&mut g, true));
    assert!(e.stroke_drag_frame(&mut g, true));
}

#[test]
fn releasing_under_another_tool_changes_nothing() {
    let mut e = ImageEditor::new();
    e.tool = Tool::Crop;
    let mut g = StrokeGesture { dragging: true, pending: 1 };
    e.composite_dirty = false;
    e.stroke_release(&mut g);
    assert_eq!(g, StrokeGesture { dragging: true, pending: 1 });
    assert!(!e.composite_dirty);
}
