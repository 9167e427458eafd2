use image_editor_core::editor::ImageEditor;
use image_editor_core::color::RgbaColor;
use image_editor_core::raster::RgbaImage;
use image_editor_core::stroke::{StrokeTarget, StrokePaint};

#[test]
fn brush_on_the_background_uses_the_colour() {
    let mut e = ImageEditor::new();
    e.new_image(4, 4);
    e.color = RgbaColor { r: 1, g: 2, b: 3, a: 200 };
    let (t, p) = e.stroke_plan(2, false, false);
    assert_eq!(t, StrokeTarget::Background);
    assert_eq!(p, StrokePaint { r: 1, g: 2, b: 3, alpha: 200, clears: false });
    assert_eq!(e.stroke_plan(1, false, false).0, StrokeTarget::Nothing);
}

#[test]
fn eraser_on_the_background_paints_white_unless_transparent() {
    let mut e = ImageEditor::new();
    e.new_image(4, 4);
    assert_eq!(e.stroke_plan(3, true, false).1, StrokePaint { r: 255, g: 255, b: 255, alpha: 255, clears: false });
    assert!(e.stroke_plan(3, true, true).1.clears);
}

#[test]
fn strokes_on_layers() {
    let mut e = ImageEditor::new();
    e.new_image(4, 4);
    e.new_raster_layer();
    let id = e.doc.active_layer_id;
    let (t, p) = e.stroke_plan(2, true, false);
    assert_eq!(t, StrokeTarget::Layer(id));
    assert!(p.clears);
    e.toggle_layer_locked(1);
    assert_eq!(e.stroke_plan(2, false, false).0, StrokeTarget::Nothing);
    e.insert_image_layer(RgbaImage::new_filled(2, 2, [0, 0, 0, 255]), 0, 0, 0, 0);
    assert_eq!(e.stroke_plan(2, false, false).0, StrokeTarget::Placed(0));
}

#[test]
fn nothing_to_draw_on_without_an_image() {
    let e = ImageEditor::new();
    assert_eq!(e.stroke_plan(5, false, false).0, StrokeTarget::Nothing);
}
