use image_editor_core::labels::{BlendMode, RetouchMode, BrushShape, BrushTextureMode, BrushPreset};
use image_editor_core::export::{ExportFormat, PngCompression, png_compression_for, ico_needs_downscale,
    export_size_error, export_file_name};
use image_editor_core::cache::{cache_dir_name, cache_is_fresh, raster_file_name, placed_file_name, cache_size_kb};
use image_editor_core::commands::{window_title, command_for, EditorCommand};
use image_editor_core::text::push_decimal;

#[test]
fn blend_mode_labels_in_menu_order() {
    let labels: Vec<&str> = BlendMode::all().iter().map(|m| m.label()).collect();
    assert_eq!(labels, vec!["Normal", "Multiply", "Screen", "Overlay", "Soft Light", "Hard Light",
        "Darken", "Lighten", "Difference", "Exclusion"]);
}

#[test]
fn retouch_mode_labels() {
    let labels: Vec<(&str, &str)> = RetouchMode::all().iter().map(|m| (m.label(), m.strength_label())).collect();
    assert_eq!(labels, vec![("Blur", "Radius"), ("Sharpen", "Amount"), ("Smudge", "Strength"),
        ("Vibrance", "Boost"), ("Saturation", "Amount"), ("Temperature", "Shift"),
        ("Brightness", "Amount"), ("Pixelate", "Block Size")]);
}

#[test]
fn brush_labels() {
    let shapes: Vec<&str> = BrushShape::all().iter().map(|s| s.label()).collect();
    assert_eq!(shapes, vec!["Circle", "Square", "Diamond", "Flat"]);
    let textures: Vec<&str> = BrushTextureMode::all().iter().map(|t| t.label()).collect();
    assert_eq!(textures, vec!["None", "Rough", "Canvas", "Paper"]);
    let presets: Vec<&str> = BrushPreset::all().iter().map(|p| p.label()).collect();
    assert_eq!(presets, vec!["Regular", "Pencil", "Pen", "Crayon", "Marker", "Calligraphy", "Spray",
        "Watercolor", "Charcoal", "Airbrush"]);
}

#[test]
fn export_format_names_and_extensions() {
    let all = ExportFormat::all();
    let names: Vec<&str> = all.iter().map(|f| f.as_str()).collect();
    let exts: Vec<&str> = all.iter().map(|f| f.extension()).collect();
    assert_eq!(names, vec!["JPEG", "PNG", "WebP", "BMP", "TIFF", "ICO"]);
    assert_eq!(exts, vec!["jpg", "png", "webp", "bmp", "tiff", "ico"]);
}

#[test]
fn png_compression_levels() {
    assert_eq!(png_compression_for(0), PngCompression::Fast);
    assert_eq!(png_compression_for(3), PngCompression::Fast);
    assert_eq!(png_compression_for(4), PngCompression::Default);
    assert_eq!(png_compression_for(6), PngCompression::Default);
    assert_eq!(png_compression_for(7), PngCompression::Best);
    assert_eq!(png_compression_for(255), PngCompression::Best);
}

#[test]
fn ico_size_limit() {
    assert!(!ico_needs_downscale(256, 256));
    assert!(ico_needs_downscale(257, 10));
    assert!(ico_needs_downscale(10, 300));
    assert_eq!(export_size_error(ExportFormat::Png, 4000, 4000), None);
    assert_eq!(export_size_error(ExportFormat::Ico, 256, 1), None);
    assert_eq!(export_size_error(ExportFormat::Ico, 300, 20).as_deref(),
        Some("ICO format requires dimensions \u{2264}256px. Image is 300x20. Enable auto-scaling."));
}

#[test]
fn export_file_names() {
    assert_eq!(export_file_name(Some("photo"), ExportFormat::Jpeg), "photo.jpg");
    assert_eq!(export_file_name(None, ExportFormat::Webp), "export.webp");
}

#[test]
fn decimal_digits() {
    let mut s = String::from("n=");
    push_decimal(&mut s, 0);
    push_decimal(&mut s, 4294967295);
    assert_eq!(s, "n=04294967295");
}

#[test]
fn cache_dir_names_are_sixteen_lower_hex_digits() {
    assert_eq!(cache_dir_name(0), "0000000000000000");
    assert_eq!(cache_dir_name(0xdead_beef_0123_4567), "deadbeef01234567");
    assert_eq!(cache_dir_name(u64::MAX), "ffffffffffffffff");
    assert_eq!(cache_dir_name(0xab), format!("{:016x}", 0xabu64));
}

#[test]
fn cache_freshness() {
    assert!(cache_is_fresh(0, 12345));
    assert!(cache_is_fresh(12345, 12345));
    assert!(!cache_is_fresh(12345, 12346));
}

#[test]
fn cache_file_names() {
    assert_eq!(raster_file_name(7), "r7.png");
    assert_eq!(placed_file_name(12), "i12.png");
}

#[test]
fn cache_sizes_in_kib() {
    assert_eq!(cache_size_kb(&vec![]), 0);
    assert_eq!(cache_size_kb(&vec![1000, 24, 1023]), 1);
    assert_eq!(cache_size_kb(&vec![1000, 24, 1024]), 2);
}

#[test]
fn window_titles() {
    assert_eq!(window_title(Some("a.png"), false), "a.png");
    assert_eq!(window_title(Some("a.png"), true), "a.png *");
    assert_eq!(window_title(None, true), "Untitled *");
}

#[test]
fn menu_labels_map_to_commands() {
    assert_eq!(command_for("Flip Horizontal"), Some(EditorCommand::FlipHorizontal));
    assert_eq!(command_for("Layer Merge Down"), Some(EditorCommand::LayerMergeDown));
    assert_eq!(command_for("Gray"), Some(EditorCommand::Gray));
    assert_eq!(command_for("gray"), None);
}
