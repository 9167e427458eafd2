use image_editor_core::editor::ImageEditor;
use image_editor_core::load::{decode_image, file_extension};
use image_editor_core::raster::RgbaImage;

fn png_bytes(w: u32, h: u32, px: [u8; 4]) -> Vec<u8> {
    let img = image::RgbaImage::from_pixel(w, h, image::Rgba(px));
    let mut out = std::io::Cursor::new(Vec::new());
    image::DynamicImage::ImageRgba8(img).write_to(&mut out, image::ImageFormat::Png).unwrap();
    out.into_inner()
}

#[test]
fn extensions_of_paths() {
    assert_eq!(file_extension("/home/a/photo.png"), "png");
    assert_eq!(file_extension("C:\\pics\\holiday.JPG"), "JPG");
    assert_eq!(file_extension("archive.tar.gz"), "gz");
    assert_eq!(file_extension("/home/a.b/noext"), "");
    assert_eq!(file_extension(".hidden"), "");
    assert_eq!(file_extension("dir/.hidden"), "");
    assert_eq!(file_extension("plain"), "");
}

#[test]
fn decoding_png_bytes() {
    let bytes = png_bytes(3, 2, [10, 20, 30, 40]);
    let img = decode_image(&bytes, "png").unwrap();
    assert_eq!((img.width(), img.height()), (3, 2));
    assert_eq!(img.get_pixel(2, 1), [10, 20, 30, 40]);
    assert_ne!(img.as_bytes(), &bytes);
}

#[test]
fn decoding_by_content_ignores_a_wrong_extension() {
    let bytes = png_bytes(1, 1, [1, 2, 3, 255]);
    assert_eq!(decode_image(&bytes, "jpg").unwrap().get_pixel(0, 0), [1, 2, 3, 255]);
}

#[test]
fn garbage_does_not_decode() {
    assert!(decode_image(&[1, 2, 3, 4, 5], "png").is_none());
    assert!(decode_image(&[], "").is_none());
}

#[test]
fn loading_an_image_file() {
    let bytes = png_bytes(4, 5, [9, 9, 9, 255]);
    let e = ImageEditor::load_from_bytes("/tmp/pic.png".to_string(), &bytes);
    let img = e.doc.image.as_ref().unwrap();
    assert_eq!((img.width(), img.height()), (4, 5));
    assert_eq!((e.resize_w, e.resize_h), (4, 5));
    assert!(e.texture_dirty && e.composite_dirty && !e.dirty);
    assert_eq!(e.file_path.as_deref(), Some("/tmp/pic.png"));
    assert_eq!(e.doc.layers.len(), 1);
}

#[test]
fn loading_what_does_not_decode_gives_a_fresh_editor() {
    let e = ImageEditor::load_from_bytes("/tmp/notes.txt".to_string(), b"hello");
    assert!(e.doc.image.is_none());
    assert_eq!(e.file_path, None);
    assert!(!e.texture_dirty && !e.composite_dirty);
}

#[test]
fn loading_a_decoded_raster() {
    let e = ImageEditor::load_decoded("x.bmp".to_string(), Some(RgbaImage::new_filled(2, 3, [1, 1, 1, 1])));
    assert_eq!((e.resize_w, e.resize_h), (2, 3));
    assert_eq!(e.file_path.as_deref(), Some("x.bmp"));
    let f = ImageEditor::load_decoded("x.bmp".to_string(), None);
    assert!(f.doc.image.is_none() && f.file_path.is_none());
}
