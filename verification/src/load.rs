use vstd::prelude::*;
use vstd::string::{StringExecFns, StrSliceExecFns};
use crate::editor::{ImageEditor, is_fresh};
use crate::layers::{LayerDocument, opt_raster};
use crate::raster::{RasterView, RgbaImage};

verus! {

/// `c` ends a folder name in a path.
pub open spec fn is_separator(c: char) -> bool {
    c == '/' || c == '\\'
}

/// Where the file name starts among the first `k` characters of `p`: just
/// after the last separator, or at the start.
pub open spec fn name_start(p: Seq<char>, k: int) -> int
    decreases k,
{
    if k <= 0 {
        0
    } else if is_separator(p[k - 1]) {
        k
    } else {
        name_start(p, k - 1)
    }
}

/// The last `.` of the file name among the first `k` characters of `p`.
pub open spec fn last_dot(p: Seq<char>, k: int) -> Option<int>
    decreases k,
{
    if k <= 0 {
        None
    } else if is_separator(p[k - 1]) {
        None
    } else if p[k - 1] == '.' {
        Some(k - 1)
    } else {
        last_dot(p, k - 1)
    }
}

/// The extension of the file a path names: what follows the last `.` of
/// its file name (the part after the last `/` or `\`), unless that `.` is
/// the name's first character; empty without one.
pub open spec fn extension_of(p: Seq<char>) -> Seq<char> {
    let n = p.len() as int;
    match last_dot(p, n) {
        Some(d) => if d > name_start(p, n) { p.subrange(d + 1, n) } else { Seq::empty() },
        None => Seq::empty(),
    }
}

/// The raster that the `image` crate decodes from `bytes` with the format
/// it guesses from their first bytes, if that format is known and the bytes
/// decode in it.
pub uninterp spec fn content_decoded(bytes: Seq<u8>) -> Option<RasterView>;

/// The raster that the `image` crate decodes from `bytes` in the format its
/// `ImageFormat::from_extension` names for the extension `ext`, if it names
/// one and the bytes decode in it.
pub uninterp spec fn ext_decoded(bytes: Seq<u8>, ext: Seq<char>) -> Option<RasterView>;

/// What a file's bytes decode to: by their content first, and by the file's
/// extension only where the content gives no image.
pub open spec fn spec_decoded(bytes: Seq<u8>, ext: Seq<char>) -> Option<RasterView> {
    match content_decoded(bytes) {
        Some(v) => Some(v),
        None => ext_decoded(bytes, ext),
    }
}

/// Calls `image::ImageReader::with_guessed_format` and `decode` on the
/// bytes, then `into_rgba8` on the image. Claimed: the result is the named
/// function of the bytes; `None` where no format is guessed or the bytes do
/// not decode. What it is on given bytes is left to the crate.
#[verifier::external_body]
fn decode_by_content(bytes: &[u8]) -> (r: Option<RgbaImage>)
    ensures
        opt_raster(r) == content_decoded(bytes@),
{
    image::ImageReader::new(std::io::Cursor::new(bytes))
        .with_guessed_format()
        .ok()
        .and_then(|reader| reader.decode().ok())
        .and_then(|img| {
            let buf = img.into_rgba8();
            let (w, h) = buf.dimensions();
            RgbaImage::from_raw(w, h, buf.into_raw())
        })
}

/// Calls `image::ImageFormat::from_extension` on `ext` and, where it names
/// a format, `image::load_from_memory_with_format` with it, then
/// `into_rgba8`. Claimed: the result is the named function of the bytes and
/// the extension. What it is on given bytes is left to the crate.
#[verifier::external_body]
fn decode_by_extension(bytes: &[u8], ext: &str) -> (r: Option<RgbaImage>)
    ensures
        opt_raster(r) == ext_decoded(bytes@, ext@),
{
    image::ImageFormat::from_extension(ext)
        .and_then(|format| image::load_from_memory_with_format(bytes, format).ok())
        .and_then(|img| {
            let buf = img.into_rgba8();
            let (w, h) = buf.dimensions();
            RgbaImage::from_raw(w, h, buf.into_raw())
        })
}

/// Decodes a file's bytes: by their content first; where that gives no
/// image, by the format that the extension `ext` names.
pub fn decode_image(bytes: &[u8], ext: &str) -> (r: Option<RgbaImage>)
    ensures
        opt_raster(r) == spec_decoded(bytes@, ext@),
{
    match decode_by_content(bytes) {
        Some(img) => Some(img),
        None => decode_by_extension(bytes, ext),
    }
}

/// The extension of the file `path` names (see `extension_of`).
pub fn file_extension(path: &str) -> (r: String)
    ensures
        r@ == extension_of(path@),
{
    let n = path.unicode_len();
    let mut i: usize = 0;
    let mut start: usize = 0;
    let mut dot: Option<usize> = None;
    while i < n
        invariant
            n == path@.len(),
            i <= n,
            start as int == name_start(path@, i as int),
            match dot {
                Some(d) => last_dot(path@, i as int) == Some(d as int) && d < i,
                None => last_dot(path@, i as int) is None,
            },
        decreases n - i,
    {
        let c = path.get_char(i);
        if c == '/' || c == '\\' {
            start = i + 1;
            dot = None;
        } else if c == '.' {
            dot = Some(i);
        }
        i = i + 1;
    }
    match dot {
        Some(d) => if d > start {
            String::from_str(path.substring_char(d + 1, n))
        } else {
            String::new()
        },
        None => String::new(),
    }
}

/// `e` is a newly opened editor for the file `path` whose decoded image is
/// `img`: with an image, the document holds it as its background, the
/// resize fields take its size, the view is marked for redrawing and the
/// editor keeps `path` as its file; without one, `e` is a fresh editor
/// that keeps no file. Everything else is as in a fresh editor.
pub open spec fn loaded(e: ImageEditor, path: Seq<char>, img: Option<RasterView>) -> bool {
    match img {
        Some(v) => {
            &&& e.doc@.image == Some(v)
            &&& e.resize_w == v.width
            &&& e.resize_h == v.height
            &&& e.texture_dirty
            &&& e.composite_dirty
            &&& e.file_path matches Some(p) && p@ == path
            &&& is_fresh(ImageEditor {
                doc: LayerDocument { image: None, ..e.doc },
                resize_w: 0,
                resize_h: 0,
                texture_dirty: false,
                composite_dirty: false,
                file_path: None,
                ..e
            })
        },
        None => is_fresh(e),
    }
}

impl ImageEditor {
    /// A new editor for the file `path`, given what its bytes decoded to.
    pub fn load_decoded(path: String, img: Option<RgbaImage>) -> (e: ImageEditor)
        ensures
            loaded(e, path@, opt_raster(img)),
    {
        let mut e = ImageEditor::new();
        match img {
            Some(i) => {
                e.resize_w = i.width();
                e.resize_h = i.height();
                e.doc.image = Some(i);
                e.texture_dirty = true;
                e.composite_dirty = true;
                e.file_path = Some(path);
            },
            None => {},
        }
        e
    }

    /// A new editor for the file `path` whose contents are `bytes`: the
    /// bytes are decoded (by content, else by the path's extension) and the
    /// image, if any, becomes the background.
    pub fn load_from_bytes(path: String, bytes: &[u8]) -> (e: ImageEditor)
        ensures
            loaded(e, path@, spec_decoded(bytes@, extension_of(path@))),
    {
        let ext = file_extension(path.as_str());
        let img = decode_image(bytes, ext.as_str());
        ImageEditor::load_decoded(path, img)
    }
}

} // verus!
