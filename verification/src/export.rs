use vstd::prelude::*;
use vstd::string::StringExecFns;
use crate::text::{dec_digits, push_decimal};

verus! {

/// The file formats an image can be exported to.
#[derive(Debug, Clone, Copy, PartialEq, Eq, Structural)]
pub enum ExportFormat {
    Jpeg,
    Png,
    Webp,
    Bmp,
    Tiff,
    Ico,
}

/// The name of each format as shown to the user.
pub open spec fn format_name(f: ExportFormat) -> Seq<char> {
    match f {
        ExportFormat::Jpeg => "JPEG"@,
        ExportFormat::Png => "PNG"@,
        ExportFormat::Webp => "WebP"@,
        ExportFormat::Bmp => "BMP"@,
        ExportFormat::Tiff => "TIFF"@,
        ExportFormat::Ico => "ICO"@,
    }
}

/// The file extension of each format, without the dot.
pub open spec fn format_extension(f: ExportFormat) -> Seq<char> {
    match f {
        ExportFormat::Jpeg => "jpg"@,
        ExportFormat::Png => "png"@,
        ExportFormat::Webp => "webp"@,
        ExportFormat::Bmp => "bmp"@,
        ExportFormat::Tiff => "tiff"@,
        ExportFormat::Ico => "ico"@,
    }
}

/// Every format, in the order the export panel lists them.
pub open spec fn format_order() -> Seq<ExportFormat> {
    seq![
        ExportFormat::Jpeg,
        ExportFormat::Png,
        ExportFormat::Webp,
        ExportFormat::Bmp,
        ExportFormat::Tiff,
        ExportFormat::Ico,
    ]
}

impl ExportFormat {
    pub fn as_str(&self) -> (s: &'static str)
        ensures
            s@ == format_name(*self),
    {
        match self {
            ExportFormat::Jpeg => "JPEG",
            ExportFormat::Png => "PNG",
            ExportFormat::Webp => "WebP",
            ExportFormat::Bmp => "BMP",
            ExportFormat::Tiff => "TIFF",
            ExportFormat::Ico => "ICO",
        }
    }

    pub fn extension(&self) -> (s: &'static str)
        ensures
            s@ == format_extension(*self),
    {
        match self {
            ExportFormat::Jpeg => "jpg",
            ExportFormat::Png => "png",
            ExportFormat::Webp => "webp",
            ExportFormat::Bmp => "bmp",
            ExportFormat::Tiff => "tiff",
            ExportFormat::Ico => "ico",
        }
    }

    pub fn all() -> (v: Vec<ExportFormat>)
        ensures
            v@ == format_order(),
    {
        let v = vec![
            ExportFormat::Jpeg,
            ExportFormat::Png,
            ExportFormat::Webp,
            ExportFormat::Bmp,
            ExportFormat::Tiff,
            ExportFormat::Ico,
        ];
        assert(v@ =~= format_order());
        v
    }
}

/// How hard the PNG encoder works.
#[derive(Debug, Clone, Copy, PartialEq, Eq, Structural)]
pub enum PngCompression {
    Fast,
    Default,
    Best,
}

/// Levels 0 to 3 are fast, 4 to 6 the default, anything higher the best.
pub open spec fn spec_png_compression(level: u8) -> PngCompression {
    if level <= 3 {
        PngCompression::Fast
    } else if level <= 6 {
        PngCompression::Default
    } else {
        PngCompression::Best
    }
}

/// The PNG compression a numeric level selects.
pub fn png_compression_for(level: u8) -> (c: PngCompression)
    ensures
        c == spec_png_compression(level),
{
    if level <= 3 {
        PngCompression::Fast
    } else if level <= 6 {
        PngCompression::Default
    } else {
        PngCompression::Best
    }
}

/// The largest side an ICO file can hold.
pub const ICO_MAX_SIDE: u32 = 256;

/// An image too large for an ICO file.
pub open spec fn ico_too_large(w: u32, h: u32) -> bool {
    w > ICO_MAX_SIDE || h > ICO_MAX_SIDE
}

/// Whether an image of this size must be scaled down before it can be
/// written as an ICO file.
pub fn ico_needs_downscale(w: u32, h: u32) -> (r: bool)
    ensures
        r == ico_too_large(w, h),
{
    w > ICO_MAX_SIDE || h > ICO_MAX_SIDE
}

/// The message given when an image is too large for ICO and auto-scaling
/// is off.
pub open spec fn spec_ico_size_message(w: u32, h: u32) -> Seq<char> {
    "ICO format requires dimensions \u{2264}256px. Image is "@ + dec_digits(w as nat) + "x"@
        + dec_digits(h as nat) + ". Enable auto-scaling."@
}

/// Whether an export of a `w` by `h` image in `format` is refused, and the
/// message if it is: only ICO refuses, and only when the image (after any
/// automatic scaling) is larger than 256 pixels on a side.
pub fn export_size_error(format: ExportFormat, w: u32, h: u32) -> (r: Option<String>)
    ensures
        r.is_some() <==> (format == ExportFormat::Ico && ico_too_large(w, h)),
        r.is_some() ==> r.unwrap()@ == spec_ico_size_message(w, h),
{
    if format == ExportFormat::Ico && ico_needs_downscale(w, h) {
        let mut s = String::new();
        s.append("ICO format requires dimensions \u{2264}256px. Image is ");
        push_decimal(&mut s, w);
        s.append("x");
        push_decimal(&mut s, h);
        s.append(". Enable auto-scaling.");
        Some(s)
    } else {
        None
    }
}

/// The file name offered when exporting: the document's file stem, or
/// `export` for an unsaved document, with the format's extension.
pub open spec fn spec_export_file_name(stem: Option<Seq<char>>, format: ExportFormat) -> Seq<char> {
    let base = match stem {
        Some(s) => s,
        None => "export"@,
    };
    base + "."@ + format_extension(format)
}

pub fn export_file_name(stem: Option<&str>, format: ExportFormat) -> (r: String)
    ensures
        r@ == spec_export_file_name(
            match stem {
                Some(s) => Some(s@),
                None => None,
            },
            format,
        ),
{
    let mut s = String::new();
    match stem {
        Some(st) => s.append(st),
        None => s.append("export"),
    }
    s.append(".");
    s.append(format.extension());
    s
}

} // verus!
