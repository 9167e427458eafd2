use vstd::prelude::*;
use crate::raster::{RasterView, RgbaImage, col_of, row_of, chan_of};

verus! {

/// The sRGB luma weights (per ten thousand) of red, green and blue.
pub const LUMA_RED: u32 = 2126;
pub const LUMA_GREEN: u32 = 7152;
pub const LUMA_BLUE: u32 = 722;

/// The grey level of a colour: its weighted sum rounded down.
pub open spec fn luma(r: u8, g: u8, b: u8) -> int {
    (LUMA_RED * r + LUMA_GREEN * g + LUMA_BLUE * b) / 10000
}

/// The raster with every pixel's colour replaced by its grey level and its
/// alpha kept.
pub open spec fn spec_grayscale(v: RasterView) -> RasterView {
    let w = v.width as int;
    RasterView {
        width: v.width,
        height: v.height,
        data: Seq::new(
            v.len(),
            |j: int|
                if chan_of(j) == 3 {
                    v.data[j]
                } else {
                    luma(
                        v.px(col_of(w, j), row_of(w, j), 0),
                        v.px(col_of(w, j), row_of(w, j), 1),
                        v.px(col_of(w, j), row_of(w, j), 2),
                    ) as u8
                },
        ),
    }
}

/// Calls `image::DynamicImage::grayscale` on the raster (held as an `Rgba8`
/// image) and `to_rgba8` on the result. The claim: `grayscale` keeps the
/// size and turns each RGBA pixel into a grey-and-alpha pixel whose grey is
/// `(2126 r + 7152 g + 722 b) / 10000` in integer arithmetic and whose alpha
/// is the pixel's own alpha (the sum is taken in 32 bits, so it never
/// overflows); `to_rgba8` then copies the grey into the three colour
/// channels and keeps the alpha, both unchanged as 8-bit values.
#[verifier::external_body]
pub(crate) fn grayscale_raster(img: &RgbaImage) -> (r: RgbaImage)
    ensures
        r@ == spec_grayscale(img@),
{
    let buf = image::RgbaImage::from_raw(img.width(), img.height(), img.as_bytes().clone()).unwrap();
    let gray = image::DynamicImage::ImageRgba8(buf).grayscale().to_rgba8();
    let (w, h) = (gray.width(), gray.height());
    RgbaImage::from_raw(w, h, gray.into_raw()).unwrap()
}

} // verus!
