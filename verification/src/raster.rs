use vstd::prelude::*;
use vstd::arithmetic::div_mod::{lemma_fundamental_div_mod, lemma_fundamental_div_mod_converse};
use vstd::arithmetic::mul::lemma_mul_strict_inequality;

verus! {

/// Byte offset of channel `c` of pixel `(x, y)` in a row-major RGBA buffer
/// whose rows are `w` pixels wide.
pub open spec fn offset(w: int, x: int, y: int, c: int) -> int {
    (y * w + x) * 4 + c
}

/// Column of the pixel that byte `j` belongs to.
pub open spec fn col_of(w: int, j: int) -> int {
    (j / 4) % w
}

/// Row of the pixel that byte `j` belongs to.
pub open spec fn row_of(w: int, j: int) -> int {
    (j / 4) / w
}

/// Channel that byte `j` holds.
pub open spec fn chan_of(j: int) -> int {
    j % 4
}

/// Composing an offset and splitting it again gives back its parts.
pub proof fn lemma_offset_split(w: int, h: int, x: int, y: int, c: int)
    requires
        0 <= x < w,
        0 <= y < h,
        0 <= c < 4,
    ensures
        0 <= offset(w, x, y, c) < w * h * 4,
        col_of(w, offset(w, x, y, c)) == x,
        row_of(w, offset(w, x, y, c)) == y,
        chan_of(offset(w, x, y, c)) == c,
{
    let p = y * w + x;
    assert(0 <= p < w * h) by (nonlinear_arith)
        requires
            0 <= x < w,
            0 <= y < h,
            p == y * w + x,
    ;
    assert(0 <= p * 4 + c < w * h * 4) by (nonlinear_arith)
        requires
            0 <= p < w * h,
            0 <= c < 4,
    ;
    lemma_fundamental_div_mod_converse(p * 4 + c, 4, p, c);
    lemma_fundamental_div_mod_converse(p, w, y, x);
}

/// Every byte offset of a `w` by `h` buffer splits into a pixel in range.
pub proof fn lemma_index_split(w: int, h: int, j: int)
    requires
        0 <= j < w * h * 4,
        0 <= w,
        0 <= h,
    ensures
        0 < w,
        0 < h,
        0 <= col_of(w, j) < w,
        0 <= row_of(w, j) < h,
        0 <= chan_of(j) < 4,
        offset(w, col_of(w, j), row_of(w, j), chan_of(j)) == j,
{
    assert(0 < w && 0 < h) by (nonlinear_arith)
        requires
            0 <= j < w * h * 4,
            0 <= w,
            0 <= h,
    ;
    let p = j / 4;
    lemma_fundamental_div_mod(j, 4);
    lemma_fundamental_div_mod(p, w);
    assert(0 <= p < w * h) by (nonlinear_arith)
        requires
            0 <= j < w * h * 4,
            j == 4 * p + j % 4,
            0 <= j % 4 < 4,
    ;
    assert(0 <= p / w < h) by (nonlinear_arith)
        requires
            0 <= p < w * h,
            0 < w,
            p == w * (p / w) + p % w,
            0 <= p % w < w,
    ;
    assert((p / w) * w == w * (p / w)) by (nonlinear_arith);
}

/// The mathematical content of an RGBA raster.
pub struct RasterView {
    pub width: nat,
    pub height: nat,
    pub data: Seq<u8>,
}

impl RasterView {
    /// The buffer holds exactly four bytes per pixel.
    pub open spec fn wf(self) -> bool {
        self.data.len() == self.width * self.height * 4
    }

    /// Channel `c` of pixel `(x, y)`.
    pub open spec fn px(self, x: int, y: int, c: int) -> u8 {
        self.data[offset(self.width as int, x, y, c)]
    }

    pub open spec fn len(self) -> nat {
        self.width * self.height * 4
    }
}

/// The raster mirrored left to right.
pub open spec fn spec_flip_h(v: RasterView) -> RasterView {
    let w = v.width as int;
    RasterView {
        width: v.width,
        height: v.height,
        data: Seq::new(v.len(), |j: int| v.px(w - 1 - col_of(w, j), row_of(w, j), chan_of(j))),
    }
}

/// The raster mirrored top to bottom.
pub open spec fn spec_flip_v(v: RasterView) -> RasterView {
    let w = v.width as int;
    let h = v.height as int;
    RasterView {
        width: v.width,
        height: v.height,
        data: Seq::new(v.len(), |j: int| v.px(col_of(w, j), h - 1 - row_of(w, j), chan_of(j))),
    }
}

/// The raster turned a quarter turn clockwise: the result is `height` wide
/// and `width` high, and its pixel `(x, y)` is the source pixel
/// `(y, height - 1 - x)`.
pub open spec fn spec_rotate_cw(v: RasterView) -> RasterView {
    let nw = v.height as int;
    let h = v.height as int;
    RasterView {
        width: v.height,
        height: v.width,
        data: Seq::new(v.len(), |j: int| v.px(row_of(nw, j), h - 1 - col_of(nw, j), chan_of(j))),
    }
}

/// The raster turned a quarter turn counter-clockwise: pixel `(x, y)` of the
/// result is the source pixel `(width - 1 - y, x)`.
pub open spec fn spec_rotate_ccw(v: RasterView) -> RasterView {
    let nw = v.height as int;
    let w = v.width as int;
    RasterView {
        width: v.height,
        height: v.width,
        data: Seq::new(v.len(), |j: int| v.px(w - 1 - row_of(nw, j), col_of(nw, j), chan_of(j))),
    }
}

/// An RGBA raster with four bytes per pixel, rows stored top to bottom.
pub struct RgbaImage {
    width: u32,
    height: u32,
    data: Vec<u8>,
}

impl View for RgbaImage {
    type V = RasterView;

    closed spec fn view(&self) -> RasterView {
        RasterView { width: self.width as nat, height: self.height as nat, data: self.data@ }
    }
}

impl RgbaImage {
    #[verifier::type_invariant]
    spec fn inv(self) -> bool {
        self.data@.len() == self.width * self.height * 4
    }

    pub fn width(&self) -> (r: u32)
        ensures
            r == self@.width,
    {
        self.width
    }

    pub fn height(&self) -> (r: u32)
        ensures
            r == self@.height,
    {
        self.height
    }

    /// Facts that every raster keeps.
    pub fn well_formed(&self)
        ensures
            self@.wf(),
            self@.len() <= usize::MAX,
    {
        proof {
            use_type_invariant(self);
        }
        let _n = self.data.len();
    }

    pub fn flip_h(&self) -> (r: RgbaImage)
        ensures
            r@ == spec_flip_h(self@),
    {
        proof {
            use_type_invariant(self);
        }
        let w = self.width as usize;
        let n = self.data.len();
        let mut out: Vec<u8> = Vec::with_capacity(n);
        let mut j: usize = 0;
        while j < n
            invariant
                n == self.data@.len(),
                n == self@.len(),
                w == self.width,
                j <= n,
                out@.len() == j,
                forall|k: int| 0 <= k < j ==> out@[k] == #[trigger] spec_flip_h(self@).data[k],
            decreases n - j,
        {
            proof {
                lemma_index_split(w as int, self.height as int, j as int);
                lemma_offset_split(w as int, self.height as int, w - 1 - col_of(w as int, j as int), row_of(w as int, j as int), chan_of(j as int));
            }
            let p = j / 4;
            let x = p % w;
            let y = p / w;
            let c = j % 4;
            let src = (y * w + (w - 1 - x)) * 4 + c;
            out.push(self.data[src]);
            j = j + 1;
        }
        assert(out@ == spec_flip_h(self@).data);
        RgbaImage { width: self.width, height: self.height, data: out }
    }
}


/// The raster cut to the `cw` by `ch` rectangle whose top-left corner is
/// `(x0, y0)`.
pub open spec fn spec_crop(v: RasterView, x0: int, y0: int, cw: nat, ch: nat) -> RasterView {
    RasterView {
        width: cw,
        height: ch,
        data: Seq::new(cw * ch * 4, |j: int| v.px(x0 + col_of(cw as int, j), y0 + row_of(cw as int, j), chan_of(j))),
    }
}

/// The raster with its colour channels inverted and its alpha kept.
pub open spec fn spec_invert(v: RasterView) -> RasterView {
    RasterView {
        width: v.width,
        height: v.height,
        data: Seq::new(v.len(), |j: int| if chan_of(j) < 3 { (255 - v.data[j]) as u8 } else { v.data[j] }),
    }
}

/// A `w` by `h` raster whose every pixel is `p`.
pub open spec fn spec_filled(w: nat, h: nat, p: Seq<u8>) -> RasterView {
    RasterView { width: w, height: h, data: Seq::new(w * h * 4, |j: int| p[chan_of(j)]) }
}

impl Clone for RgbaImage {
    fn clone(&self) -> (r: Self)
        ensures
            r@ == self@,
    {
        proof {
            use_type_invariant(self);
        }
        let data = self.data.clone();
        assert forall|i: int| 0 <= i < data@.len() implies data@[i] == self.data@[i] by {
            assert(cloned::<u8>(self.data[i], data[i]));
        }
        assert(data@ =~= self.data@);
        RgbaImage { width: self.width, height: self.height, data }
    }
}

impl RgbaImage {
    /// A raster of the given size with every pixel set to `p`.
    pub fn new_filled(w: u32, h: u32, p: [u8; 4]) -> (r: RgbaImage)
        requires
            w * h * 4 <= usize::MAX,
        ensures
            r@ == spec_filled(w as nat, h as nat, p@),
    {
        let n = (w as usize) * (h as usize) * 4;
        let mut out: Vec<u8> = Vec::with_capacity(n);
        let mut j: usize = 0;
        while j < n
            invariant
                n == w * h * 4,
                j <= n,
                out@.len() == j,
                forall|k: int| 0 <= k < j ==> out@[k] == #[trigger] spec_filled(w as nat, h as nat, p@).data[k],
            decreases n - j,
        {
            out.push(p[j % 4]);
            j = j + 1;
        }
        assert(out@ == spec_filled(w as nat, h as nat, p@).data);
        RgbaImage { width: w, height: h, data: out }
    }

    /// Takes a raw row-major RGBA buffer; `None` unless it holds exactly
    /// `w * h` pixels.
    pub fn from_raw(w: u32, h: u32, data: Vec<u8>) -> (r: Option<RgbaImage>)
        ensures
            r is Some <==> data@.len() == w * h * 4,
            r matches Some(img) ==> img@ == (RasterView { width: w as nat, height: h as nat, data: data@ }),
    {
        let n = data.len() as u128;
        proof {
            assert((w as u128) * (h as u128) * 4 <= 0x4_0000_0000_0000_0000) by (nonlinear_arith)
                requires
                    w <= u32::MAX,
                    h <= u32::MAX,
            ;
        }
        if n == (w as u128) * (h as u128) * 4 {
            Some(RgbaImage { width: w, height: h, data })
        } else {
            None
        }
    }

    /// The raw row-major RGBA bytes.
    pub fn as_bytes(&self) -> (r: &Vec<u8>)
        ensures
            r@ == self@.data,
    {
        &self.data
    }

    /// Gives up the raster and returns its bytes.
    pub fn into_raw(self) -> (r: Vec<u8>)
        ensures
            r@ == self@.data,
    {
        self.data
    }

    /// The four channels of pixel `(x, y)`.
    pub fn get_pixel(&self, x: u32, y: u32) -> (r: [u8; 4])
        requires
            x < self@.width,
            y < self@.height,
        ensures
            forall|c: int| 0 <= c < 4 ==> r@[c] == self@.px(x as int, y as int, c),
    {
        proof {
            use_type_invariant(self);
            lemma_offset_split(self.width as int, self.height as int, x as int, y as int, 0);
            lemma_offset_split(self.width as int, self.height as int, x as int, y as int, 3);
        }
        let _n = self.data.len();
        let o = ((y as usize) * (self.width as usize) + (x as usize)) * 4;
        [self.data[o], self.data[o + 1], self.data[o + 2], self.data[o + 3]]
    }

    /// Overwrites pixel `(x, y)` with `p`.
    pub fn put_pixel(&mut self, x: u32, y: u32, p: [u8; 4])
        requires
            x < old(self)@.width,
            y < old(self)@.height,
        ensures
            final(self)@.width == old(self)@.width,
            final(self)@.height == old(self)@.height,
            final(self)@.data == old(self)@.data
                .update(offset(old(self)@.width as int, x as int, y as int, 0), p[0])
                .update(offset(old(self)@.width as int, x as int, y as int, 1), p[1])
                .update(offset(old(self)@.width as int, x as int, y as int, 2), p[2])
                .update(offset(old(self)@.width as int, x as int, y as int, 3), p[3]),
    {
        proof {
            use_type_invariant(&*self);
            lemma_offset_split(self.width as int, self.height as int, x as int, y as int, 0);
            lemma_offset_split(self.width as int, self.height as int, x as int, y as int, 3);
        }
        let _n = self.data.len();
        let o = ((y as usize) * (self.width as usize) + (x as usize)) * 4;
        let mut parts = RgbaImage { width: 0, height: 0, data: Vec::new() };
        std::mem::swap(self, &mut parts);
        let RgbaImage { width, height, mut data } = parts;
        data.set(o, p[0]);
        data.set(o + 1, p[1]);
        data.set(o + 2, p[2]);
        data.set(o + 3, p[3]);
        *self = RgbaImage { width, height, data };
    }

    pub fn flip_v(&self) -> (r: RgbaImage)
        ensures
            r@ == spec_flip_v(self@),
    {
        proof {
            use_type_invariant(self);
        }
        let w = self.width as usize;
        let h = self.height as usize;
        let n = self.data.len();
        let mut out: Vec<u8> = Vec::with_capacity(n);
        let mut j: usize = 0;
        while j < n
            invariant
                n == self.data@.len(),
                n == self@.len(),
                w == self.width,
                h == self.height,
                j <= n,
                out@.len() == j,
                forall|k: int| 0 <= k < j ==> out@[k] == #[trigger] spec_flip_v(self@).data[k],
            decreases n - j,
        {
            proof {
                lemma_index_split(w as int, h as int, j as int);
                lemma_offset_split(w as int, h as int, col_of(w as int, j as int), h - 1 - row_of(w as int, j as int), chan_of(j as int));
            }
            let p = j / 4;
            let x = p % w;
            let y = p / w;
            let c = j % 4;
            let src = ((h - 1 - y) * w + x) * 4 + c;
            out.push(self.data[src]);
            j = j + 1;
        }
        assert(out@ == spec_flip_v(self@).data);
        RgbaImage { width: self.width, height: self.height, data: out }
    }

    pub fn rotate_cw(&self) -> (r: RgbaImage)
        ensures
            r@ == spec_rotate_cw(self@),
    {
        proof {
            use_type_invariant(self);
        }
        let w = self.width as usize;
        let h = self.height as usize;
        let n = self.data.len();
        proof {
            assert(h * w * 4 == w * h * 4) by (nonlinear_arith);
        }
        let mut out: Vec<u8> = Vec::with_capacity(n);
        let mut j: usize = 0;
        while j < n
            invariant
                n == self.data@.len(),
                n == self@.len(),
                n == h * w * 4,
                w == self.width,
                h == self.height,
                j <= n,
                out@.len() == j,
                forall|k: int| 0 <= k < j ==> out@[k] == #[trigger] spec_rotate_cw(self@).data[k],
            decreases n - j,
        {
            proof {
                lemma_index_split(h as int, w as int, j as int);
                lemma_offset_split(w as int, h as int, row_of(h as int, j as int), h - 1 - col_of(h as int, j as int), chan_of(j as int));
            }
            let p = j / 4;
            let x = p % h;
            let y = p / h;
            let c = j % 4;
            let src = ((h - 1 - x) * w + y) * 4 + c;
            out.push(self.data[src]);
            j = j + 1;
        }
        assert(out@ == spec_rotate_cw(self@).data);
        RgbaImage { width: self.height, height: self.width, data: out }
    }

    pub fn rotate_ccw(&self) -> (r: RgbaImage)
        ensures
            r@ == spec_rotate_ccw(self@),
    {
        proof {
            use_type_invariant(self);
        }
        let w = self.width as usize;
        let h = self.height as usize;
        let n = self.data.len();
        proof {
            assert(h * w * 4 == w * h * 4) by (nonlinear_arith);
        }
        let mut out: Vec<u8> = Vec::with_capacity(n);
        let mut j: usize = 0;
        while j < n
            invariant
                n == self.data@.len(),
                n == self@.len(),
                n == h * w * 4,
                w == self.width,
                h == self.height,
                j <= n,
                out@.len() == j,
                forall|k: int| 0 <= k < j ==> out@[k] == #[trigger] spec_rotate_ccw(self@).data[k],
            decreases n - j,
        {
            proof {
                lemma_index_split(h as int, w as int, j as int);
                lemma_offset_split(w as int, h as int, w - 1 - row_of(h as int, j as int), col_of(h as int, j as int), chan_of(j as int));
            }
            let p = j / 4;
            let x = p % h;
            let y = p / h;
            let c = j % 4;
            let src = (x * w + (w - 1 - y)) * 4 + c;
            out.push(self.data[src]);
            j = j + 1;
        }
        assert(out@ == spec_rotate_ccw(self@).data);
        RgbaImage { width: self.height, height: self.width, data: out }
    }

    /// The `cw` by `ch` rectangle at `(x0, y0)`, which must lie inside.
    pub fn crop(&self, x0: u32, y0: u32, cw: u32, ch: u32) -> (r: RgbaImage)
        requires
            x0 + cw <= self@.width,
            y0 + ch <= self@.height,
        ensures
            r@ == spec_crop(self@, x0 as int, y0 as int, cw as nat, ch as nat),
    {
        proof {
            use_type_invariant(self);
        }
        let w = self.width as usize;
        let h = self.height as usize;
        let cwu = cw as usize;
        let chu = ch as usize;
        proof {
            assert(cwu * chu * 4 <= w * h * 4) by (nonlinear_arith)
                requires
                    cwu <= w,
                    chu <= h,
            ;
        }
        let _len = self.data.len();
        let n = cwu * chu * 4;
        let mut out: Vec<u8> = Vec::with_capacity(n);
        let mut j: usize = 0;
        while j < n
            invariant
                self.data@.len() == w * h * 4,
                n == cw * ch * 4,
                w == self.width,
                h == self.height,
                cwu == cw,
                x0 + cw <= w,
                y0 + ch <= h,
                w * h * 4 <= usize::MAX,
                j <= n,
                out@.len() == j,
                forall|k: int| 0 <= k < j ==> out@[k] == #[trigger] spec_crop(self@, x0 as int, y0 as int, cw as nat, ch as nat).data[k],
            decreases n - j,
        {
            proof {
                lemma_index_split(cw as int, ch as int, j as int);
                lemma_offset_split(w as int, h as int, x0 + col_of(cw as int, j as int), y0 + row_of(cw as int, j as int), chan_of(j as int));
            }
            let p = j / 4;
            let x = p % cwu;
            let y = p / cwu;
            let c = j % 4;
            let src = ((y0 as usize + y) * w + (x0 as usize + x)) * 4 + c;
            out.push(self.data[src]);
            j = j + 1;
        }
        assert(out@ == spec_crop(self@, x0 as int, y0 as int, cw as nat, ch as nat).data);
        RgbaImage { width: cw, height: ch, data: out }
    }

    /// Inverts the colour channels of every pixel in place.
    pub fn invert(&mut self)
        ensures
            final(self)@ == spec_invert(old(self)@),
    {
        proof {
            use_type_invariant(&*self);
        }
        let ghost orig = self@;
        let mut parts = RgbaImage { width: 0, height: 0, data: Vec::new() };
        std::mem::swap(self, &mut parts);
        let RgbaImage { width, height, mut data } = parts;
        let n = data.len();
        let mut j: usize = 0;
        while j < n
            invariant
                n == data@.len(),
                n == orig.len(),
                j <= n,
                forall|k: int| 0 <= k < j ==> data@[k] == #[trigger] spec_invert(orig).data[k],
                forall|k: int| j <= k < n ==> data@[k] == orig.data[k],
            decreases n - j,
        {
            if j % 4 < 3 {
                let v = data[j];
                data.set(j, 255 - v);
            }
            j = j + 1;
        }
        assert(data@ =~= spec_invert(orig).data);
        *self = RgbaImage { width, height, data };
    }
}

} // verus!
