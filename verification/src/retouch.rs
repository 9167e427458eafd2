use vstd::prelude::*;
use crate::labels::LayerKind;
use crate::layers::{DocView, find_layer};
use crate::editor::ImageEditor;
use crate::raster::RasterView;
use crate::fill::pixel_of;
use crate::tools::active_kind_locked;

verus! {

broadcast use vstd::std_specs::hash::group_hash_axioms;

/// A channel value moved by `d` and held to `0..=255`.
pub open spec fn spec_clamp_channel(v: u8, d: int) -> u8 {
    if v + d < 0 {
        0u8
    } else if v + d > 255 {
        255u8
    } else {
        (v + d) as u8
    }
}

fn clamp_channel(v: u8, d: i64) -> (r: u8)
    requires
        -0x1_0000_0000 <= d <= 0x1_0000_0000,
    ensures
        r == spec_clamp_channel(v, d as int),
{
    let s: i64 = (v as i64) + d;
    if s < 0 {
        0
    } else if s > 255 {
        255
    } else {
        s as u8
    }
}

/// The temperature brush on one pixel: red moves by `shift`, blue by
/// `-shift`, green and coverage stay.
pub open spec fn spec_warm_pixel(p: [u8; 4], shift: int) -> Seq<u8> {
    seq![spec_clamp_channel(p[0], shift), p[1], spec_clamp_channel(p[2], -shift), p[3]]
}

/// Warms (positive `shift`) or cools one pixel.
pub fn warm_pixel(p: [u8; 4], shift: i32) -> (r: [u8; 4])
    ensures
        r@ == spec_warm_pixel(p, shift as int),
{
    let r = [clamp_channel(p[0], shift as i64), p[1], clamp_channel(p[2], -(shift as i64)), p[3]];
    assert(r@ =~= spec_warm_pixel(p, shift as int));
    r
}

/// The brightness brush on one pixel: the three colour channels move by
/// `d`, coverage stays.
pub open spec fn spec_brighten_pixel(p: [u8; 4], d: int) -> Seq<u8> {
    seq![spec_clamp_channel(p[0], d), spec_clamp_channel(p[1], d), spec_clamp_channel(p[2], d), p[3]]
}

/// Brightens (positive `d`) or darkens one pixel.
pub fn brighten_pixel(p: [u8; 4], d: i32) -> (r: [u8; 4])
    ensures
        r@ == spec_brighten_pixel(p, d as int),
{
    let r = [clamp_channel(p[0], d as i64), clamp_channel(p[1], d as i64), clamp_channel(p[2], d as i64), p[3]];
    assert(r@ =~= spec_brighten_pixel(p, d as int));
    r
}

/// The sum of channel `c` over the pixels `s`.
pub open spec fn channel_sum(s: Seq<[u8; 4]>, c: int) -> nat
    decreases s.len(),
{
    if s.len() == 0 {
        0
    } else {
        channel_sum(s.drop_last(), c) + (s.last()[c] as nat)
    }
}

/// The pixelate brush's block colour: each channel is the mean of the
/// block's pixels under the brush, rounded down; no pixels give none.
pub open spec fn spec_block_average(s: Seq<[u8; 4]>) -> Option<Seq<u8>> {
    if s.len() == 0 {
        None
    } else {
        Some(seq![
            (channel_sum(s, 0) / s.len()) as u8,
            (channel_sum(s, 1) / s.len()) as u8,
            (channel_sum(s, 2) / s.len()) as u8,
            (channel_sum(s, 3) / s.len()) as u8,
        ])
    }
}

proof fn lemma_channel_sum_bound(s: Seq<[u8; 4]>, c: int)
    ensures
        channel_sum(s, c) <= 255 * s.len(),
    decreases s.len(),
{
    if s.len() > 0 {
        lemma_channel_sum_bound(s.drop_last(), c);
    }
}

proof fn lemma_mean_fits(sum: nat, n: nat)
    requires
        n > 0,
        sum <= 255 * n,
    ensures
        sum / n <= 255,
{
    assert(sum / n <= 255) by (nonlinear_arith)
        requires
            n > 0,
            sum <= 255 * n,
    ;
}

/// The mean colour of the pixels a pixelate block has under the brush.
/// The sums are kept in 32 bits, which holds the sums of up to
/// 16843009 pixels.
pub fn block_average(samples: &Vec<[u8; 4]>) -> (r: Option<[u8; 4]>)
    requires
        samples.len() <= 16843009,
    ensures
        match r {
            Some(a) => spec_block_average(samples@) == Some(a@),
            None => spec_block_average(samples@) is None,
        },
{
    let n = samples.len();
    if n == 0 {
        return None;
    }
    let mut sr: u32 = 0;
    let mut sg: u32 = 0;
    let mut sb: u32 = 0;
    let mut sa: u32 = 0;
    let mut i: usize = 0;
    while i < n
        invariant
            n == samples.len(),
            n <= 16843009,
            i <= n,
            sr == channel_sum(samples@.take(i as int), 0),
            sg == channel_sum(samples@.take(i as int), 1),
            sb == channel_sum(samples@.take(i as int), 2),
            sa == channel_sum(samples@.take(i as int), 3),
        decreases n - i,
    {
        let p = samples[i];
        let ghost pre = samples@.take(i as int);
        let ghost next = samples@.take(i + 1);
        proof {
            assert(next.drop_last() =~= pre);
            assert(next.last() == p);
            lemma_channel_sum_bound(next, 0);
            lemma_channel_sum_bound(next, 1);
            lemma_channel_sum_bound(next, 2);
            lemma_channel_sum_bound(next, 3);
            assert(255 * next.len() <= 255 * 16843009) by (nonlinear_arith)
                requires
                    next.len() <= 16843009,
            ;
        }
        sr = sr + p[0] as u32;
        sg = sg + p[1] as u32;
        sb = sb + p[2] as u32;
        sa = sa + p[3] as u32;
        i = i + 1;
    }
    let ghost s = samples@;
    proof {
        assert(s.take(n as int) =~= s);
        lemma_channel_sum_bound(s, 0);
        lemma_channel_sum_bound(s, 1);
        lemma_channel_sum_bound(s, 2);
        lemma_channel_sum_bound(s, 3);
        lemma_mean_fits(channel_sum(s, 0), s.len());
        lemma_mean_fits(channel_sum(s, 1), s.len());
        lemma_mean_fits(channel_sum(s, 2), s.len());
        lemma_mean_fits(channel_sum(s, 3), s.len());
    }
    let cnt = n as u32;
    let a = [(sr / cnt) as u8, (sg / cnt) as u8, (sb / cnt) as u8, (sa / cnt) as u8];
    assert(a@ =~= spec_block_average(s).unwrap());
    Some(a)
}

/// The raster the smudge brush takes its first colour from: the
/// background for the background layer, the layer's own raster for a raster
/// layer, none for other layers.
pub open spec fn smudge_raster(d: DocView) -> Option<RasterView> {
    match active_kind_locked(d).0 {
        LayerKind::Background => d.image,
        LayerKind::Raster => if d.layer_images.contains_key(d.active_layer_id) {
            Some(d.layer_images[d.active_layer_id])
        } else {
            None
        },
        _ => None,
    }
}

/// The colour the smudge brush starts with at `(x, y)`: the pixel there
/// when it lies inside that raster.
pub open spec fn spec_smudge_source(d: DocView, x: int, y: int) -> Option<Seq<u8>> {
    match smudge_raster(d) {
        Some(r) => if 0 <= x < r.width && 0 <= y < r.height { Some(pixel_of(r, x, y)) } else { None },
        None => None,
    }
}

impl ImageEditor {
    /// The pixel under `(x, y)` on the active layer that a smudge stroke
    /// begins with, if there is one.
    pub fn smudge_source(&self, x: u32, y: u32) -> (r: Option<[u8; 4]>)
        ensures
            match r {
                Some(p) => spec_smudge_source(self.doc@, x as int, y as int) == Some(p@),
                None => spec_smudge_source(self.doc@, x as int, y as int) is None,
            },
    {
        let id = self.doc.active_layer_id;
        let kind = match find_layer(&self.doc.layers, id) {
            Some(i) => self.doc.layers[i].kind,
            None => LayerKind::Background,
        };
        let img = match kind {
            LayerKind::Background => match &self.doc.image {
                Some(i) => i,
                None => return None,
            },
            LayerKind::Raster => match self.doc.layer_images.get(&id) {
                Some(i) => i,
                None => return None,
            },
            _ => return None,
        };
        if x < img.width() && y < img.height() {
            let p = img.get_pixel(x, y);
            assert(p@ =~= pixel_of(img@, x as int, y as int));
            Some(p)
        } else {
            None
        }
    }
}


proof fn lemma_uniform_sum(s: Seq<[u8; 4]>, p: [u8; 4], c: int)
    requires
        forall|i: int| 0 <= i < s.len() ==> s[i] == p,
    ensures
        channel_sum(s, c) == s.len() * (p[c] as nat),
    decreases s.len(),
{
    if s.len() > 0 {
        lemma_uniform_sum(s.drop_last(), p, c);
        assert(s.last() == p);
        assert((s.len() - 1) * (p[c] as nat) + (p[c] as nat) == s.len() * (p[c] as nat)) by (nonlinear_arith);
    }
}

/// Pixelating a block whose pixels all have one colour gives that colour.
pub proof fn law_block_average_uniform(s: Seq<[u8; 4]>, p: [u8; 4])
    requires
        s.len() > 0,
        forall|i: int| 0 <= i < s.len() ==> s[i] == p,
    ensures
        spec_block_average(s) == Some(p@),
{
    assert forall|c: int| 0 <= c < 4 implies channel_sum(s, c) / s.len() == p[c] by {
        lemma_uniform_sum(s, p, c);
        let n = s.len();
        let v = p[c] as nat;
        assert((n * v) / n == v) by (nonlinear_arith)
            requires
                n > 0,
        ;
    }
    assert(spec_block_average(s).unwrap() =~= p@);
}

/// A temperature shift that clips neither red nor blue is undone by the
/// opposite shift.
pub proof fn law_warm_then_cool(p: [u8; 4], shift: int)
    requires
        0 <= p[0] + shift <= 255,
        0 <= p[2] - shift <= 255,
    ensures
        ({
            let w = spec_warm_pixel(p, shift);
            let q: [u8; 4] = [w[0], w[1], w[2], w[3]];
            spec_warm_pixel(q, -shift) == p@
        }),
{
    let w = spec_warm_pixel(p, shift);
    let q: [u8; 4] = [w[0], w[1], w[2], w[3]];
    assert(spec_warm_pixel(q, -shift) =~= p@);
}

} // verus!
