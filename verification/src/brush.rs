use vstd::prelude::*;
use vstd::wrapping::u64_specs;

verus! {

/// The 53 random bits a brush draws from a seed (scatter, jitter, spray
/// and grain all come from it): a linear congruential step followed by
/// three xor-shift-multiply rounds, keeping the top 53 bits.
pub open spec fn spec_brush_hash(seed: u64) -> u64 {
    let x0 = u64_specs::wrapping_add(u64_specs::wrapping_mul(seed, 6364136223846793005), 1442695040888963407);
    let x1 = x0 ^ (x0 >> 33u64);
    let x2 = u64_specs::wrapping_mul(x1, 0xff51afd7ed558ccd);
    let x3 = x2 ^ (x2 >> 33u64);
    let x4 = u64_specs::wrapping_mul(x3, 0xc4ceb9fe1a85ec53);
    let x5 = x4 ^ (x4 >> 33u64);
    x5 >> 11u64
}

/// The brush's random bits for `seed`; a caller turns them into a number in
/// `[0, 1)` by dividing by 2 to the 53rd.
pub fn brush_hash(seed: u64) -> (r: u64)
    ensures
        r == spec_brush_hash(seed),
        r < 0x20_0000_0000_0000,
{
    let x = seed.wrapping_mul(6364136223846793005).wrapping_add(1442695040888963407);
    let x = x ^ (x >> 33u64);
    let x = x.wrapping_mul(0xff51afd7ed558ccd);
    let x = x ^ (x >> 33u64);
    let x = x.wrapping_mul(0xc4ceb9fe1a85ec53);
    let x = x ^ (x >> 33u64);
    let r = x >> 11u64;
    assert(r < 0x20_0000_0000_0000) by (bit_vector)
        requires
            r == x >> 11u64,
    ;
    r
}

/// Paint of colour `paint` laid with strength `alpha` over pixel `e`: the
/// paint's weight is `base_a * alpha / 255`, each colour channel is the
/// weighted mean rounded down, and coverage adds up to at most 255.
pub open spec fn spec_paint_pixel(e: [u8; 4], paint: [u8; 3], base_a: u8, alpha: u8) -> Seq<u8> {
    let bf = (base_a * alpha) / 255;
    let ba = 255 - bf;
    let a = bf + (e[3] * ba) / 255;
    seq![
        ((paint[0] * bf + e[0] * ba) / 255) as u8,
        ((paint[1] * bf + e[1] * ba) / 255) as u8,
        ((paint[2] * bf + e[2] * ba) / 255) as u8,
        (if a <= 255 { a } else { 255 }) as u8,
    ]
}

/// A weighted sum of two channel values with weights adding up to 255 fits
/// in 16 bits.
proof fn lemma_weighted(p: u8, q: u8, bf: int, ba: int)
    requires
        0 <= bf,
        0 <= ba,
        bf + ba == 255,
    ensures
        0 <= p * bf + q * ba <= 65025,
{
    assert(p * bf <= 255 * bf) by (nonlinear_arith)
        requires
            p <= 255,
            0 <= bf,
    ;
    assert(q * ba <= 255 * ba) by (nonlinear_arith)
        requires
            q <= 255,
            0 <= ba,
    ;
    assert(0 <= p * bf) by (nonlinear_arith)
        requires
            0 <= p,
            0 <= bf,
    ;
    assert(0 <= q * ba) by (nonlinear_arith)
        requires
            0 <= q,
            0 <= ba,
    ;
}

/// Lays paint over one pixel.
pub fn paint_pixel(e: [u8; 4], paint: [u8; 3], base_a: u8, alpha: u8) -> (r: [u8; 4])
    ensures
        r@ == spec_paint_pixel(e, paint, base_a, alpha),
{
    proof {
        assert((base_a as u16) * (alpha as u16) <= 65025) by (nonlinear_arith)
            requires
                base_a <= 255,
                alpha <= 255,
        ;
    }
    let bf: u16 = ((base_a as u16) * (alpha as u16)) / 255;
    let ba: u16 = 255 - bf;
    proof {
        lemma_weighted(paint[0], e[0], bf as int, ba as int);
        lemma_weighted(paint[1], e[1], bf as int, ba as int);
        lemma_weighted(paint[2], e[2], bf as int, ba as int);
        assert((e[3] as u16) * ba <= 65025) by (nonlinear_arith)
            requires
                ba <= 255,
        ;
    }
    let c0 = ((paint[0] as u16) * bf + (e[0] as u16) * ba) / 255;
    let c1 = ((paint[1] as u16) * bf + (e[1] as u16) * ba) / 255;
    let c2 = ((paint[2] as u16) * bf + (e[2] as u16) * ba) / 255;
    let a = bf + ((e[3] as u16) * ba) / 255;
    let a8: u8 = if a <= 255 { a as u8 } else { 255 };
    let r = [c0 as u8, c1 as u8, c2 as u8, a8];
    assert(r@ =~= spec_paint_pixel(e, paint, base_a, alpha));
    r
}

/// A transparent eraser of strength `alpha` over pixel `e`: the colour
/// stays and the coverage drops by `alpha`, not below zero.
pub open spec fn spec_erase_pixel(e: [u8; 4], alpha: u8) -> Seq<u8> {
    seq![e[0], e[1], e[2], if e[3] >= alpha { (e[3] - alpha) as u8 } else { 0u8 }]
}

/// Erases one pixel towards transparency.
pub fn erase_pixel(e: [u8; 4], alpha: u8) -> (r: [u8; 4])
    ensures
        r@ == spec_erase_pixel(e, alpha),
{
    let r = [e[0], e[1], e[2], e[3].saturating_sub(alpha)];
    assert(r@ =~= spec_erase_pixel(e, alpha));
    r
}


/// A dab of strength zero leaves the pixel as it was.
pub proof fn law_paint_zero_strength(e: [u8; 4], paint: [u8; 3], base_a: u8)
    ensures
        spec_paint_pixel(e, paint, base_a, 0) == e@,
{
    let s = spec_paint_pixel(e, paint, base_a, 0);
    assert((base_a * 0int) / 255 == 0) by (nonlinear_arith);
    assert forall|c: int| 0 <= c < 3 implies (paint[c] * 0int + e[c] * 255int) / 255 == e[c] by {
        assert(paint[c] * 0int + e[c] * 255int == e[c] * 255) by (nonlinear_arith);
        assert((e[c] * 255int) / 255 == e[c]) by (nonlinear_arith);
    }
    assert((e[3] * 255int) / 255 == e[3]) by (nonlinear_arith);
    assert(s =~= e@);
}

/// A full-strength dab of an opaque colour replaces the pixel by that
/// colour, fully covering.
pub proof fn law_paint_full_strength(e: [u8; 4], paint: [u8; 3])
    ensures
        spec_paint_pixel(e, paint, 255, 255) == seq![paint[0], paint[1], paint[2], 255u8],
{
    let s = spec_paint_pixel(e, paint, 255, 255);
    assert((255int * 255int) / 255 == 255) by (nonlinear_arith);
    assert forall|c: int| 0 <= c < 3 implies (paint[c] * 255int + e[c] * 0int) / 255 == paint[c] by {
        assert(paint[c] * 255int + e[c] * 0int == paint[c] * 255) by (nonlinear_arith);
        assert((paint[c] * 255int) / 255 == paint[c]) by (nonlinear_arith);
    }
    assert((e[3] * 0int) / 255 == 0) by (nonlinear_arith);
    assert(s =~= seq![paint[0], paint[1], paint[2], 255u8]);
}

/// Erasing with a strength at least the pixel's coverage makes it fully
/// transparent and keeps its colour.
pub proof fn law_erase_clears(e: [u8; 4], alpha: u8)
    requires
        alpha >= e[3],
    ensures
        spec_erase_pixel(e, alpha) == seq![e[0], e[1], e[2], 0u8],
{
    assert(spec_erase_pixel(e, alpha) =~= seq![e[0], e[1], e[2], 0u8]);
}

/// The colour's alpha and the dab strength multiply: a dab of strength `s`
/// with a colour of alpha `a` lays down exactly what a dab of an opaque
/// colour laid with strength `a * s / 255` does.
pub proof fn law_paint_alpha_and_strength_multiply(e: [u8; 4], paint: [u8; 3], a: u8, s: u8)
    ensures
        spec_paint_pixel(e, paint, a, s) == spec_paint_pixel(e, paint, 255, ((a * s) / 255) as u8),
{
    let k: int = (a * s) / 255;
    assert(0 <= a * s <= 255 * 255) by (nonlinear_arith)
        requires
            0 <= a <= 255,
            0 <= s <= 255,
    ;
    assert(0 <= k <= 255);
    assert((255 * k) / 255 == k) by (nonlinear_arith);
    assert((255 * (((a * s) / 255) as u8)) / 255 == k);
}

/// A dab of an opaque colour at strength `s` mixes each colour channel as
/// the mean of paint and pixel weighted `s` to `255 - s`, rounded down, and
/// adds `s` to the coverage, capped at 255.
pub proof fn law_opaque_paint_weighted_mean(e: [u8; 4], paint: [u8; 3], s: u8)
    ensures
        forall|c: int| 0 <= c < 3 ==> #[trigger] spec_paint_pixel(e, paint, 255, s)[c]
            == (paint[c] * s + e[c] * (255 - s)) / 255,
        spec_paint_pixel(e, paint, 255, s)[3] == (if s + (e[3] * (255 - s)) / 255 <= 255 {
            s + (e[3] * (255 - s)) / 255
        } else {
            255
        }),
{
    assert((255 * s) / 255 == s) by (nonlinear_arith);
    assert forall|c: int| 0 <= c < 3 implies 0 <= #[trigger] (paint[c] * s + e[c] * (255 - s)) / 255 <= 255 by {
        lemma_weighted(paint[c], e[c], s as int, 255 - s);
    }
}

} // verus!
