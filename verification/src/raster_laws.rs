use vstd::prelude::*;
use crate::raster::{
    RasterView, col_of, row_of, chan_of, lemma_index_split, lemma_offset_split, spec_flip_h,
    spec_flip_v, spec_rotate_cw, spec_rotate_ccw, spec_invert,
};

verus! {

/// Mirroring left to right twice gives back the raster.
pub proof fn law_flip_h_involutive(v: RasterView)
    requires
        v.wf(),
    ensures
        spec_flip_h(spec_flip_h(v)) == v,
{
    let w = v.width as int;
    let h = v.height as int;
    let once = spec_flip_h(v);
    let twice = spec_flip_h(once);
    assert forall|j: int| 0 <= j < v.len() implies #[trigger] twice.data[j] == v.data[j] by {
        lemma_index_split(w, h, j);
        let (x, y, c) = (col_of(w, j), row_of(w, j), chan_of(j));
        lemma_offset_split(w, h, w - 1 - x, y, c);
    }
    assert(twice.data =~= v.data);
}

/// Mirroring top to bottom twice gives back the raster.
pub proof fn law_flip_v_involutive(v: RasterView)
    requires
        v.wf(),
    ensures
        spec_flip_v(spec_flip_v(v)) == v,
{
    let w = v.width as int;
    let h = v.height as int;
    let once = spec_flip_v(v);
    let twice = spec_flip_v(once);
    assert forall|j: int| 0 <= j < v.len() implies #[trigger] twice.data[j] == v.data[j] by {
        lemma_index_split(w, h, j);
        let (x, y, c) = (col_of(w, j), row_of(w, j), chan_of(j));
        lemma_offset_split(w, h, x, h - 1 - y, c);
    }
    assert(twice.data =~= v.data);
}

/// A clockwise quarter turn followed by a counter-clockwise one gives back
/// the raster.
pub proof fn law_rotate_cw_then_ccw(v: RasterView)
    requires
        v.wf(),
    ensures
        spec_rotate_ccw(spec_rotate_cw(v)) == v,
{
    let w = v.width as int;
    let h = v.height as int;
    let once = spec_rotate_cw(v);
    let twice = spec_rotate_ccw(once);
    assert(h * w * 4 == w * h * 4) by (nonlinear_arith);
    assert forall|j: int| 0 <= j < v.len() implies #[trigger] twice.data[j] == v.data[j] by {
        lemma_index_split(w, h, j);
        let (x, y, c) = (col_of(w, j), row_of(w, j), chan_of(j));
        // `twice` pixel (x, y) is `once` pixel (h - 1 - y, x)
        lemma_offset_split(h, w, h - 1 - y, x, c);
    }
    assert(twice.data =~= v.data);
}

/// A counter-clockwise quarter turn followed by a clockwise one gives back
/// the raster.
pub proof fn law_rotate_ccw_then_cw(v: RasterView)
    requires
        v.wf(),
    ensures
        spec_rotate_cw(spec_rotate_ccw(v)) == v,
{
    let w = v.width as int;
    let h = v.height as int;
    let once = spec_rotate_ccw(v);
    let twice = spec_rotate_cw(once);
    assert(h * w * 4 == w * h * 4) by (nonlinear_arith);
    assert forall|j: int| 0 <= j < v.len() implies #[trigger] twice.data[j] == v.data[j] by {
        lemma_index_split(w, h, j);
        let (x, y, c) = (col_of(w, j), row_of(w, j), chan_of(j));
        // `twice` pixel (x, y) is `once` pixel (y, w - 1 - x)
        lemma_offset_split(h, w, y, w - 1 - x, c);
    }
    assert(twice.data =~= v.data);
}

/// Inverting the colours twice gives back the raster.
pub proof fn law_invert_involutive(v: RasterView)
    requires
        v.wf(),
    ensures
        spec_invert(spec_invert(v)) == v,
{
    assert(spec_invert(spec_invert(v)).data =~= v.data);
}

/// Two clockwise quarter turns make a half turn: the same as mirroring left
/// to right and then top to bottom.
pub proof fn law_half_turn(v: RasterView)
    requires
        v.wf(),
    ensures
        spec_rotate_cw(spec_rotate_cw(v)) == spec_flip_v(spec_flip_h(v)),
{
    let w = v.width as int;
    let h = v.height as int;
    let once = spec_rotate_cw(v);
    let twice = spec_rotate_cw(once);
    let mirrored = spec_flip_v(spec_flip_h(v));
    assert(h * w * 4 == w * h * 4) by (nonlinear_arith);
    assert forall|j: int| 0 <= j < v.len() implies #[trigger] twice.data[j] == mirrored.data[j] by {
        lemma_index_split(w, h, j);
        let (x, y, c) = (col_of(w, j), row_of(w, j), chan_of(j));
        // `twice` pixel (x, y) is `once` pixel (y, w - 1 - x)
        lemma_offset_split(h, w, y, w - 1 - x, c);
        // `mirrored` pixel (x, y) is the left-right mirror's pixel (x, h - 1 - y)
        lemma_offset_split(w, h, x, h - 1 - y, c);
    }
    assert(twice.data =~= mirrored.data);
}

} // verus!
