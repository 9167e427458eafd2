use vstd::prelude::*;
use crate::labels::LayerKind;
use crate::layers::{DocView, ImageLayer, PlacedView, LayerDocument, layer_pos, find_layer};
use crate::editor::{ImageEditor, history_docs};
use crate::layer_ops::spec_image_layer_for_active;
use crate::history::spec_record;
use crate::raster::{RgbaImage, RasterView, spec_invert, spec_flip_h, spec_flip_v, spec_rotate_cw,
    spec_rotate_ccw, spec_crop, spec_filled};
use crate::fill::{spec_flood_fill, flood_fill_pixels, pixel_of};
use crate::gray::{spec_grayscale, grayscale_raster};

verus! {

broadcast use vstd::std_specs::hash::group_hash_axioms;

/// The kind and lock state of the active layer; a missing active layer
/// counts as an unlocked background.
pub open spec fn active_kind_locked(d: DocView) -> (LayerKind, bool) {
    match layer_pos(d.layers, d.active_layer_id) {
        Some(i) => (d.layers[i].kind, d.layers[i].locked),
        None => (LayerKind::Background, false),
    }
}

/// Where a whole-layer pixel operation writes.
#[derive(Debug, Clone, Copy, PartialEq, Eq, Structural)]
pub enum PaintTarget {
    /// The background image.
    Background,
    /// The raster of the raster layer with this id.
    Raster(u64),
    /// The placed image with this id.
    Placed(u64),
    /// The active layer has no pixels to change; the change still counts.
    Missing,
    /// The active layer is a text layer; nothing happens.
    TextLayer,
}

/// The target of a pixel operation on the active layer.
pub open spec fn spec_paint_target(d: DocView) -> PaintTarget {
    let kind = active_kind_locked(d).0;
    match kind {
        LayerKind::Image => match spec_image_layer_for_active(d) {
            Some(iid) => if d.image_layer_data.contains_key(iid) { PaintTarget::Placed(iid) } else { PaintTarget::Missing },
            None => PaintTarget::Missing,
        },
        LayerKind::Background => if d.image is Some { PaintTarget::Background } else { PaintTarget::Missing },
        LayerKind::Raster => if d.layer_images.contains_key(d.active_layer_id) {
            PaintTarget::Raster(d.active_layer_id)
        } else {
            PaintTarget::Missing
        },
        LayerKind::Text => PaintTarget::TextLayer,
    }
}

/// The pixels a target holds.
pub open spec fn target_raster(d: DocView, t: PaintTarget) -> Option<RasterView> {
    match t {
        PaintTarget::Background => d.image,
        PaintTarget::Raster(id) => if d.layer_images.contains_key(id) { Some(d.layer_images[id]) } else { None },
        PaintTarget::Placed(iid) => if d.image_layer_data.contains_key(iid) {
            Some(d.image_layer_data[iid].image)
        } else {
            None
        },
        _ => None,
    }
}

/// The document with the pixels of a target replaced.
pub open spec fn with_target_raster(d: DocView, t: PaintTarget, r: RasterView) -> DocView {
    match t {
        PaintTarget::Background => DocView { image: Some(r), ..d },
        PaintTarget::Raster(id) => DocView { layer_images: d.layer_images.insert(id, r), ..d },
        PaintTarget::Placed(iid) => DocView {
            image_layer_data: d.image_layer_data.insert(iid, PlacedView { image: r, ..d.image_layer_data[iid] }),
            ..d
        },
        _ => d,
    }
}

/// The effect of a whole-layer pixel operation: on a text layer nothing
/// happens; otherwise the target's pixels become `f` of themselves (when it
/// has any) and the change is marked for redrawing.
pub open spec fn pixel_op_done(a: ImageEditor, b: ImageEditor, f: spec_fn(RasterView) -> RasterView) -> bool {
    let d = a.doc@;
    let t = spec_paint_target(d);
    if t == PaintTarget::TextLayer {
        b == a
    } else {
        &&& b.doc@ == (match target_raster(d, t) {
            Some(r) => with_target_raster(d, t, f(r)),
            None => d,
        })
        &&& b == (ImageEditor { doc: b.doc, composite_dirty: true, texture_dirty: true, dirty: true, ..a })
    }
}

/// The active raster layer has a raster of its own to fill.
pub open spec fn fills_layer_raster(d: DocView) -> bool {
    active_kind_locked(d).0 == LayerKind::Raster && d.layer_images.contains_key(d.active_layer_id)
}

/// The raster a flood fill on the active layer works on: the active raster
/// layer's own raster, otherwise the background.
pub open spec fn fill_target(d: DocView) -> Option<RasterView> {
    if fills_layer_raster(d) {
        Some(d.layer_images[d.active_layer_id])
    } else {
        d.image
    }
}

/// The document after the fill target became `r`. Filling a layer raster
/// while there is no background leaves a one-pixel transparent background.
pub open spec fn with_fill_result(d: DocView, r: RasterView) -> DocView {
    if fills_layer_raster(d) {
        DocView {
            layer_images: d.layer_images.insert(d.active_layer_id, r),
            image: if d.image is Some { d.image } else { Some(spec_filled(1, 1, seq![0u8, 0u8, 0u8, 0u8])) },
            ..d
        }
    } else {
        DocView { image: Some(r), ..d }
    }
}

/// Flood-fills `img` from `(x, y)`; returns whether the start pixel had
/// another colour than `fill` (otherwise nothing changes).
fn fill_raster(img: &mut RgbaImage, x: u32, y: u32, fill: [u8; 4]) -> (changed: bool)
    requires
        x < old(img)@.width,
        y < old(img)@.height,
        old(img)@.width * old(img)@.height <= u32::MAX,
    ensures
        final(img)@ == spec_flood_fill(old(img)@, x as int, y as int, fill@),
        changed == (pixel_of(old(img)@, x as int, y as int) != fill@),
{
    let target = img.get_pixel(x, y);
    let same = target[0] == fill[0] && target[1] == fill[1] && target[2] == fill[2] && target[3] == fill[3];
    proof {
        let p = pixel_of(old(img)@, x as int, y as int);
        if same {
            assert(p =~= fill@);
        } else {
            assert(p != fill@) by {
                if p == fill@ {
                    assert(p[0] == fill@[0] && p[1] == fill@[1] && p[2] == fill@[2] && p[3] == fill@[3]);
                }
            }
        }
    }
    if same {
        return false;
    }
    flood_fill_pixels(img, x, y, fill);
    true
}

/// The effect of a quarter turn `rot`: on the placed image of an active
/// image layer (after recording an undo step), otherwise on the background,
/// whose new size the resize fields take.
pub open spec fn rotate_done(a: ImageEditor, b: ImageEditor, rot: spec_fn(RasterView) -> RasterView) -> bool {
    let d = a.doc@;
    match spec_image_layer_for_active(d) {
        Some(iid) => {
            &&& history_docs(b.history@) == spec_record(history_docs(a.history@), d)
            &&& b.doc@ == (if d.image_layer_data.contains_key(iid) {
                let p = d.image_layer_data[iid];
                DocView {
                    image_layer_data: d.image_layer_data.insert(iid, PlacedView {
                        image: rot(p.image),
                        display_w_bits: p.display_h_bits,
                        display_h_bits: p.display_w_bits,
                        ..p
                    }),
                    ..d
                }
            } else {
                d
            })
            &&& b == (ImageEditor { doc: b.doc, history: b.history, composite_dirty: true, dirty: true, ..a })
        },
        None => match d.image {
            Some(bg) => {
                &&& b.doc@ == (DocView { image: Some(rot(bg)), ..d })
                &&& b.resize_w == rot(bg).width
                &&& b.resize_h == rot(bg).height
                &&& b == (ImageEditor {
                    doc: b.doc,
                    resize_w: b.resize_w,
                    resize_h: b.resize_h,
                    texture_dirty: true,
                    composite_dirty: true,
                    dirty: true,
                    fit_on_next_frame: true,
                    ..a
                })
            },
            None => b == a,
        },
    }
}

/// The layer rasters after cropping, layer by layer through the first `n`
/// layers of the stack, each raster layer's raster to the rectangle from
/// `(x0, y0)` to `(x1, y1)` clipped to that raster (left alone when the
/// clipped rectangle is empty).
pub open spec fn crop_rasters(
    m: Map<u64, RasterView>,
    layers: Seq<ImageLayer>,
    n: int,
    x0: u32,
    y0: u32,
    x1: u32,
    y1: u32,
) -> Map<u64, RasterView>
    decreases n,
{
    if n <= 0 || n > layers.len() {
        m
    } else {
        let prev = crop_rasters(m, layers, n - 1, x0, y0, x1, y1);
        let l = layers[n - 1];
        if l.kind == LayerKind::Raster && prev.contains_key(l.id) {
            let r = prev[l.id];
            let lx1 = if x1 <= r.width { x1 as int } else { r.width as int };
            let ly1 = if y1 <= r.height { y1 as int } else { r.height as int };
            if x0 < lx1 && y0 < ly1 {
                prev.insert(l.id, spec_crop(r, x0 as int, y0 as int, (lx1 - x0) as nat, (ly1 - y0) as nat))
            } else {
                prev
            }
        } else {
            prev
        }
    }
}

impl ImageEditor {
    /// Where a pixel operation on the active layer writes.
    pub fn paint_target(&self) -> (t: PaintTarget)
        ensures
            t == spec_paint_target(self.doc@),
    {
        let id = self.doc.active_layer_id;
        let kind = match find_layer(&self.doc.layers, id) {
            Some(i) => self.doc.layers[i].kind,
            None => LayerKind::Background,
        };
        match kind {
            LayerKind::Image => match self.image_layer_for_active() {
                Some(iid) => if self.doc.image_layer_data.contains_key(&iid) {
                    PaintTarget::Placed(iid)
                } else {
                    PaintTarget::Missing
                },
                None => PaintTarget::Missing,
            },
            LayerKind::Background => if self.doc.image.is_some() {
                PaintTarget::Background
            } else {
                PaintTarget::Missing
            },
            LayerKind::Raster => if self.doc.layer_images.contains_key(&id) {
                PaintTarget::Raster(id)
            } else {
                PaintTarget::Missing
            },
            LayerKind::Text => PaintTarget::TextLayer,
        }
    }

    /// The pixels of a target.
    pub fn target_pixels(&self, t: PaintTarget) -> (r: Option<&RgbaImage>)
        ensures
            match r {
                Some(img) => target_raster(self.doc@, t) == Some(img@),
                None => target_raster(self.doc@, t) is None,
            },
    {
        match t {
            PaintTarget::Background => match &self.doc.image {
                Some(i) => Some(i),
                None => None,
            },
            PaintTarget::Raster(id) => self.doc.layer_images.get(&id),
            PaintTarget::Placed(iid) => match self.doc.image_layer_data.get(&iid) {
                Some(p) => Some(&p.image),
                None => None,
            },
            _ => None,
        }
    }

    /// Ends a whole-layer pixel operation: `result`, the target's new
    /// pixels, is stored when the target has pixels, and the change is
    /// marked; a text layer is left alone.
    pub fn finish_pixel_op(&mut self, t: PaintTarget, result: Option<RgbaImage>)
        requires
            t == spec_paint_target(old(self).doc@),
            target_raster(old(self).doc@, t) is Some <==> result is Some,
        ensures
            t == PaintTarget::TextLayer ==> *final(self) == *old(self),
            t != PaintTarget::TextLayer ==> {
                &&& final(self).doc@ == (match result {
                    Some(r) => with_target_raster(old(self).doc@, t, r@),
                    None => old(self).doc@,
                })
                &&& *final(self) == (ImageEditor {
                    doc: final(self).doc,
                    composite_dirty: true,
                    texture_dirty: true,
                    dirty: true,
                    ..*old(self)
                })
            },
    {
        if t == PaintTarget::TextLayer {
            return;
        }
        match result {
            Some(img) => match t {
                PaintTarget::Background => {
                    self.doc.image = Some(img);
                },
                PaintTarget::Raster(id) => {
                    self.doc.layer_images.insert(id, img);
                    proof {
                        assert(self.doc@.layer_images =~= old(self).doc@.layer_images.insert(id, img@));
                    }
                },
                PaintTarget::Placed(iid) => {
                    match self.doc.image_layer_data.remove(&iid) {
                        Some(mut p) => {
                            p.image = img;
                            self.doc.image_layer_data.insert(iid, p);
                            proof {
                                let d = old(self).doc@;
                                assert(self.doc@.image_layer_data =~= d.image_layer_data.insert(iid,
                                    PlacedView { image: img@, ..d.image_layer_data[iid] }));
                            }
                        },
                        None => {},
                    }
                },
                _ => {},
            },
            None => {},
        }
        self.composite_dirty = true;
        self.texture_dirty = true;
        self.dirty = true;
    }

    /// Inverts the colours of the active layer's pixels.
    pub fn apply_invert(&mut self)
        ensures
            pixel_op_done(*old(self), *final(self), |r: RasterView| spec_invert(r)),
    {
        let t = self.paint_target();
        let result = match self.target_pixels(t) {
            Some(src) => {
                let mut out = src.clone();
                out.invert();
                Some(out)
            },
            None => None,
        };
        self.finish_pixel_op(t, result);
    }

    /// Turns the active layer's pixels grey, keeping their alpha.
    pub fn apply_grayscale(&mut self)
        ensures
            pixel_op_done(*old(self), *final(self), |r: RasterView| spec_grayscale(r)),
    {
        let t = self.paint_target();
        let result = match self.target_pixels(t) {
            Some(src) => Some(grayscale_raster(src)),
            None => None,
        };
        self.finish_pixel_op(t, result);
    }

    /// Flood-fills with the current colour from `(x, y)` on the active layer:
    /// a raster layer's own raster, otherwise the background. A locked
    /// layer and a text layer are left alone, and so is everything when the
    /// start pixel already has the fill colour.
    #[verifier::rlimit(40)]
    pub fn flood_fill(&mut self, x: u32, y: u32)
        requires
            ({
                let d = old(self).doc@;
                let (kind, locked) = active_kind_locked(d);
                !locked && kind != LayerKind::Text && kind != LayerKind::Image ==> match fill_target(d) {
                    Some(r) => x < r.width && y < r.height && r.width * r.height <= u32::MAX,
                    None => true,
                }
            }),
        ensures
            ({
                let d = old(self).doc@;
                let (kind, locked) = active_kind_locked(d);
                let fill = seq![old(self).color.r, old(self).color.g, old(self).color.b, old(self).color.a];
                if locked || kind == LayerKind::Text || kind == LayerKind::Image {
                    *final(self) == *old(self)
                } else {
                    match fill_target(d) {
                        None => *final(self) == *old(self),
                        Some(r) => if pixel_of(r, x as int, y as int) == fill {
                            &&& final(self).doc@ == with_fill_result(d, r)
                            &&& final(self).dirty == old(self).dirty
                            &&& final(self).texture_dirty == old(self).texture_dirty
                        } else {
                            &&& final(self).doc@ == with_fill_result(d, spec_flood_fill(r, x as int, y as int, fill))
                            &&& final(self).texture_dirty
                            &&& final(self).dirty
                            &&& (fills_layer_raster(d) ==> final(self).composite_dirty)
                        },
                    }
                }
            }),
            final(self).resize_w == old(self).resize_w,
            final(self).history == old(self).history,
            final(self).tool == old(self).tool,
            final(self).color == old(self).color,
            final(self).selected_text == old(self).selected_text,
            final(self).selected_image_layer == old(self).selected_image_layer,
            final(self).texture_dirty_rect == old(self).texture_dirty_rect,
            final(self).resize_h == old(self).resize_h,
            final(self).fit_on_next_frame == old(self).fit_on_next_frame,
            final(self).editing_text == old(self).editing_text,
            final(self).filter_panel == old(self).filter_panel,
            final(self).is_processing == old(self).is_processing,
    {
        let id = self.doc.active_layer_id;
        let (kind, locked) = match find_layer(&self.doc.layers, id) {
            Some(i) => (self.doc.layers[i].kind, self.doc.layers[i].locked),
            None => (LayerKind::Background, false),
        };
        if locked || kind == LayerKind::Text || kind == LayerKind::Image {
            return;
        }
        let fill = [self.color.r, self.color.g, self.color.b, self.color.a];
        proof {
            assert(fill@ =~= seq![self.color.r, self.color.g, self.color.b, self.color.a]);
        }
        let on_layer = kind == LayerKind::Raster && self.doc.layer_images.contains_key(&id);
        let changed;
        if on_layer {
            let mut img = match self.doc.layer_images.get(&id) {
                Some(i) => i.clone(),
                None => return,
            };
            changed = fill_raster(&mut img, x, y, fill);
            self.doc.layer_images.insert(id, img);
            if self.doc.image.is_none() {
                self.doc.image = Some(RgbaImage::new_filled(1, 1, [0u8, 0, 0, 0]));
                proof {
                    assert([0u8, 0, 0, 0]@ =~= seq![0u8, 0u8, 0u8, 0u8]);
                }
            }
            proof {
                let d = old(self).doc@;
                let r = d.layer_images[id];
                assert(self.doc@.layer_images =~= d.layer_images.insert(id, spec_flood_fill(r, x as int, y as int, fill@)));
            }
            if changed {
                self.composite_dirty = true;
            }
        } else {
            let mut img = match &self.doc.image {
                Some(i) => i.clone(),
                None => return,
            };
            changed = fill_raster(&mut img, x, y, fill);
            self.doc.image = Some(img);
        }
        if changed {
            self.texture_dirty = true;
            self.dirty = true;
        }
    }

    /// Flood-fills with the current colour inside the placed image of the
    /// active image layer, from its pixel `(lx, ly)`. A locked layer is left
    /// alone, and so is everything when the pixel lies outside the image or
    /// already has the fill colour.
    pub fn flood_fill_image_layer(&mut self, lx: u32, ly: u32)
        requires
            ({
                let d = old(self).doc@;
                match spec_image_layer_for_active(d) {
                    Some(iid) => d.image_layer_data.contains_key(iid)
                        ==> d.image_layer_data[iid].image.width * d.image_layer_data[iid].image.height <= u32::MAX,
                    None => true,
                }
            }),
        ensures
            ({
                let d = old(self).doc@;
                let fill = seq![old(self).color.r, old(self).color.g, old(self).color.b, old(self).color.a];
                match spec_image_layer_for_active(d) {
                    Some(iid) => {
                        if !active_kind_locked(d).1 && d.image_layer_data.contains_key(iid) {
                            let p = d.image_layer_data[iid];
                            if lx < p.image.width && ly < p.image.height && pixel_of(p.image, lx as int, ly as int) != fill {
                                &&& final(self).doc@ == (DocView {
                                    image_layer_data: d.image_layer_data.insert(iid, PlacedView {
                                        image: spec_flood_fill(p.image, lx as int, ly as int, fill),
                                        ..p
                                    }),
                                    ..d
                                })
                                &&& *final(self) == (ImageEditor {
                                    doc: final(self).doc,
                                    composite_dirty: true,
                                    texture_dirty: true,
                                    dirty: true,
                                    ..*old(self)
                                })
                            } else {
                                *final(self) == *old(self)
                            }
                        } else {
                            *final(self) == *old(self)
                        }
                    },
                    None => *final(self) == *old(self),
                }
            }),
    {
        let locked = match find_layer(&self.doc.layers, self.doc.active_layer_id) {
            Some(i) => self.doc.layers[i].locked,
            None => false,
        };
        if locked {
            return;
        }
        let iid = match self.image_layer_for_active() {
            Some(i) => i,
            None => return,
        };
        let mut img = match self.doc.image_layer_data.get(&iid) {
            Some(p) => p.image.clone(),
            None => return,
        };
        if lx >= img.width() || ly >= img.height() {
            return;
        }
        let fill = [self.color.r, self.color.g, self.color.b, self.color.a];
        proof {
            assert(fill@ =~= seq![self.color.r, self.color.g, self.color.b, self.color.a]);
        }
        let target = img.get_pixel(lx, ly);
        if target[0] == fill[0] && target[1] == fill[1] && target[2] == fill[2] && target[3] == fill[3] {
            proof {
                assert(pixel_of(img@, lx as int, ly as int) =~= fill@);
            }
            return;
        }
        let _ = fill_raster(&mut img, lx, ly, fill);
        match self.doc.image_layer_data.remove(&iid) {
            Some(mut p) => {
                p.image = img;
                self.doc.image_layer_data.insert(iid, p);
            },
            None => {},
        }
        proof {
            let d = old(self).doc@;
            let q = d.image_layer_data[iid];
            assert(self.doc@.image_layer_data =~= d.image_layer_data.insert(iid, PlacedView {
                image: spec_flood_fill(q.image, lx as int, ly as int, fill@),
                ..q
            }));
        }
        self.composite_dirty = true;
        self.texture_dirty = true;
        self.dirty = true;
    }

    /// Mirrors left to right: the placed image of an active image layer
    /// (recording an undo step first), otherwise the background.
    pub fn apply_flip_h(&mut self)
        ensures
            ({
                let d = old(self).doc@;
                match spec_image_layer_for_active(d) {
                    Some(iid) => {
                        &&& history_docs(final(self).history@) == spec_record(history_docs(old(self).history@), d)
                        &&& final(self).doc@ == (if d.image_layer_data.contains_key(iid) {
                            let p = d.image_layer_data[iid];
                            DocView {
                                image_layer_data: d.image_layer_data.insert(iid, PlacedView { flip_h: !p.flip_h, ..p }),
                                ..d
                            }
                        } else {
                            d
                        })
                        &&& final(self).composite_dirty
                        &&& final(self).dirty
                    },
                    None => match d.image {
                        Some(bg) => {
                            &&& final(self).doc@ == (DocView { image: Some(spec_flip_h(bg)), ..d })
                            &&& history_docs(final(self).history@) == history_docs(old(self).history@)
                            &&& final(self).texture_dirty
                            &&& final(self).composite_dirty
                            &&& final(self).dirty
                        },
                        None => *final(self) == *old(self),
                    },
                }
            }),
    {
        match self.image_layer_for_active() {
            Some(iid) => {
                self.push_undo();
                if self.doc.image_layer_data.contains_key(&iid) {
                    match self.doc.image_layer_data.remove(&iid) {
                        Some(mut p) => {
                            p.flip_h = !p.flip_h;
                            self.doc.image_layer_data.insert(iid, p);
                        },
                        None => {},
                    }
                    proof {
                        let d = old(self).doc@;
                        let q = d.image_layer_data[iid];
                        assert(self.doc@.image_layer_data =~= d.image_layer_data.insert(iid, PlacedView { flip_h: !q.flip_h, ..q }));
                    }
                }
                self.composite_dirty = true;
                self.dirty = true;
            },
            None => {
                let flipped = match &self.doc.image {
                    Some(img) => img.flip_h(),
                    None => return,
                };
                self.doc.image = Some(flipped);
                self.texture_dirty = true;
                self.composite_dirty = true;
                self.dirty = true;
            },
        }
    }

    /// Mirrors the background top to bottom.
    pub fn apply_flip_v(&mut self)
        ensures
            match old(self).doc@.image {
                Some(bg) => {
                    &&& final(self).doc@ == (DocView { image: Some(spec_flip_v(bg)), ..old(self).doc@ })
                    &&& history_docs(final(self).history@) == history_docs(old(self).history@)
                    &&& final(self).texture_dirty
                    &&& final(self).composite_dirty
                    &&& final(self).dirty
                },
                None => *final(self) == *old(self),
            },
    {
        let flipped = match &self.doc.image {
            Some(img) => img.flip_v(),
            None => return,
        };
        self.doc.image = Some(flipped);
        self.texture_dirty = true;
        self.composite_dirty = true;
        self.dirty = true;
    }

    /// Turns a quarter turn clockwise: the placed image of an active image
    /// layer (recording an undo step first, and exchanging its display width
    /// and height), otherwise the background.
    pub fn apply_rotate_cw(&mut self)
        ensures
            rotate_done(*old(self), *final(self), |r: RasterView| spec_rotate_cw(r)),
    {
        match self.image_layer_for_active() {
            Some(iid) => {
                self.push_undo();
                self.rotate_placed(iid, true);
            },
            None => {
                let rotated = match &self.doc.image {
                    Some(img) => img.rotate_cw(),
                    None => return,
                };
                self.resize_w = rotated.width();
                self.resize_h = rotated.height();
                self.doc.image = Some(rotated);
                self.texture_dirty = true;
                self.composite_dirty = true;
                self.dirty = true;
                self.fit_on_next_frame = true;
            },
        }
    }

    /// Turns a quarter turn counter-clockwise, as `apply_rotate_cw` does the
    /// other way.
    pub fn apply_rotate_ccw(&mut self)
        ensures
            rotate_done(*old(self), *final(self), |r: RasterView| spec_rotate_ccw(r)),
    {
        match self.image_layer_for_active() {
            Some(iid) => {
                self.push_undo();
                self.rotate_placed(iid, false);
            },
            None => {
                let rotated = match &self.doc.image {
                    Some(img) => img.rotate_ccw(),
                    None => return,
                };
                self.resize_w = rotated.width();
                self.resize_h = rotated.height();
                self.doc.image = Some(rotated);
                self.texture_dirty = true;
                self.composite_dirty = true;
                self.dirty = true;
                self.fit_on_next_frame = true;
            },
        }
    }

    /// Turns the placed image `iid` a quarter turn and exchanges its display
    /// width and height.
    fn rotate_placed(&mut self, iid: u64, clockwise: bool)
        ensures
            final(self).doc@ == (if old(self).doc@.image_layer_data.contains_key(iid) {
                let p = old(self).doc@.image_layer_data[iid];
                DocView {
                    image_layer_data: old(self).doc@.image_layer_data.insert(iid, PlacedView {
                        image: if clockwise { spec_rotate_cw(p.image) } else { spec_rotate_ccw(p.image) },
                        display_w_bits: p.display_h_bits,
                        display_h_bits: p.display_w_bits,
                        ..p
                    }),
                    ..old(self).doc@
                }
            } else {
                old(self).doc@
            }),
            *final(self) == (ImageEditor { doc: final(self).doc, composite_dirty: true, dirty: true, ..*old(self) }),
    {
        if self.doc.image_layer_data.contains_key(&iid) {
            match self.doc.image_layer_data.remove(&iid) {
                Some(mut p) => {
                    let rotated = if clockwise { p.image.rotate_cw() } else { p.image.rotate_ccw() };
                    let old_w = p.display_w_bits;
                    p.display_w_bits = p.display_h_bits;
                    p.display_h_bits = old_w;
                    p.image = rotated;
                    self.doc.image_layer_data.insert(iid, p);
                },
                None => {},
            }
            proof {
                let d = old(self).doc@;
                let q = d.image_layer_data[iid];
                assert(self.doc@.image_layer_data =~= d.image_layer_data.insert(iid, PlacedView {
                    image: if clockwise { spec_rotate_cw(q.image) } else { spec_rotate_ccw(q.image) },
                    display_w_bits: q.display_h_bits,
                    display_h_bits: q.display_w_bits,
                    ..q
                }));
            }
        }
        self.composite_dirty = true;
        self.dirty = true;
    }

    /// Crops the background to the rectangle from `(x0, y0)` to `(x1, y1)`
    /// (clipped to the image), and every raster layer's raster to the same
    /// rectangle clipped to that raster. Nothing happens when the clipped
    /// rectangle is empty.
    pub fn apply_crop(&mut self, x0: u32, y0: u32, x1: u32, y1: u32)
        ensures
            match old(self).doc@.image {
                Some(bg) => {
                    let cx1 = if x1 <= bg.width { x1 as int } else { bg.width as int };
                    let cy1 = if y1 <= bg.height { y1 as int } else { bg.height as int };
                    if cx1 <= x0 || cy1 <= y0 {
                        *final(self) == *old(self)
                    } else {
                        let d = old(self).doc@;
                        &&& final(self).doc@ == (DocView {
                            image: Some(spec_crop(bg, x0 as int, y0 as int, (cx1 - x0) as nat, (cy1 - y0) as nat)),
                            layer_images: crop_rasters(d.layer_images, d.layers, d.layers.len() as int, x0, y0, x1, y1),
                            ..d
                        })
                        &&& final(self).resize_w == cx1 - x0
                        &&& final(self).resize_h == cy1 - y0
                        &&& *final(self) == (ImageEditor {
                            doc: final(self).doc,
                            resize_w: final(self).resize_w,
                            resize_h: final(self).resize_h,
                            texture_dirty: true,
                            composite_dirty: true,
                            dirty: true,
                            fit_on_next_frame: true,
                            ..*old(self)
                        })
                    }
                },
                None => *final(self) == *old(self),
            },
    {
        let (w, h) = match &self.doc.image {
            Some(img) => (img.width(), img.height()),
            None => return,
        };
        let cx1 = if x1 <= w { x1 } else { w };
        let cy1 = if y1 <= h { y1 } else { h };
        if cx1 <= x0 || cy1 <= y0 {
            return;
        }
        let cropped = match &self.doc.image {
            Some(img) => img.crop(x0, y0, cx1 - x0, cy1 - y0),
            None => return,
        };
        let mut doc = LayerDocument::new();
        std::mem::swap(&mut doc, &mut self.doc);
        doc.image = Some(cropped);
        let n = doc.layers.len();
        let mut i: usize = 0;
        let ghost pre = doc@;
        while i < n
            invariant
                doc@ == (DocView { layer_images: doc@.layer_images, ..pre }),
                pre == (DocView { image: pre.image, ..old(self).doc@ }),
                n == doc@.layers.len(),
                doc@.layers == old(self).doc@.layers,
                i <= n,
                doc@.layer_images == crop_rasters(old(self).doc@.layer_images, old(self).doc@.layers, i as int, x0, y0, x1, y1),
            decreases n - i,
        {
            let id = doc.layers[i].id;
            if doc.layers[i].kind == LayerKind::Raster {
                let found = match doc.layer_images.get(&id) {
                    Some(r) => {
                        let lw = r.width();
                        let lh = r.height();
                        let lx1 = if x1 <= lw { x1 } else { lw };
                        let ly1 = if y1 <= lh { y1 } else { lh };
                        if x0 < lx1 && y0 < ly1 {
                            Some(r.crop(x0, y0, lx1 - x0, ly1 - y0))
                        } else {
                            None
                        }
                    },
                    None => None,
                };
                match found {
                    Some(c) => {
                        doc.layer_images.insert(id, c);
                    },
                    None => {},
                }
            }
            proof {
                assert(doc@.layer_images =~= crop_rasters(old(self).doc@.layer_images, old(self).doc@.layers, i + 1, x0, y0, x1, y1));
            }
            i = i + 1;
        }
        self.doc = doc;
        self.resize_w = cx1 - x0;
        self.resize_h = cy1 - y0;
        self.texture_dirty = true;
        self.composite_dirty = true;
        self.dirty = true;
        self.fit_on_next_frame = true;
    }

    /// Crops the placed image of the active image layer to the rectangle
    /// from `(x0, y0)` to `(x1, y1)` of its own pixels, after recording an
    /// undo step, and gives it the new canvas position and display size
    /// (as `f32` bits, computed by the caller from the old ones). Nothing
    /// happens when there is no such placed image or the rectangle is empty
    /// or leaves the image.
    pub fn crop_image_layer(&mut self, x0: u32, y0: u32, x1: u32, y1: u32,
        canvas_x_bits: u32, canvas_y_bits: u32, display_w_bits: u32, display_h_bits: u32)
        ensures
            ({
                let d = old(self).doc@;
                match spec_image_layer_for_active(d) {
                    Some(iid) => if d.image_layer_data.contains_key(iid)
                        && x0 < x1 <= d.image_layer_data[iid].image.width
                        && y0 < y1 <= d.image_layer_data[iid].image.height {
                        let p = d.image_layer_data[iid];
                        &&& final(self).doc@ == (DocView {
                            image_layer_data: d.image_layer_data.insert(iid, PlacedView {
                                image: spec_crop(p.image, x0 as int, y0 as int, (x1 - x0) as nat, (y1 - y0) as nat),
                                canvas_x_bits,
                                canvas_y_bits,
                                display_w_bits,
                                display_h_bits,
                                ..p
                            }),
                            ..d
                        })
                        &&& history_docs(final(self).history@) == spec_record(history_docs(old(self).history@), d)
                        &&& *final(self) == (ImageEditor {
                            doc: final(self).doc,
                            history: final(self).history,
                            composite_dirty: true,
                            dirty: true,
                            ..*old(self)
                        })
                    } else {
                        *final(self) == *old(self)
                    },
                    None => *final(self) == *old(self),
                }
            }),
    {
        let iid = match self.image_layer_for_active() {
            Some(i) => i,
            None => return,
        };
        let cropped = match self.doc.image_layer_data.get(&iid) {
            Some(p) => if x0 < x1 && x1 <= p.image.width() && y0 < y1 && y1 <= p.image.height() {
                p.image.crop(x0, y0, x1 - x0, y1 - y0)
            } else {
                return;
            },
            None => return,
        };
        self.push_undo();
        match self.doc.image_layer_data.remove(&iid) {
            Some(mut p) => {
                p.image = cropped;
                p.canvas_x_bits = canvas_x_bits;
                p.canvas_y_bits = canvas_y_bits;
                p.display_w_bits = display_w_bits;
                p.display_h_bits = display_h_bits;
                self.doc.image_layer_data.insert(iid, p);
                proof {
                    let d = old(self).doc@;
                    let q = d.image_layer_data[iid];
                    assert(self.doc@.image_layer_data =~= d.image_layer_data.insert(iid, PlacedView {
                        image: spec_crop(q.image, x0 as int, y0 as int, (x1 - x0) as nat, (y1 - y0) as nat),
                        canvas_x_bits,
                        canvas_y_bits,
                        display_w_bits,
                        display_h_bits,
                        ..q
                    }));
                }
            },
            None => {},
        }
        self.composite_dirty = true;
        self.dirty = true;
    }
}

} // verus!
