use vstd::prelude::*;
use crate::labels::LayerKind;
use crate::layers::{DocView, find_layer};
use crate::editor::{ImageEditor, history_docs};
use crate::history::spec_record;
use crate::labels::Tool;
use crate::layer_ops::spec_image_layer_for_active;
use crate::tools::active_kind_locked;

verus! {

broadcast use vstd::std_specs::hash::group_hash_axioms;

/// Where a brush or eraser stroke draws.
#[derive(Debug, Clone, Copy, PartialEq, Eq, Structural)]
pub enum StrokeTarget {
    /// Nowhere: the layer is locked or holds text, or there is nothing to
    /// draw on or no stroke to draw.
    Nothing,
    /// The background image.
    Background,
    /// The raster of the raster layer with this id.
    Layer(u64),
    /// The placed image with this id.
    Placed(u64),
}

/// What a stroke lays down: the colour and its strength (`alpha`), or,
/// when `clears`, coverage taken away.
#[derive(Debug, Clone, Copy, PartialEq, Eq, Structural)]
pub struct StrokePaint {
    pub r: u8,
    pub g: u8,
    pub b: u8,
    pub alpha: u8,
    pub clears: bool,
}

/// Where a stroke of `points` points lands on the active layer: a locked or
/// text layer takes none; an image layer's placed image; a raster layer's
/// own raster, or the background when it has none (or the active layer is
/// the background); nothing without such pixels or with fewer than two
/// points. The last case is deliberate: a stroke of fewer than two points
/// leaves the document untouched, so no layer raster is ever swapped into
/// the background slot and no background is dropped on its account.
pub open spec fn spec_stroke_target(d: DocView, points: nat) -> StrokeTarget {
    let (kind, locked) = active_kind_locked(d);
    if locked || kind == LayerKind::Text || points < 2 {
        StrokeTarget::Nothing
    } else if kind == LayerKind::Image {
        match spec_image_layer_for_active(d) {
            Some(iid) => if d.image_layer_data.contains_key(iid) { StrokeTarget::Placed(iid) } else { StrokeTarget::Nothing },
            None => StrokeTarget::Nothing,
        }
    } else if kind == LayerKind::Raster && d.layer_images.contains_key(d.active_layer_id) {
        StrokeTarget::Layer(d.active_layer_id)
    } else if d.image is Some {
        StrokeTarget::Background
    } else {
        StrokeTarget::Nothing
    }
}

/// What a stroke lays down: the current colour for the brush; for the
/// eraser, transparency on a placed image, on a raster layer or when
/// `eraser_transparent` is set, and opaque white otherwise.
pub open spec fn spec_stroke_paint(d: DocView, color: [u8; 4], eraser: bool, eraser_transparent: bool) -> StrokePaint {
    let kind = active_kind_locked(d).0;
    if !eraser {
        StrokePaint { r: color[0], g: color[1], b: color[2], alpha: color[3], clears: false }
    } else if eraser_transparent || kind == LayerKind::Raster || kind == LayerKind::Image {
        StrokePaint { r: 0, g: 0, b: 0, alpha: 0, clears: true }
    } else {
        StrokePaint { r: 255, g: 255, b: 255, alpha: 255, clears: false }
    }
}

impl ImageEditor {
    /// Where a stroke of `points` points lands and what it lays down.
    pub fn stroke_plan(&self, points: usize, eraser: bool, eraser_transparent: bool) -> (r: (StrokeTarget, StrokePaint))
        ensures
            r.0 == spec_stroke_target(self.doc@, points as nat),
            r.1 == spec_stroke_paint(
                self.doc@,
                [self.color.r, self.color.g, self.color.b, self.color.a],
                eraser,
                eraser_transparent,
            ),
    {
        let id = self.doc.active_layer_id;
        let (kind, locked) = match find_layer(&self.doc.layers, id) {
            Some(i) => (self.doc.layers[i].kind, self.doc.layers[i].locked),
            None => (LayerKind::Background, false),
        };
        let target = if locked || kind == LayerKind::Text || points < 2 {
            StrokeTarget::Nothing
        } else if kind == LayerKind::Image {
            match self.image_layer_for_active() {
                Some(iid) => if self.doc.image_layer_data.contains_key(&iid) {
                    StrokeTarget::Placed(iid)
                } else {
                    StrokeTarget::Nothing
                },
                None => StrokeTarget::Nothing,
            }
        } else if kind == LayerKind::Raster && self.doc.layer_images.contains_key(&id) {
            StrokeTarget::Layer(id)
        } else if self.doc.image.is_some() {
            StrokeTarget::Background
        } else {
            StrokeTarget::Nothing
        };
        let paint = if !eraser {
            StrokePaint { r: self.color.r, g: self.color.g, b: self.color.b, alpha: self.color.a, clears: false }
        } else if eraser_transparent || kind == LayerKind::Raster || kind == LayerKind::Image {
            StrokePaint { r: 0, g: 0, b: 0, alpha: 0, clears: true }
        } else {
            StrokePaint { r: 255, g: 255, b: 255, alpha: 255, clears: false }
        };
        (target, paint)
    }
}

/// The tools that paint by dragging.
pub open spec fn is_stroke_tool(t: Tool) -> bool {
    t == Tool::Brush || t == Tool::Eraser || t == Tool::Retouch
}

/// A drag of a painting tool: whether one is under way, and how many of its
/// points wait to be drawn.
#[derive(Debug, Clone, Copy, PartialEq, Eq, Structural)]
pub struct StrokeGesture {
    pub dragging: bool,
    pub pending: usize,
}

impl StrokeGesture {
    /// No drag under way.
    pub fn new() -> (g: StrokeGesture)
        ensures
            g == (StrokeGesture { dragging: false, pending: 0 }),
    {
        StrokeGesture { dragging: false, pending: 0 }
    }
}

/// The points that wait at the start of a drag frame: none when the drag
/// begins with it.
pub open spec fn pending_before(g: StrokeGesture) -> int {
    if g.dragging { g.pending as int } else { 0 }
}

impl ImageEditor {
    /// One frame of a painting drag, in which a point lands on the canvas or
    /// not (`lands`). The first frame of a drag records the document for
    /// undo, once for the whole drag. A landing point joins those waiting;
    /// when one was already waiting, the segment between them is drawn
    /// (`true`) and the new point waits as the start of the next one.
    pub fn stroke_drag_frame(&mut self, g: &mut StrokeGesture, lands: bool) -> (draw: bool)
        ensures
            final(g).dragging,
            draw == (lands && pending_before(*old(g)) >= 1),
            final(g).pending == (if lands { 1 } else { pending_before(*old(g)) }),
            old(g).dragging ==> *final(self) == *old(self),
            !old(g).dragging ==> {
                &&& history_docs(final(self).history@) == spec_record(history_docs(old(self).history@), old(self).doc@)
                &&& *final(self) == (ImageEditor { history: final(self).history, ..*old(self) })
            },
    {
        if !g.dragging {
            self.push_undo();
            g.dragging = true;
            g.pending = 0;
        }
        if lands {
            let draw = g.pending >= 1;
            g.pending = 1;
            draw
        } else {
            false
        }
    }

    /// The end of a drag: under a painting tool the drag stops, its waiting
    /// points are dropped and the composite is rebuilt; under any other tool
    /// nothing changes.
    pub fn stroke_release(&mut self, g: &mut StrokeGesture)
        ensures
            is_stroke_tool(old(self).tool) ==> {
                &&& *final(g) == (StrokeGesture { dragging: false, pending: 0 })
                &&& *final(self) == (ImageEditor { composite_dirty: true, ..*old(self) })
            },
            !is_stroke_tool(old(self).tool) ==> *final(g) == *old(g) && *final(self) == *old(self),
    {
        if self.tool == Tool::Brush || self.tool == Tool::Eraser || self.tool == Tool::Retouch {
            self.composite_dirty = true;
            g.dragging = false;
            g.pending = 0;
        }
    }
}

/// The eraser on a placed image or a raster layer always erases to
/// transparency, whatever the transparent-eraser option says; a clearing
/// stroke carries no colour. Only on the background, with the option off,
/// does the eraser paint opaque white.
pub proof fn law_eraser_clears_layers(d: DocView, color: [u8; 4], eraser_transparent: bool)
    ensures
        (active_kind_locked(d).0 == LayerKind::Image || active_kind_locked(d).0 == LayerKind::Raster)
            ==> spec_stroke_paint(d, color, true, eraser_transparent)
            == (StrokePaint { r: 0, g: 0, b: 0, alpha: 0, clears: true }),
        eraser_transparent ==> spec_stroke_paint(d, color, true, eraser_transparent).clears,
        (active_kind_locked(d).0 == LayerKind::Background && !eraser_transparent)
            ==> spec_stroke_paint(d, color, true, eraser_transparent)
            == (StrokePaint { r: 255, g: 255, b: 255, alpha: 255, clears: false }),
{
}

/// The brush never clears: it lays the current colour at its own alpha.
pub proof fn law_brush_lays_the_colour(d: DocView, color: [u8; 4], eraser_transparent: bool)
    ensures
        spec_stroke_paint(d, color, false, eraser_transparent)
            == (StrokePaint { r: color[0], g: color[1], b: color[2], alpha: color[3], clears: false }),
{
}

} // verus!
