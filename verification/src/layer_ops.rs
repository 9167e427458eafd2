use vstd::prelude::*;
use vstd::string::StringExecFns;
use crate::labels::{Tool, LayerKind, BlendMode, FilterPanel};
use crate::layers::{ids_fresh, DocView, ImageLayer, LayerDocument, TextLayer, PlacedView, ImageLayerData, OPACITY_ONE, opt_index, background_layer, new_background_layer, text_pos, lemma_text_pos_from, find_text, without_text, remove_text, layer_pos, layer_rpos, lemma_rpos_before, lemma_pos_from, rfind_layer, find_layer, has_text_link, any_text_link};
use crate::editor::{ImageEditor, history_docs};
use crate::history::spec_record;
use crate::raster::{RgbaImage, RasterView, spec_filled};
use crate::text::{dec_digits, push_decimal_u64};

verus! {

broadcast use vstd::std_specs::hash::group_hash_axioms;

/// Some layer of `s` is a visible image layer.
pub open spec fn has_visible_image_layer(s: Seq<ImageLayer>) -> bool {
    exists|i: int| 0 <= i < s.len() && #[trigger] s[i].visible && s[i].kind == LayerKind::Image
}

/// Where a new layer goes: just above the last layer with the active id,
/// or on top when there is none.
pub open spec fn insert_pos(d: DocView) -> int {
    match layer_rpos(d.layers, d.active_layer_id) {
        Some(p) => p + 1,
        None => d.layers.len() as int,
    }
}

/// A freshly made layer: fully opaque, visible, unlocked, normal blending.
pub open spec fn fresh_layer(
    l: ImageLayer,
    id: u64,
    name: Seq<char>,
    kind: LayerKind,
    text: Option<u64>,
    image: Option<u64>,
) -> bool {
    &&& l.id == id
    &&& l.name@ == name
    &&& l.opacity_bits == OPACITY_ONE
    &&& l.visible
    &&& !l.locked
    &&& l.blend_mode == BlendMode::Normal
    &&& l.kind == kind
    &&& l.linked_text_id == text
    &&& l.linked_image_id == image
}

/// `d2` is `d` with `l` inserted among the layers at `pos` and nothing else
/// of the stack changed.
pub open spec fn layer_inserted(d: DocView, d2: DocView, pos: int) -> bool {
    &&& d2.layers.len() == d.layers.len() + 1
    &&& d2.layers == d.layers.insert(pos, d2.layers[pos])
}

/// The position of the active layer when merging it down is possible.
pub open spec fn merge_down_index(d: DocView) -> Option<int> {
    match layer_pos(d.layers, d.active_layer_id) {
        Some(i) => if i > 0 && d.layers[i - 1].kind != LayerKind::Text && d.layers[i - 1].kind != LayerKind::Image {
            Some(i)
        } else {
            None
        },
        None => None,
    }
}

/// The position of the active layer and its placed image, when the image
/// layer can be turned into a raster.
pub open spec fn rasterize_target(d: DocView) -> Option<(int, u64)> {
    if d.image is None {
        None
    } else {
        match spec_image_layer_for_active(d) {
            Some(iid) => match layer_pos(d.layers, d.active_layer_id) {
                Some(i) => if d.image_layer_data.contains_key(iid) { Some((i, iid)) } else { None },
                None => None,
            },
            None => None,
        }
    }
}

/// The raster a layer paints with: the background for the background
/// layer, its own raster for a raster layer, none otherwise.
pub open spec fn layer_raster(d: DocView, l: ImageLayer) -> Option<RasterView> {
    match l.kind {
        LayerKind::Background => d.image,
        LayerKind::Raster => if d.layer_images.contains_key(l.id) {
            Some(d.layer_images[l.id])
        } else {
            None
        },
        _ => None,
    }
}

/// The placed image the active layer shows, if it is an image layer.
pub open spec fn spec_image_layer_for_active(d: DocView) -> Option<u64> {
    match layer_pos(d.layers, d.active_layer_id) {
        Some(i) => if d.layers[i].kind == LayerKind::Image { d.layers[i].linked_image_id } else { None },
        None => None,
    }
}

/// The layers with the entries at `i` and `j` exchanged.
pub open spec fn swap_layers(s: Seq<ImageLayer>, i: int, j: int) -> Seq<ImageLayer> {
    s.update(i, s[j]).update(j, s[i])
}

/// The active layer exists and is not on top.
pub open spec fn can_move_up(d: DocView) -> bool {
    layer_pos(d.layers, d.active_layer_id) matches Some(i) && i + 1 < d.layers.len()
}

/// The active layer exists and sits above the two lowest slots.
pub open spec fn can_move_down(d: DocView) -> bool {
    layer_pos(d.layers, d.active_layer_id) matches Some(i) && i > 1
}

/// The stack after moving the active layer one step up; nothing changes
/// when it is on top or missing.
pub open spec fn spec_move_up(d: DocView) -> Seq<ImageLayer> {
    if can_move_up(d) {
        let i = layer_pos(d.layers, d.active_layer_id)->Some_0;
        swap_layers(d.layers, i, i + 1)
    } else {
        d.layers
    }
}

/// The stack after moving the active layer one step down; a layer never
/// moves into the lowest slot.
pub open spec fn spec_move_down(d: DocView) -> Seq<ImageLayer> {
    if can_move_down(d) {
        let i = layer_pos(d.layers, d.active_layer_id)->Some_0;
        swap_layers(d.layers, i, i - 1)
    } else {
        d.layers
    }
}

/// The document with only its layer stack replaced.
pub open spec fn with_layers(d: DocView, s: Seq<ImageLayer>) -> DocView {
    DocView { layers: s, ..d }
}

/// The dirty rectangle after a change to `[x0, y0, x1, y1]`: it grows to
/// cover the change; with none yet, it starts there unless the whole
/// texture is already due for upload.
pub open spec fn spec_expand_rect(r: Option<[u32; 4]>, texture_dirty: bool, x0: u32, y0: u32, x1: u32, y1: u32) -> Option<Seq<u32>> {
    match r {
        None => if !texture_dirty { Some(seq![x0, y0, x1, y1]) } else { None },
        Some(a) => Some(seq![
            if a[0] <= x0 { a[0] } else { x0 },
            if a[1] <= y0 { a[1] } else { y0 },
            if a[2] >= x1 { a[2] } else { x1 },
            if a[3] >= y1 { a[3] } else { y1 },
        ]),
    }
}

pub open spec fn opt_rect(r: Option<[u32; 4]>) -> Option<Seq<u32>> {
    match r {
        Some(a) => Some(a@),
        None => None,
    }
}

/// `d2` is `d` after making sure the text `text_id` has a layer: unchanged
/// when a layer shows it already, otherwise with a text layer named after
/// it added above the active one, which becomes active.
pub open spec fn text_entry_done(d: DocView, d2: DocView, text_id: u64) -> bool {
    if has_text_link(d.layers, text_id) {
        d2 == d
    } else {
        let id = d.next_layer_id;
        let pos = insert_pos(d);
        &&& layer_inserted(d, d2, pos)
        &&& fresh_layer(d2.layers[pos], id, "Text "@ + dec_digits((text_id + 1) as nat),
            LayerKind::Text, Some(text_id), None)
        &&& d2 == (DocView { layers: d2.layers, active_layer_id: id, next_layer_id: (id + 1) as u64, ..d })
    }
}

/// Exchanges the layers at `i` and `i + 1`.
fn swap_adjacent(v: &mut Vec<ImageLayer>, i: usize)
    requires
        i + 1 < old(v)@.len(),
    ensures
        final(v)@ == swap_layers(old(v)@, i as int, i + 1),
{
    let _n = v.len();
    let upper = v.remove(i + 1);
    v.insert(i, upper);
    assert(v@ =~= swap_layers(old(v)@, i as int, i + 1));
}

impl ImageEditor {
    /// Where a new layer goes.
    fn insert_above_active(&self) -> (r: usize)
        ensures
            r == insert_pos(self.doc@),
            r <= self.doc@.layers.len(),
    {
        proof {
            lemma_rpos_before(self.doc@.layers, self.doc@.active_layer_id, self.doc@.layers.len() as int);
        }
        let n = self.doc.layers.len();
        match rfind_layer(&self.doc.layers, self.doc.active_layer_id) {
            Some(p) => p + 1,
            None => n,
        }
    }

    /// Adds an empty transparent raster layer above the active one and makes
    /// it active; nothing happens without a background image.
    pub fn new_raster_layer(&mut self)
        requires
            old(self).doc@.next_layer_id < u64::MAX,
        ensures
            old(self).doc@.image is None ==> *final(self) == *old(self),
            old(self).doc@.image matches Some(bg) ==> {
                let d = old(self).doc@;
                let d2 = final(self).doc@;
                let id = d.next_layer_id;
                let pos = insert_pos(d);
                &&& layer_inserted(d, d2, pos)
                &&& fresh_layer(d2.layers[pos], id, "Layer "@ + dec_digits(id as nat), LayerKind::Raster, None, None)
                &&& d2.layer_images == d.layer_images.insert(id, spec_filled(bg.width, bg.height, seq![0u8, 0u8, 0u8, 0u8]))
                &&& d2.active_layer_id == id
                &&& d2.next_layer_id == id + 1
                &&& d2.image == d.image
                &&& d2.text_layers == d.text_layers
                &&& d2.image_layer_data == d.image_layer_data
                &&& d2.next_text_id == d.next_text_id
                &&& d2.next_image_layer_id == d.next_image_layer_id
                &&& history_docs(final(self).history@) == spec_record(history_docs(old(self).history@), d)
                &&& *final(self) == (ImageEditor {
                    doc: final(self).doc,
                    history: final(self).history,
                    composite_dirty: true,
                    dirty: true,
                    ..*old(self)
                })
            },
            ids_fresh(old(self).doc@) ==> ids_fresh(final(self).doc@),
    {
        let (w, h) = match &self.doc.image {
            Some(img) => {
                img.well_formed();
                (img.width(), img.height())
            },
            None => return,
        };
        self.push_undo();
        let id = self.doc.next_layer_id;
        self.doc.next_layer_id = id + 1;
        let mut name = String::from_str("Layer ");
        proof {
            reveal_strlit("Layer ");
        }
        push_decimal_u64(&mut name, id);
        let layer = ImageLayer {
            id,
            name,
            opacity_bits: OPACITY_ONE,
            visible: true,
            locked: false,
            blend_mode: BlendMode::Normal,
            kind: LayerKind::Raster,
            linked_text_id: None,
            linked_image_id: None,
        };
        let pos = self.insert_above_active();
        self.doc.layers.insert(pos, layer);
        let blank = RgbaImage::new_filled(w, h, [0u8, 0, 0, 0]);
        let ghost before = self.doc.layer_images@;
        self.doc.layer_images.insert(id, blank);
        proof {
            assert([0u8, 0, 0, 0]@ =~= seq![0u8, 0u8, 0u8, 0u8]);
            assert(self.doc@.layer_images =~= old(self).doc@.layer_images.insert(id, blank@));
        }
        self.doc.active_layer_id = id;
        self.composite_dirty = true;
        self.dirty = true;
    }

    /// The placed image shown by the active layer, if it is an image layer.
    pub fn image_layer_for_active(&self) -> (r: Option<u64>)
        ensures
            r == spec_image_layer_for_active(self.doc@),
    {
        match find_layer(&self.doc.layers, self.doc.active_layer_id) {
            Some(i) => {
                if self.doc.layers[i].kind == LayerKind::Image {
                    self.doc.layers[i].linked_image_id
                } else {
                    None
                }
            },
            None => None,
        }
    }

    /// The raster the active layer paints with.
    pub fn active_raster_image(&self) -> (r: Option<&RgbaImage>)
        ensures
            match layer_pos(self.doc@.layers, self.doc@.active_layer_id) {
                Some(i) => match r {
                    Some(img) => layer_raster(self.doc@, self.doc@.layers[i]) == Some(img@),
                    None => layer_raster(self.doc@, self.doc@.layers[i]) is None,
                },
                None => r is None,
            },
    {
        match find_layer(&self.doc.layers, self.doc.active_layer_id) {
            Some(i) => match self.doc.layers[i].kind {
                LayerKind::Background => match &self.doc.image {
                    Some(img) => Some(img),
                    None => None,
                },
                LayerKind::Raster => self.doc.layer_images.get(&self.doc.active_layer_id),
                _ => None,
            },
            None => None,
        }
    }

    /// Moves the active layer one step up the stack.
    pub fn move_layer_up(&mut self)
        ensures
            final(self).doc@ == with_layers(old(self).doc@, spec_move_up(old(self).doc@)),
            can_move_up(old(self).doc@) ==> *final(self) == (ImageEditor {
                doc: final(self).doc,
                composite_dirty: true,
                dirty: true,
                ..*old(self)
            }),
            !can_move_up(old(self).doc@) ==> *final(self) == (ImageEditor { doc: final(self).doc, ..*old(self) }),
            ids_fresh(old(self).doc@) ==> ids_fresh(final(self).doc@),
    {
        proof {
            lemma_pos_from(self.doc@.layers, self.doc@.active_layer_id, 0);
        }
        let n = self.doc.layers.len();
        match find_layer(&self.doc.layers, self.doc.active_layer_id) {
            Some(idx) => {
                if idx + 1 < n {
                    swap_adjacent(&mut self.doc.layers, idx);
                    proof {
                        assert(self.doc@.layers =~= swap_layers(old(self).doc@.layers, idx as int, idx + 1));
                    }
                    self.composite_dirty = true;
                    self.dirty = true;
                }
            },
            None => {},
        }
        assert(self.doc@ =~= with_layers(old(self).doc@, spec_move_up(old(self).doc@)));
    }

    /// Moves the active layer one step down the stack, never into the
    /// lowest slot.
    pub fn move_layer_down(&mut self)
        ensures
            final(self).doc@ == with_layers(old(self).doc@, spec_move_down(old(self).doc@)),
            can_move_down(old(self).doc@) ==> *final(self) == (ImageEditor {
                doc: final(self).doc,
                composite_dirty: true,
                dirty: true,
                ..*old(self)
            }),
            !can_move_down(old(self).doc@) ==> *final(self) == (ImageEditor { doc: final(self).doc, ..*old(self) }),
            ids_fresh(old(self).doc@) ==> ids_fresh(final(self).doc@),
    {
        proof {
            lemma_pos_from(self.doc@.layers, self.doc@.active_layer_id, 0);
        }
        match find_layer(&self.doc.layers, self.doc.active_layer_id) {
            Some(idx) => {
                if idx > 1 {
                    swap_adjacent(&mut self.doc.layers, idx - 1);
                    proof {
                        assert(swap_layers(old(self).doc@.layers, idx - 1, idx as int) =~= swap_layers(old(self).doc@.layers, idx as int, idx - 1));
                    }
                    self.composite_dirty = true;
                    self.dirty = true;
                }
            },
            None => {},
        }
        assert(self.doc@ =~= with_layers(old(self).doc@, spec_move_down(old(self).doc@)));
    }

    /// Grows the dirty rectangle of the background texture to cover
    /// `[x0, y0, x1, y1]`.
    pub fn expand_dirty_rect(&mut self, x0: u32, y0: u32, x1: u32, y1: u32)
        ensures
            opt_rect(final(self).texture_dirty_rect)
                == spec_expand_rect(old(self).texture_dirty_rect, old(self).texture_dirty, x0, y0, x1, y1),
            *final(self) == (ImageEditor { texture_dirty_rect: final(self).texture_dirty_rect, ..*old(self) }),
    {
        match self.texture_dirty_rect {
            None => {
                if !self.texture_dirty {
                    self.texture_dirty_rect = Some([x0, y0, x1, y1]);
                }
            },
            Some(r) => {
                let a = if r[0] <= x0 { r[0] } else { x0 };
                let b = if r[1] <= y0 { r[1] } else { y0 };
                let c = if r[2] >= x1 { r[2] } else { x1 };
                let e = if r[3] >= y1 { r[3] } else { y1 };
                self.texture_dirty_rect = Some([a, b, c, e]);
            },
        }
        assert(opt_rect(self.texture_dirty_rect) =~= spec_expand_rect(old(self).texture_dirty_rect, old(self).texture_dirty, x0, y0, x1, y1));
    }

    /// Starts a new white image of the given size; the old one stays in the
    /// undo history.
    pub fn new_image(&mut self, w: u32, h: u32)
        requires
            w * h * 4 <= usize::MAX,
        ensures
            final(self).doc@ == (DocView { image: Some(spec_filled(w as nat, h as nat, seq![255u8, 255u8, 255u8, 255u8])), ..old(self).doc@ }),
            history_docs(final(self).history@) == spec_record(history_docs(old(self).history@), old(self).doc@),
            *final(self) == (ImageEditor {
                doc: final(self).doc,
                history: final(self).history,
                resize_w: w,
                resize_h: h,
                texture_dirty: true,
                composite_dirty: true,
                dirty: true,
                fit_on_next_frame: true,
                ..*old(self)
            }),
    {
        self.push_undo();
        let img = RgbaImage::new_filled(w, h, [255u8, 255, 255, 255]);
        proof {
            assert([255u8, 255, 255, 255]@ =~= seq![255u8, 255u8, 255u8, 255u8]);
        }
        self.doc.image = Some(img);
        self.resize_w = w;
        self.resize_h = h;
        self.texture_dirty = true;
        self.composite_dirty = true;
        self.dirty = true;
        self.fit_on_next_frame = true;
    }

    /// Makes sure the text with this id has a layer in the stack: if none
    /// shows it, a text layer named after it is added above the active one
    /// and becomes active.
    pub fn ensure_layer_entry_for_text(&mut self, text_id: u64)
        requires
            old(self).doc@.next_layer_id < u64::MAX,
            text_id < u64::MAX,
        ensures
            text_entry_done(old(self).doc@, final(self).doc@, text_id),
            *final(self) == (ImageEditor { doc: final(self).doc, ..*old(self) }),
            ids_fresh(old(self).doc@) ==> ids_fresh(final(self).doc@),
    {
        if !any_text_link(&self.doc.layers, text_id) {
            let id = self.doc.next_layer_id;
            self.doc.next_layer_id = id + 1;
            let mut name = String::from_str("Text ");
            proof {
                reveal_strlit("Text ");
            }
            push_decimal_u64(&mut name, text_id + 1);
            let layer = ImageLayer {
                id,
                name,
                opacity_bits: OPACITY_ONE,
                visible: true,
                locked: false,
                blend_mode: BlendMode::Normal,
                kind: LayerKind::Text,
                linked_text_id: Some(text_id),
                linked_image_id: None,
            };
            let pos = self.insert_above_active();
            self.doc.layers.insert(pos, layer);
            self.doc.active_layer_id = id;
        }
    }

    /// Removes the active layer together with the raster, text or placed
    /// image it owns; the layer below becomes active. The last remaining
    /// layer is never removed.
    #[verifier::rlimit(100)]
    pub fn delete_active_layer(&mut self)
        ensures
            ({
                let d = old(self).doc@;
                let d2 = final(self).doc@;
                match layer_pos(d.layers, d.active_layer_id) {
                    Some(idx) => if d.layers.len() > 1 {
                        let removed = d.layers[idx];
                        let layers = d.layers.remove(idx);
                        let new_idx = if idx > 0 { idx - 1 } else { 0 };
                        &&& d2.layers == layers
                        &&& d2.layer_images == d.layer_images.remove(removed.id)
                        &&& d2.text_layers == (if removed.kind == LayerKind::Text && removed.linked_text_id is Some {
                            without_text(d.text_layers, removed.linked_text_id->Some_0)
                        } else {
                            d.text_layers
                        })
                        &&& d2.image_layer_data == (if removed.kind == LayerKind::Image && removed.linked_image_id is Some {
                            d.image_layer_data.remove(removed.linked_image_id->Some_0)
                        } else {
                            d.image_layer_data
                        })
                        &&& d2.active_layer_id == (if new_idx < layers.len() { layers[new_idx].id } else { 0 })
                        &&& d2.image == d.image
                        &&& d2.next_layer_id == d.next_layer_id
                        &&& d2.next_text_id == d.next_text_id
                        &&& d2.next_image_layer_id == d.next_image_layer_id
                        &&& history_docs(final(self).history@) == spec_record(history_docs(old(self).history@), d)
                        &&& final(self).selected_image_layer == (if removed.kind == LayerKind::Image
                            && removed.linked_image_id is Some
                            && old(self).selected_image_layer == removed.linked_image_id {
                            None
                        } else {
                            old(self).selected_image_layer
                        })
                        &&& *final(self) == (ImageEditor {
                            doc: final(self).doc,
                            history: final(self).history,
                            composite_dirty: true,
                            dirty: true,
                            selected_image_layer: final(self).selected_image_layer,
                            ..*old(self)
                        })
                    } else {
                        *final(self) == *old(self)
                    },
                    None => *final(self) == *old(self),
                }
            }),
            ids_fresh(old(self).doc@) ==> ids_fresh(final(self).doc@),
    {
        let n = self.doc.layers.len();
        if n <= 1 {
            return;
        }
        let idx = match find_layer(&self.doc.layers, self.doc.active_layer_id) {
            Some(i) => i,
            None => return,
        };
        self.push_undo();
        let mut doc = LayerDocument::new();
        std::mem::swap(&mut doc, &mut self.doc);
        let removed = doc.layers.remove(idx);
        let _ = doc.layer_images.remove(&removed.id);
        if removed.kind == LayerKind::Text {
            match removed.linked_text_id {
                Some(tid) => {
                    doc.text_layers = remove_text(&doc.text_layers, tid);
                },
                None => {},
            }
        }
        if removed.kind == LayerKind::Image {
            match removed.linked_image_id {
                Some(iid) => {
                    let _ = doc.image_layer_data.remove(&iid);
                },
                None => {},
            }
        }
        let new_idx = if idx > 0 { idx - 1 } else { 0 };
        doc.active_layer_id = if new_idx < doc.layers.len() { doc.layers[new_idx].id } else { 0 };
        proof {
            assert(doc@.layer_images =~= old(self).doc@.layer_images.remove(removed.id));
            assert(doc@.image_layer_data =~= (if removed.kind == LayerKind::Image && removed.linked_image_id is Some {
                old(self).doc@.image_layer_data.remove(removed.linked_image_id->Some_0)
            } else {
                old(self).doc@.image_layer_data
            }));
        }
        self.doc = doc;
        if removed.kind == LayerKind::Image && removed.linked_image_id.is_some()
            && self.selected_image_layer == removed.linked_image_id {
            self.selected_image_layer = None;
        }
        self.composite_dirty = true;
        self.dirty = true;
    }

    /// Adds a copy of the active layer above it and makes the copy active.
    /// A copy of the background becomes a raster layer; a text or image
    /// layer gets its own copy of the text or placed image.
    pub fn duplicate_active_layer(&mut self)
        requires
            old(self).doc@.next_layer_id < u64::MAX,
            old(self).doc@.next_text_id < u64::MAX,
            old(self).doc@.next_image_layer_id < u64::MAX,
        ensures
            layer_pos(old(self).doc@.layers, old(self).doc@.active_layer_id) is None ==> *final(self) == *old(self),
            layer_pos(old(self).doc@.layers, old(self).doc@.active_layer_id) matches Some(si) ==> {
                let d = old(self).doc@;
                let d2 = final(self).doc@;
                let src = d.layers[si];
                let id = d.next_layer_id;
                let pos = insert_pos(d);
                let copy_text = src.kind == LayerKind::Text && src.linked_text_id is Some
                    && text_pos(d.text_layers, src.linked_text_id->Some_0) is Some;
                let copy_image = src.kind == LayerKind::Image && src.linked_image_id is Some
                    && d.image_layer_data.contains_key(src.linked_image_id->Some_0);
                let new_layer = d2.layers[pos];
                &&& layer_inserted(d, d2, pos)
                &&& new_layer.id == id
                &&& new_layer.name@ == (if src.kind == LayerKind::Background { src.name@ + " (copy)"@ } else { src.name@ + " copy"@ })
                &&& new_layer.opacity_bits == src.opacity_bits
                &&& new_layer.visible
                &&& new_layer.locked == src.locked
                &&& new_layer.blend_mode == src.blend_mode
                &&& new_layer.kind == (if src.kind == LayerKind::Background { LayerKind::Raster } else { src.kind })
                &&& new_layer.linked_text_id == (if copy_text { Some(d.next_text_id) } else { None })
                &&& new_layer.linked_image_id == (if copy_image { Some(d.next_image_layer_id) } else { None })
                &&& d2.layer_images == (match layer_raster(d, src) {
                    Some(r) => d.layer_images.insert(id, r),
                    None => d.layer_images,
                })
                &&& (copy_text ==> {
                    let t = d.text_layers[text_pos(d.text_layers, src.linked_text_id->Some_0)->Some_0];
                    &&& d2.text_layers.len() == d.text_layers.len() + 1
                    &&& d2.text_layers.drop_last() == d.text_layers
                    &&& d2.text_layers.last() == (TextLayer { id: d.next_text_id, ..t })
                    &&& d2.next_text_id == d.next_text_id + 1
                })
                &&& (!copy_text ==> d2.text_layers == d.text_layers && d2.next_text_id == d.next_text_id)
                &&& (copy_image ==> {
                    let p = d.image_layer_data[src.linked_image_id->Some_0];
                    &&& d2.image_layer_data == d.image_layer_data.insert(d.next_image_layer_id,
                        PlacedView { id: d.next_image_layer_id, ..p })
                    &&& d2.next_image_layer_id == d.next_image_layer_id + 1
                })
                &&& (!copy_image ==> d2.image_layer_data == d.image_layer_data
                    && d2.next_image_layer_id == d.next_image_layer_id)
                &&& d2.active_layer_id == id
                &&& d2.next_layer_id == id + 1
                &&& d2.image == d.image
                &&& history_docs(final(self).history@) == spec_record(history_docs(old(self).history@), d)
                &&& *final(self) == (ImageEditor {
                    doc: final(self).doc,
                    history: final(self).history,
                    composite_dirty: true,
                    dirty: true,
                    ..*old(self)
                })
            },
            ids_fresh(old(self).doc@) ==> ids_fresh(final(self).doc@),
    {
        let si = match find_layer(&self.doc.layers, self.doc.active_layer_id) {
            Some(i) => i,
            None => return,
        };
        let src_kind = self.doc.layers[si].kind;
        let src_opacity = self.doc.layers[si].opacity_bits;
        let src_blend = self.doc.layers[si].blend_mode;
        let src_name = self.doc.layers[si].name.clone();
        let src_text_id = self.doc.layers[si].linked_text_id;
        let src_image_id = self.doc.layers[si].linked_image_id;
        let src_locked = self.doc.layers[si].locked;
        self.push_undo();
        let pos = self.insert_above_active();
        let mut doc = LayerDocument::new();
        std::mem::swap(&mut doc, &mut self.doc);
        let new_id = doc.next_layer_id;
        doc.next_layer_id = new_id + 1;
        let src_img: Option<RgbaImage> = match src_kind {
            LayerKind::Background => match &doc.image {
                Some(i) => Some(i.clone()),
                None => None,
            },
            LayerKind::Raster => match doc.layer_images.get(&doc.active_layer_id) {
                Some(i) => Some(i.clone()),
                None => None,
            },
            _ => None,
        };
        let mut new_text_id: Option<u64> = None;
        if src_kind == LayerKind::Text {
            match src_text_id {
                Some(tid) => {
                    proof {
                        lemma_text_pos_from(doc@.text_layers, tid, 0);
                    }
                    match find_text(&doc.text_layers, tid) {
                        Some(ti) => {
                            let ntid = doc.next_text_id;
                            doc.next_text_id = ntid + 1;
                            let mut copy = doc.text_layers[ti].clone();
                            copy.id = ntid;
                            doc.text_layers.push(copy);
                            new_text_id = Some(ntid);
                        },
                        None => {},
                    }
                },
                None => {},
            }
        }
        let mut new_image_id: Option<u64> = None;
        if src_kind == LayerKind::Image {
            match src_image_id {
                Some(iid) => {
                    let found = match doc.image_layer_data.get(&iid) {
                        Some(p) => Some(p.clone()),
                        None => None,
                    };
                    match found {
                        Some(p) => {
                            let niid = doc.next_image_layer_id;
                            doc.next_image_layer_id = niid + 1;
                            let mut copy = p;
                            copy.id = niid;
                            doc.image_layer_data.insert(niid, copy);
                            new_image_id = Some(niid);
                        },
                        None => {},
                    }
                },
                None => {},
            }
        }
        let new_kind = if src_kind == LayerKind::Background { LayerKind::Raster } else { src_kind };
        let mut new_name = src_name;
        if src_kind == LayerKind::Background {
            new_name.append(" (copy)");
        } else {
            new_name.append(" copy");
        }
        let new_layer = ImageLayer {
            id: new_id,
            name: new_name,
            opacity_bits: src_opacity,
            visible: true,
            locked: src_locked,
            blend_mode: src_blend,
            kind: new_kind,
            linked_text_id: new_text_id,
            linked_image_id: new_image_id,
        };
        doc.layers.insert(pos, new_layer);
        match src_img {
            Some(img) => {
                doc.layer_images.insert(new_id, img);
            },
            None => {},
        }
        doc.active_layer_id = new_id;
        proof {
            let d = old(self).doc@;
            assert(doc@.layer_images =~= (match layer_raster(d, d.layers[si as int]) {
                Some(r) => d.layer_images.insert(new_id, r),
                None => d.layer_images,
            }));
            if new_image_id is Some {
                let p = d.image_layer_data[src_image_id->Some_0];
                assert(doc@.image_layer_data =~= d.image_layer_data.insert(d.next_image_layer_id,
                    PlacedView { id: d.next_image_layer_id, ..p }));
            } else {
                assert(doc@.image_layer_data =~= d.image_layer_data);
            }
            if new_text_id is Some {
                assert(doc@.text_layers.drop_last() =~= d.text_layers);
            }
        }
        self.doc = doc;
        self.composite_dirty = true;
        self.dirty = true;
    }

    /// The raster the layer at position `i` paints with.
    pub fn layer_raster_at(&self, i: usize) -> (r: Option<&RgbaImage>)
        requires
            i < self.doc@.layers.len(),
        ensures
            match r {
                Some(img) => layer_raster(self.doc@, self.doc@.layers[i as int]) == Some(img@),
                None => layer_raster(self.doc@, self.doc@.layers[i as int]) is None,
            },
    {
        let id = self.doc.layers[i].id;
        match self.doc.layers[i].kind {
            LayerKind::Background => match &self.doc.image {
                Some(img) => Some(img),
                None => None,
            },
            LayerKind::Raster => self.doc.layer_images.get(&id),
            _ => None,
        }
    }

    /// The position of the layer that merging down would fold into the
    /// one below it: the active layer, when it is not the lowest and the
    /// layer below holds pixels of its own.
    pub fn merge_down_plan(&self) -> (r: Option<usize>)
        ensures
            opt_index(r) == merge_down_index(self.doc@),
            r matches Some(i) ==> 0 < i < self.doc@.layers.len(),
    {
        proof {
            lemma_pos_from(self.doc@.layers, self.doc@.active_layer_id, 0);
        }
        match find_layer(&self.doc.layers, self.doc.active_layer_id) {
            Some(i) => {
                if i > 0 {
                    let below = self.doc.layers[i - 1].kind;
                    if below == LayerKind::Text || below == LayerKind::Image {
                        None
                    } else {
                        Some(i)
                    }
                } else {
                    None
                }
            },
            None => None,
        }
    }

    /// Folds the active layer into the one below it. `merged` is the lower
    /// layer's raster with the upper one blended over it; it is used only
    /// when both layers have a raster.
    pub fn apply_merge_down(&mut self, merged: Option<RgbaImage>)
        requires
            merge_down_index(old(self).doc@) is Some,
        ensures
            ({
                let d = old(self).doc@;
                let d2 = final(self).doc@;
                let idx = merge_down_index(d)->Some_0;
                let top = d.layers[idx];
                let below = d.layers[idx - 1];
                let store = layer_raster(d, top) is Some && layer_raster(d, below) is Some && merged is Some;
                &&& d2.layers == d.layers.remove(idx)
                &&& d2.image == (if store && below.kind == LayerKind::Background {
                    Some(merged->Some_0@)
                } else {
                    d.image
                })
                &&& d2.layer_images == (if store && below.kind == LayerKind::Raster {
                    d.layer_images.insert(below.id, merged->Some_0@)
                } else {
                    d.layer_images
                })
                &&& d2.active_layer_id == below.id
                &&& d2.text_layers == d.text_layers
                &&& d2.image_layer_data == d.image_layer_data
                &&& d2.next_layer_id == d.next_layer_id
                &&& d2.next_text_id == d.next_text_id
                &&& d2.next_image_layer_id == d.next_image_layer_id
                &&& history_docs(final(self).history@) == spec_record(history_docs(old(self).history@), d)
                &&& *final(self) == (ImageEditor {
                    doc: final(self).doc,
                    history: final(self).history,
                    composite_dirty: true,
                    dirty: true,
                    ..*old(self)
                })
            }),
            ids_fresh(old(self).doc@) ==> ids_fresh(final(self).doc@),
    {
        let idx = match self.merge_down_plan() {
            Some(i) => i,
            None => return,
        };
        let both = self.layer_raster_at(idx).is_some() && self.layer_raster_at(idx - 1).is_some();
        let below_id = self.doc.layers[idx - 1].id;
        let below_kind = self.doc.layers[idx - 1].kind;
        self.push_undo();
        let mut doc = LayerDocument::new();
        std::mem::swap(&mut doc, &mut self.doc);
        if both {
            match merged {
                Some(m) => {
                    if below_kind == LayerKind::Background {
                        doc.image = Some(m);
                    } else if below_kind == LayerKind::Raster {
                        doc.layer_images.insert(below_id, m);
                    }
                },
                None => {},
            }
        }
        let _ = doc.layers.remove(idx);
        doc.active_layer_id = below_id;
        proof {
            let d = old(self).doc@;
            let store = layer_raster(d, d.layers[idx as int]) is Some && layer_raster(d, d.layers[idx - 1]) is Some && merged is Some;
            assert(doc@.layer_images =~= (if store && below_kind == LayerKind::Raster {
                d.layer_images.insert(below_id, merged->Some_0@)
            } else {
                d.layer_images
            }));
        }
        self.doc = doc;
        self.composite_dirty = true;
        self.dirty = true;
    }

    /// Replaces every layer by the single flattened image `composite`, which
    /// is only there when the document has a background.
    pub fn flatten_all_layers(&mut self, composite: Option<RgbaImage>)
        ensures
            composite is None ==> *final(self) == *old(self),
            composite matches Some(c) ==> {
                let d = old(self).doc@;
                let d2 = final(self).doc@;
                &&& d2.image == Some(c@)
                &&& d2.layer_images == Map::<u64, RasterView>::empty()
                &&& d2.text_layers.len() == 0
                &&& d2.image_layer_data == Map::<u64, PlacedView>::empty()
                &&& d2.layers.len() == 1
                &&& background_layer(d2.layers[0])
                &&& d2.active_layer_id == 0
                &&& d2.next_layer_id == d.next_layer_id
                &&& d2.next_text_id == d.next_text_id
                &&& d2.next_image_layer_id == d.next_image_layer_id
                &&& history_docs(final(self).history@) == spec_record(history_docs(old(self).history@), d)
                &&& *final(self) == (ImageEditor {
                    doc: final(self).doc,
                    history: final(self).history,
                    selected_image_layer: None,
                    texture_dirty: true,
                    composite_dirty: false,
                    dirty: true,
                    ..*old(self)
                })
            },
            ids_fresh(old(self).doc@) && old(self).doc@.layers.len() > 0 ==> ids_fresh(final(self).doc@),
    {
        let c = match composite {
            Some(c) => c,
            None => return,
        };
        self.push_undo();
        self.doc.image = Some(c);
        self.doc.layer_images.clear();
        self.doc.text_layers = Vec::new();
        self.doc.image_layer_data.clear();
        self.selected_image_layer = None;
        self.doc.layers = vec![new_background_layer()];
        self.doc.active_layer_id = 0;
        self.texture_dirty = true;
        self.composite_dirty = false;
        self.dirty = true;
        proof {
            assert(self.doc@.layer_images =~= Map::<u64, RasterView>::empty());
            assert(self.doc@.image_layer_data =~= Map::<u64, PlacedView>::empty());
            if ids_fresh(old(self).doc@) && old(self).doc@.layers.len() > 0 {
                assert(old(self).doc@.layers[0].id < old(self).doc@.next_layer_id);
            }
        }
    }

    /// Places `img` on the canvas as a new image layer above the active one,
    /// at the position and display size given as float bits, and selects it
    /// with the pan tool. Nothing happens without a background image.
    pub fn insert_image_layer(
        &mut self,
        img: RgbaImage,
        canvas_x_bits: u32,
        canvas_y_bits: u32,
        display_w_bits: u32,
        display_h_bits: u32,
    )
        requires
            old(self).doc@.next_layer_id < u64::MAX,
            old(self).doc@.next_image_layer_id < u64::MAX,
        ensures
            old(self).doc@.image is None ==> *final(self) == *old(self),
            old(self).doc@.image is Some ==> {
                let d = old(self).doc@;
                let d2 = final(self).doc@;
                let iid = d.next_image_layer_id;
                let lid = d.next_layer_id;
                let pos = insert_pos(d);
                &&& d2.image_layer_data == d.image_layer_data.insert(iid, PlacedView {
                    id: iid,
                    image: img@,
                    canvas_x_bits,
                    canvas_y_bits,
                    display_w_bits,
                    display_h_bits,
                    rotation_bits: 0,
                    flip_h: false,
                    flip_v: false,
                })
                &&& layer_inserted(d, d2, pos)
                &&& fresh_layer(d2.layers[pos], lid, "Image "@ + dec_digits((iid + 1) as nat), LayerKind::Image, None, Some(iid))
                &&& d2.active_layer_id == lid
                &&& d2.next_layer_id == lid + 1
                &&& d2.next_image_layer_id == iid + 1
                &&& d2.image == d.image
                &&& d2.layer_images == d.layer_images
                &&& d2.text_layers == d.text_layers
                &&& d2.next_text_id == d.next_text_id
                &&& history_docs(final(self).history@) == spec_record(history_docs(old(self).history@), d)
                &&& *final(self) == (ImageEditor {
                    doc: final(self).doc,
                    history: final(self).history,
                    selected_image_layer: Some(iid),
                    selected_text: None,
                    editing_text: false,
                    tool: Tool::Pan,
                    composite_dirty: true,
                    dirty: true,
                    ..*old(self)
                })
            },
            ids_fresh(old(self).doc@) ==> ids_fresh(final(self).doc@),
    {
        if self.doc.image.is_none() {
            return;
        }
        self.push_undo();
        let iid = self.doc.next_image_layer_id;
        self.doc.next_image_layer_id = iid + 1;
        let lid = self.doc.next_layer_id;
        self.doc.next_layer_id = lid + 1;
        let placed = ImageLayerData {
            id: iid,
            image: img,
            canvas_x_bits,
            canvas_y_bits,
            display_w_bits,
            display_h_bits,
            rotation_bits: 0,
            flip_h: false,
            flip_v: false,
        };
        self.doc.image_layer_data.insert(iid, placed);
        let mut name = String::from_str("Image ");
        proof {
            reveal_strlit("Image ");
        }
        push_decimal_u64(&mut name, iid + 1);
        let layer = ImageLayer {
            id: lid,
            name,
            opacity_bits: OPACITY_ONE,
            visible: true,
            locked: false,
            blend_mode: BlendMode::Normal,
            kind: LayerKind::Image,
            linked_text_id: None,
            linked_image_id: Some(iid),
        };
        let pos = self.insert_above_active();
        self.doc.layers.insert(pos, layer);
        self.doc.active_layer_id = lid;
        self.selected_image_layer = Some(iid);
        self.selected_text = None;
        self.editing_text = false;
        self.tool = Tool::Pan;
        self.composite_dirty = true;
        self.dirty = true;
        proof {
            assert(self.doc@.image_layer_data =~= old(self).doc@.image_layer_data.insert(iid, placed@));
        }
    }

    /// Mirrors the placed image of the active image layer left to right.
    pub fn flip_image_layer_h(&mut self)
        ensures
            ({
                let d = old(self).doc@;
                match spec_image_layer_for_active(d) {
                    Some(iid) => if d.image_layer_data.contains_key(iid) {
                        let p = d.image_layer_data[iid];
                        &&& final(self).doc@ == (DocView {
                            image_layer_data: d.image_layer_data.insert(iid, PlacedView { flip_h: !p.flip_h, ..p }),
                            ..d
                        })
                        &&& *final(self) == (ImageEditor { doc: final(self).doc, composite_dirty: true, dirty: true, ..*old(self) })
                    } else {
                        *final(self) == *old(self)
                    },
                    None => *final(self) == *old(self),
                }
            }),
    {
        let iid = match self.image_layer_for_active() {
            Some(i) => i,
            None => return,
        };
        if !self.doc.image_layer_data.contains_key(&iid) {
            return;
        }
        match self.doc.image_layer_data.remove(&iid) {
            Some(mut p) => {
                p.flip_h = !p.flip_h;
                self.doc.image_layer_data.insert(iid, p);
                self.composite_dirty = true;
                self.dirty = true;
                proof {
                    let d = old(self).doc@;
                    let q = d.image_layer_data[iid];
                    assert(self.doc@.image_layer_data =~= d.image_layer_data.insert(iid, PlacedView { flip_h: !q.flip_h, ..q }));
                }
            },
            None => {},
        }
    }

    /// Mirrors the placed image of the active image layer top to bottom.
    pub fn flip_image_layer_v(&mut self)
        ensures
            ({
                let d = old(self).doc@;
                match spec_image_layer_for_active(d) {
                    Some(iid) => if d.image_layer_data.contains_key(iid) {
                        let p = d.image_layer_data[iid];
                        &&& final(self).doc@ == (DocView {
                            image_layer_data: d.image_layer_data.insert(iid, PlacedView { flip_v: !p.flip_v, ..p }),
                            ..d
                        })
                        &&& *final(self) == (ImageEditor { doc: final(self).doc, composite_dirty: true, dirty: true, ..*old(self) })
                    } else {
                        *final(self) == *old(self)
                    },
                    None => *final(self) == *old(self),
                }
            }),
    {
        let iid = match self.image_layer_for_active() {
            Some(i) => i,
            None => return,
        };
        if !self.doc.image_layer_data.contains_key(&iid) {
            return;
        }
        match self.doc.image_layer_data.remove(&iid) {
            Some(mut p) => {
                p.flip_v = !p.flip_v;
                self.doc.image_layer_data.insert(iid, p);
                self.composite_dirty = true;
                self.dirty = true;
                proof {
                    let d = old(self).doc@;
                    let q = d.image_layer_data[iid];
                    assert(self.doc@.image_layer_data =~= d.image_layer_data.insert(iid, PlacedView { flip_v: !q.flip_v, ..q }));
                }
            },
            None => {},
        }
    }

    /// Moves and sizes the placed image of the active image layer: its top
    /// left corner goes to `(canvas_x, canvas_y)` on the canvas and it is
    /// drawn `display_w` by `display_h` (each as `f32` bits, worked out by
    /// the caller: the image's own size, or its fit to the canvas).
    pub fn place_image_layer(&mut self, canvas_x_bits: u32, canvas_y_bits: u32, display_w_bits: u32, display_h_bits: u32)
        ensures
            ({
                let d = old(self).doc@;
                match spec_image_layer_for_active(d) {
                    Some(iid) => if d.image_layer_data.contains_key(iid) {
                        let p = d.image_layer_data[iid];
                        &&& final(self).doc@ == (DocView {
                            image_layer_data: d.image_layer_data.insert(iid, PlacedView {
                                canvas_x_bits,
                                canvas_y_bits,
                                display_w_bits,
                                display_h_bits,
                                ..p
                            }),
                            ..d
                        })
                        &&& *final(self) == (ImageEditor { doc: final(self).doc, composite_dirty: true, dirty: true, ..*old(self) })
                    } else {
                        *final(self) == *old(self)
                    },
                    None => *final(self) == *old(self),
                }
            }),
    {
        let iid = match self.image_layer_for_active() {
            Some(i) => i,
            None => return,
        };
        if !self.doc.image_layer_data.contains_key(&iid) {
            return;
        }
        match self.doc.image_layer_data.remove(&iid) {
            Some(mut p) => {
                p.canvas_x_bits = canvas_x_bits;
                p.canvas_y_bits = canvas_y_bits;
                p.display_w_bits = display_w_bits;
                p.display_h_bits = display_h_bits;
                self.doc.image_layer_data.insert(iid, p);
                self.composite_dirty = true;
                self.dirty = true;
                proof {
                    let d = old(self).doc@;
                    let q = d.image_layer_data[iid];
                    assert(self.doc@.image_layer_data =~= d.image_layer_data.insert(iid, PlacedView {
                        canvas_x_bits,
                        canvas_y_bits,
                        display_w_bits,
                        display_h_bits,
                        ..q
                    }));
                }
            },
            None => {},
        }
    }

    /// After an edit of the background: when a visible image layer may lie
    /// over it, the changed part is shown by rebuilding the composite, so
    /// the pending background rectangle is dropped and the composite is
    /// marked for rebuilding. Nothing changes otherwise.
    pub fn promote_dirty_to_composite(&mut self)
        ensures
            if has_visible_image_layer(old(self).doc@.layers) {
                *final(self) == (ImageEditor {
                    texture_dirty_rect: None,
                    texture_dirty: true,
                    composite_dirty: true,
                    ..*old(self)
                })
            } else {
                *final(self) == *old(self)
            },
    {
        let n = self.doc.layers.len();
        let mut i: usize = 0;
        while i < n
            invariant
                *self == *old(self),
                n == self.doc@.layers.len(),
                i <= n,
                forall|j: int| 0 <= j < i ==> !(#[trigger] self.doc@.layers[j].visible && self.doc@.layers[j].kind == LayerKind::Image),
            decreases n - i,
        {
            if self.doc.layers[i].visible && self.doc.layers[i].kind == LayerKind::Image {
                assert(has_visible_image_layer(old(self).doc@.layers)) by {
                    assert(old(self).doc@.layers[i as int].visible);
                }
                self.texture_dirty_rect = None;
                self.texture_dirty = true;
                self.composite_dirty = true;
                return;
            }
            i = i + 1;
        }
    }

    /// The position of the active layer and the placed image it shows, when
    /// that image can be turned into a raster layer: the document has a
    /// background and the active layer is an image layer whose image exists.
    pub fn rasterize_plan(&self) -> (r: Option<(usize, u64)>)
        ensures
            match r {
                Some((i, iid)) => rasterize_target(self.doc@) == Some((i as int, iid)),
                None => rasterize_target(self.doc@) is None,
            },
            r matches Some((i, iid)) ==> i < self.doc@.layers.len(),
    {
        if self.doc.image.is_none() {
            return None;
        }
        let iid = match self.image_layer_for_active() {
            Some(i) => i,
            None => return None,
        };
        let idx = match find_layer(&self.doc.layers, self.doc.active_layer_id) {
            Some(i) => i,
            None => return None,
        };
        if !self.doc.image_layer_data.contains_key(&iid) {
            return None;
        }
        Some((idx, iid))
    }

    /// Replaces the active image layer by a raster layer holding `raster`,
    /// the placed image drawn onto a transparent canvas of the background's
    /// size. The layer keeps its name; opacity and blending are reset.
    pub fn apply_rasterize(&mut self, raster: RgbaImage)
        requires
            rasterize_target(old(self).doc@) is Some,
            old(self).doc@.next_layer_id < u64::MAX,
        ensures
            ({
                let d = old(self).doc@;
                let d2 = final(self).doc@;
                let (idx, iid) = rasterize_target(d)->Some_0;
                let lid = d.next_layer_id;
                &&& d2.layers.len() == d.layers.len()
                &&& d2.layers == d.layers.update(idx, d2.layers[idx])
                &&& fresh_layer(d2.layers[idx], lid, d.layers[idx].name@, LayerKind::Raster, None, None)
                &&& d2.layer_images == d.layer_images.insert(lid, raster@)
                &&& d2.image_layer_data == d.image_layer_data.remove(iid)
                &&& d2.active_layer_id == lid
                &&& d2.next_layer_id == lid + 1
                &&& d2.image == d.image
                &&& d2.text_layers == d.text_layers
                &&& d2.next_text_id == d.next_text_id
                &&& d2.next_image_layer_id == d.next_image_layer_id
                &&& history_docs(final(self).history@) == spec_record(history_docs(old(self).history@), d)
                &&& *final(self) == (ImageEditor {
                    doc: final(self).doc,
                    history: final(self).history,
                    selected_image_layer: if old(self).selected_image_layer == Some(iid) {
                        None
                    } else {
                        old(self).selected_image_layer
                    },
                    composite_dirty: true,
                    dirty: true,
                    ..*old(self)
                })
            }),
            ids_fresh(old(self).doc@) ==> ids_fresh(final(self).doc@),
    {
        let (idx, iid) = match self.rasterize_plan() {
            Some(t) => t,
            None => return,
        };
        self.push_undo();
        let lid = self.doc.next_layer_id;
        self.doc.next_layer_id = lid + 1;
        self.doc.layer_images.insert(lid, raster);
        let _ = self.doc.image_layer_data.remove(&iid);
        if self.selected_image_layer == Some(iid) {
            self.selected_image_layer = None;
        }
        let name = self.doc.layers[idx].name.clone();
        let layer = ImageLayer {
            id: lid,
            name,
            opacity_bits: OPACITY_ONE,
            visible: true,
            locked: false,
            blend_mode: BlendMode::Normal,
            kind: LayerKind::Raster,
            linked_text_id: None,
            linked_image_id: None,
        };
        self.doc.layers.set(idx, layer);
        self.doc.active_layer_id = lid;
        self.composite_dirty = true;
        self.dirty = true;
        proof {
            let d = old(self).doc@;
            assert(self.doc@.layer_images =~= d.layer_images.insert(lid, raster@));
            assert(self.doc@.image_layer_data =~= d.image_layer_data.remove(iid));
            assert(self.doc@.layers =~= d.layers.update(idx as int, self.doc@.layers[idx as int]));
        }
    }

    /// Takes the result of a background filter run: it replaces the raster
    /// of the layer the filter ran on (the background when that layer is
    /// gone), and the filter panel closes unless the run was a preview.
    /// Nothing happens when no filter is running.
    pub fn complete_filter(&mut self, result: RgbaImage)
        ensures
            !old(self).is_processing ==> *final(self) == *old(self),
            old(self).is_processing ==> {
                let d = old(self).doc@;
                let d2 = final(self).doc@;
                let t = old(self).filter_target_layer_id;
                let kind = match layer_pos(d.layers, t) {
                    Some(i) => d.layers[i].kind,
                    None => LayerKind::Background,
                };
                &&& d2 == (match kind {
                    LayerKind::Background => DocView { image: Some(result@), ..d },
                    LayerKind::Raster => DocView { layer_images: d.layer_images.insert(t, result@), ..d },
                    _ => d,
                })
                &&& (kind == LayerKind::Background ==> final(self).resize_w == result@.width
                    && final(self).resize_h == result@.height)
                &&& (kind != LayerKind::Background ==> final(self).resize_w == old(self).resize_w
                    && final(self).resize_h == old(self).resize_h)
                &&& *final(self) == (ImageEditor {
                    doc: final(self).doc,
                    resize_w: final(self).resize_w,
                    resize_h: final(self).resize_h,
                    texture_dirty: true,
                    composite_dirty: true,
                    dirty: true,
                    is_processing: false,
                    processing_is_preview: false,
                    filter_panel: final(self).filter_panel,
                    fit_on_next_frame: final(self).fit_on_next_frame,
                    ..*old(self)
                })
                &&& (old(self).processing_is_preview ==> final(self).filter_panel == old(self).filter_panel
                    && final(self).fit_on_next_frame == old(self).fit_on_next_frame)
                &&& (!old(self).processing_is_preview ==> final(self).filter_panel == FilterPanel::Closed
                    && final(self).fit_on_next_frame == (old(self).fit_on_next_frame || final(self).resize_w != 0))
                &&& history_docs(final(self).history@) == history_docs(old(self).history@)
            },
    {
        if !self.is_processing {
            return;
        }
        let t = self.filter_target_layer_id;
        let kind = match find_layer(&self.doc.layers, t) {
            Some(i) => self.doc.layers[i].kind,
            None => LayerKind::Background,
        };
        match kind {
            LayerKind::Background => {
                self.resize_w = result.width();
                self.resize_h = result.height();
                self.doc.image = Some(result);
            },
            LayerKind::Raster => {
                self.doc.layer_images.insert(t, result);
            },
            _ => {},
        }
        self.texture_dirty = true;
        self.composite_dirty = true;
        self.dirty = true;
        self.is_processing = false;
        if self.processing_is_preview {
            self.processing_is_preview = false;
        } else {
            self.filter_panel = FilterPanel::Closed;
            if self.resize_w != 0 {
                self.fit_on_next_frame = true;
            }
        }
        proof {
            let d = old(self).doc@;
            if kind == LayerKind::Raster {
                assert(self.doc@.layer_images =~= d.layer_images.insert(t, result@));
            }
        }
    }
}

} // verus!
