use vstd::prelude::*;
use crate::labels::{BlendMode, FilterPanel, LayerKind, Tool};
use crate::layers::{DocView, ImageLayer, LayerDocument, TextLayer, text_pos, find_text, lemma_text_pos_from,
    without_text, remove_text, layer_pos, find_layer, lemma_pos_from};
use crate::editor::{ImageEditor, history_docs};
use crate::history::spec_record;
use crate::layer_ops::swap_layers;
use crate::text_session::{discard_text, text_is_empty};
use crate::text_edit::utf8;

verus! {

broadcast use vstd::std_specs::hash::group_hash_axioms;

/// The document once the text being edited has been committed: an empty
/// text is dropped together with its layers.
pub open spec fn committed_doc(e: ImageEditor) -> DocView {
    match e.selected_text {
        Some(id) => if text_is_empty(e.doc@.text_layers, id) { discard_text(e.doc@, id) } else { e.doc@ },
        None => e.doc@,
    }
}

/// The document a layer is picked from in the layers panel: editing text
/// is committed first.
pub open spec fn picked_doc(e: ImageEditor) -> DocView {
    if e.editing_text { committed_doc(e) } else { e.doc@ }
}

/// The document with the layer at `i` shown if it was hidden and hidden if
/// it was shown.
pub open spec fn with_visibility_flipped(d: DocView, i: int) -> DocView {
    DocView { layers: d.layers.update(i, ImageLayer { visible: !d.layers[i].visible, ..d.layers[i] }), ..d }
}

/// The document with the layer at `i` locked if it was unlocked and
/// unlocked if it was locked.
pub open spec fn with_lock_flipped(d: DocView, i: int) -> DocView {
    DocView { layers: d.layers.update(i, ImageLayer { locked: !d.layers[i].locked, ..d.layers[i] }), ..d }
}

/// The length in bytes of the text with this id, or zero without one.
pub open spec fn text_len(texts: Seq<TextLayer>, id: u64) -> nat {
    match text_pos(texts, id) {
        Some(i) => utf8(texts[i].content@).len(),
        None => 0,
    }
}

/// The length in bytes of the text with this id, or zero without one.
pub(crate) fn text_byte_len(texts: &Vec<TextLayer>, id: u64) -> (r: usize)
    ensures
        r == text_len(texts@, id) as usize,
{
    proof {
        lemma_text_pos_from(texts@, id, 0);
    }
    match find_text(texts, id) {
        Some(ti) => {
            let st: &str = texts[ti].content.as_str();
            st.len()
        },
        None => 0,
    }
}

/// The document that cancelling a filter panel leaves: the copy kept when
/// a preview is shown, otherwise the document as it is.
pub open spec fn cancelled_doc(e: ImageEditor) -> DocView {
    if e.filter_preview_active {
        match e.filter_preview_snapshot {
            Some(snap) => snap@,
            None => e.doc@,
        }
    } else {
        e.doc@
    }
}

/// What a filter panel's buttons ask for.
#[derive(Debug, Clone, Copy, PartialEq, Eq, Structural)]
pub enum FilterAction {
    /// Show the filter on the layer, or take a shown preview back.
    Preview,
    /// Keep the filter.
    Apply,
    /// Close the panel without the filter.
    Cancel,
}

impl ImageEditor {
    /// Makes the layer at `idx` active, as a click in the layers panel
    /// does. Editing text is committed first (which may drop an empty text
    /// layer, so `idx` counts the layers left after that). A text layer's
    /// text opens for editing with the cursor at its end, an image layer's
    /// placed image is selected, and any other layer clears both.
    pub fn select_layer(&mut self, idx: usize)
        requires
            idx < picked_doc(*old(self)).layers.len(),
        ensures
            ({
                let d = picked_doc(*old(self));
                let l = d.layers[idx as int];
                &&& final(self).doc@ == (DocView { active_layer_id: l.id, ..d })
                &&& history_docs(final(self).history@) == history_docs(old(self).history@)
                &&& final(self).dirty == old(self).dirty
                &&& final(self).color == old(self).color
                &&& final(self).composite_dirty == (if l.kind == LayerKind::Text && l.linked_text_id is None {
                    old(self).composite_dirty || old(self).editing_text
                } else {
                    true
                })
                &&& match l.kind {
                    LayerKind::Text => match l.linked_text_id {
                        Some(tid) => {
                            &&& final(self).tool == Tool::Text
                            &&& final(self).selected_text == Some(tid)
                            &&& final(self).editing_text
                            &&& final(self).text_cursor == text_len(d.text_layers, tid) as usize
                            &&& final(self).text_sel_anchor is None
                            &&& final(self).selected_image_layer is None
                        },
                        None => {
                            &&& final(self).tool == old(self).tool
                            &&& final(self).selected_text == (if old(self).editing_text { None } else { old(self).selected_text })
                            &&& !final(self).editing_text
                            &&& final(self).selected_image_layer is None
                        },
                    },
                    LayerKind::Image => {
                        &&& final(self).tool == old(self).tool
                        &&& final(self).selected_image_layer == l.linked_image_id
                        &&& final(self).selected_text is None
                        &&& !final(self).editing_text
                    },
                    _ => {
                        &&& final(self).tool == old(self).tool
                        &&& final(self).selected_image_layer is None
                        &&& final(self).selected_text is None
                        &&& !final(self).editing_text
                    },
                }
            }),
    {
        if self.editing_text {
            self.commit_or_discard_active_text();
        }
        self.focus_layer(idx);
    }

    /// Makes the layer at `idx` active and selects what it shows.
    fn focus_layer(&mut self, idx: usize)
        requires
            idx < old(self).doc@.layers.len(),
        ensures
            ({
                let d = old(self).doc@;
                let l = d.layers[idx as int];
                &&& final(self).doc@ == (DocView { active_layer_id: l.id, ..d })
                &&& history_docs(final(self).history@) == history_docs(old(self).history@)
                &&& final(self).dirty == old(self).dirty
                &&& final(self).color == old(self).color
                &&& final(self).composite_dirty == (if l.kind == LayerKind::Text && l.linked_text_id is None {
                    old(self).composite_dirty
                } else {
                    true
                })
                &&& match l.kind {
                    LayerKind::Text => match l.linked_text_id {
                        Some(tid) => {
                            &&& final(self).tool == Tool::Text
                            &&& final(self).selected_text == Some(tid)
                            &&& final(self).editing_text
                            &&& final(self).text_cursor == text_len(d.text_layers, tid) as usize
                            &&& final(self).text_sel_anchor is None
                            &&& final(self).selected_image_layer is None
                        },
                        None => {
                            &&& final(self).tool == old(self).tool
                            &&& final(self).selected_text == old(self).selected_text
                            &&& final(self).editing_text == old(self).editing_text
                            &&& final(self).selected_image_layer is None
                        },
                    },
                    LayerKind::Image => {
                        &&& final(self).tool == old(self).tool
                        &&& final(self).selected_image_layer == l.linked_image_id
                        &&& final(self).selected_text is None
                        &&& !final(self).editing_text
                    },
                    _ => {
                        &&& final(self).tool == old(self).tool
                        &&& final(self).selected_image_layer is None
                        &&& final(self).selected_text is None
                        &&& !final(self).editing_text
                    },
                }
            }),
    {
        let l_id = self.doc.layers[idx].id;
        let kind = self.doc.layers[idx].kind;
        let text_id = self.doc.layers[idx].linked_text_id;
        let image_id = self.doc.layers[idx].linked_image_id;
        self.doc.active_layer_id = l_id;
        match kind {
            LayerKind::Text => {
                match text_id {
                    Some(tid) => {
                        let cursor = text_byte_len(&self.doc.text_layers, tid);
                        self.tool = Tool::Text;
                        self.selected_text = Some(tid);
                        self.editing_text = true;
                        self.text_cursor = cursor;
                        self.text_sel_anchor = None;
                        self.composite_dirty = true;
                    },
                    None => {},
                }
                self.selected_image_layer = None;
            },
            LayerKind::Image => {
                self.selected_image_layer = image_id;
                self.selected_text = None;
                self.editing_text = false;
                self.composite_dirty = true;
            },
            _ => {
                self.selected_text = None;
                self.editing_text = false;
                self.composite_dirty = true;
                self.selected_image_layer = None;
            },
        }
    }

    /// Shows or hides the layer at `idx`.
    pub fn toggle_layer_visible(&mut self, idx: usize)
        requires
            idx < old(self).doc@.layers.len(),
        ensures
            ({
                &&& final(self).doc@ == with_visibility_flipped(old(self).doc@, idx as int)
                &&& *final(self) == (ImageEditor { doc: final(self).doc, composite_dirty: true, dirty: true, ..*old(self) })
            }),
    {
        let mut l = self.doc.layers[idx].clone();
        l.visible = !l.visible;
        self.doc.layers.set(idx, l);
        self.composite_dirty = true;
        self.dirty = true;
    }

    /// Locks or unlocks the layer at `idx`.
    pub fn toggle_layer_locked(&mut self, idx: usize)
        requires
            idx < old(self).doc@.layers.len(),
        ensures
            ({
                &&& final(self).doc@ == with_lock_flipped(old(self).doc@, idx as int)
                &&& *final(self) == (ImageEditor { doc: final(self).doc, ..*old(self) })
            }),
    {
        let mut l = self.doc.layers[idx].clone();
        l.locked = !l.locked;
        self.doc.layers.set(idx, l);
    }

    /// Sets the opacity (as `f32` bits) of the layer at `idx`.
    pub fn set_layer_opacity(&mut self, idx: usize, opacity_bits: u32)
        requires
            idx < old(self).doc@.layers.len(),
        ensures
            ({
                let d = old(self).doc@;
                let l = d.layers[idx as int];
                &&& final(self).doc@ == (DocView {
                    layers: d.layers.update(idx as int, ImageLayer { opacity_bits, ..l }),
                    ..d
                })
                &&& *final(self) == (ImageEditor { doc: final(self).doc, dirty: true, ..*old(self) })
            }),
    {
        let mut l = self.doc.layers[idx].clone();
        l.opacity_bits = opacity_bits;
        self.doc.layers.set(idx, l);
        self.dirty = true;
    }

    /// Sets how the layer at `idx` blends with those below.
    pub fn set_layer_blend(&mut self, idx: usize, mode: BlendMode)
        requires
            idx < old(self).doc@.layers.len(),
        ensures
            ({
                let d = old(self).doc@;
                let l = d.layers[idx as int];
                &&& final(self).doc@ == (DocView {
                    layers: d.layers.update(idx as int, ImageLayer { blend_mode: mode, ..l }),
                    ..d
                })
                &&& *final(self) == (ImageEditor { doc: final(self).doc, composite_dirty: true, dirty: true, ..*old(self) })
            }),
    {
        let mut l = self.doc.layers[idx].clone();
        l.blend_mode = mode;
        self.doc.layers.set(idx, l);
        self.composite_dirty = true;
        self.dirty = true;
    }

    /// Gives the first layer with id `id` a new name; an empty name, or no
    /// such layer, changes nothing.
    pub fn rename_layer(&mut self, id: u64, name: String)
        ensures
            ({
                let d = old(self).doc@;
                match layer_pos(d.layers, id) {
                    Some(i) => if name@.len() > 0 {
                        final(self).doc@ == (DocView {
                            layers: d.layers.update(i, ImageLayer { name, ..d.layers[i] }),
                            ..d
                        })
                    } else {
                        final(self).doc@ == d
                    },
                    None => final(self).doc@ == d,
                }
            }),
            *final(self) == (ImageEditor { doc: final(self).doc, ..*old(self) }),
    {
        if name.as_str().is_empty() {
            return;
        }
        proof {
            lemma_pos_from(self.doc@.layers, id, 0);
        }
        match find_layer(&self.doc.layers, id) {
            Some(i) => {
                let mut l = self.doc.layers[i].clone();
                l.name = name;
                self.doc.layers.set(i, l);
            },
            None => {},
        }
    }

    /// Moves the layer at `src` to `dst` and the one at `dst` to `src`, after
    /// recording an undo step, as dropping a dragged layer does. The lowest
    /// slot takes no part, and dropping a layer on itself does nothing.
    pub fn reorder_layers(&mut self, src: usize, dst: usize)
        requires
            src < old(self).doc@.layers.len(),
            dst < old(self).doc@.layers.len(),
        ensures
            src == dst || src == 0 || dst == 0 ==> *final(self) == *old(self),
            src != dst && src > 0 && dst > 0 ==> ({
                let d = old(self).doc@;
                &&& final(self).doc@ == (DocView { layers: swap_layers(d.layers, dst as int, src as int), ..d })
                &&& history_docs(final(self).history@) == spec_record(history_docs(old(self).history@), d)
                &&& *final(self) == (ImageEditor {
                    doc: final(self).doc,
                    history: final(self).history,
                    composite_dirty: true,
                    dirty: true,
                    ..*old(self)
                })
            }),
    {
        if src == dst || src == 0 || dst == 0 {
            return;
        }
        self.push_undo();
        let a = self.doc.layers[src].clone();
        let b = self.doc.layers[dst].clone();
        self.doc.layers.set(src, b);
        self.doc.layers.set(dst, a);
        proof {
            let d = old(self).doc@;
            assert(self.doc@.layers =~= swap_layers(d.layers, dst as int, src as int));
        }
        self.composite_dirty = true;
        self.dirty = true;
    }

    /// Deletes the layer at `idx` from the layers panel: its raster goes
    /// and, for a text layer, its text. When it was active, the layer below
    /// it becomes active (the one above, for the lowest) before the undo
    /// step is recorded, so undo keeps that layer active. The background is
    /// never deleted this way.
    pub fn delete_layer_at(&mut self, idx: usize)
        requires
            idx < old(self).doc@.layers.len(),
        ensures
            ({
                let d = old(self).doc@;
                let l = d.layers[idx as int];
                if l.kind == LayerKind::Background {
                    *final(self) == *old(self)
                } else {
                    let active = if d.active_layer_id == l.id {
                        d.layers[if idx > 0 { idx - 1 } else if 1 < d.layers.len() - 1 { 1 } else { d.layers.len() - 1 }].id
                    } else {
                        d.active_layer_id
                    };
                    &&& final(self).doc@ == (DocView {
                        layers: d.layers.remove(idx as int),
                        layer_images: d.layer_images.remove(l.id),
                        text_layers: match l.linked_text_id {
                            Some(tid) => without_text(d.text_layers, tid),
                            None => d.text_layers,
                        },
                        active_layer_id: active,
                        ..d
                    })
                    &&& history_docs(final(self).history@)
                        == spec_record(history_docs(old(self).history@), DocView { active_layer_id: active, ..d })
                    &&& *final(self) == (ImageEditor {
                        doc: final(self).doc,
                        history: final(self).history,
                        composite_dirty: true,
                        dirty: true,
                        ..*old(self)
                    })
                }
            }),
    {
        let kind = self.doc.layers[idx].kind;
        if kind == LayerKind::Background {
            return;
        }
        let id = self.doc.layers[idx].id;
        let text_id = self.doc.layers[idx].linked_text_id;
        let n = self.doc.layers.len();
        let active = if self.doc.active_layer_id == id {
            let j = if idx > 0 { idx - 1 } else if 1 < n - 1 { 1 } else { n - 1 };
            self.doc.layers[j].id
        } else {
            self.doc.active_layer_id
        };
        self.doc.active_layer_id = active;
        self.push_undo();
        let mut doc = LayerDocument::new();
        std::mem::swap(&mut doc, &mut self.doc);
        match text_id {
            Some(tid) => {
                doc.text_layers = remove_text(&doc.text_layers, tid);
            },
            None => {},
        }
        let _ = doc.layer_images.remove(&id);
        let _ = doc.layers.remove(idx);
        proof {
            assert(doc@.layer_images =~= old(self).doc@.layer_images.remove(id));
        }
        self.doc = doc;
        self.composite_dirty = true;
        self.dirty = true;
    }

    /// Carries out a filter panel button; the answer says whether the
    /// caller is to run the filter now. A preview first keeps a copy of the
    /// document to go back to; applying keeps a shown preview (recording the
    /// copy for undo) or records an undo step before the filter runs;
    /// cancelling takes a shown preview back. Applying and cancelling close
    /// the panel.
    pub fn filter_action(&mut self, action: FilterAction) -> (run: bool)
        ensures
            match action {
                FilterAction::Preview => if old(self).filter_preview_active {
                    &&& !run
                    &&& final(self).filter_preview_snapshot is None
                    &&& !final(self).filter_preview_active
                    &&& !final(self).processing_is_preview
                    &&& final(self).doc@ == (match old(self).filter_preview_snapshot {
                        Some(snap) => snap@,
                        None => old(self).doc@,
                    })
                    &&& history_docs(final(self).history@) == history_docs(old(self).history@)
                } else {
                    &&& run
                    &&& final(self).filter_preview_snapshot matches Some(snap) && snap@ == old(self).doc@
                    &&& *final(self) == (ImageEditor {
                        filter_preview_snapshot: final(self).filter_preview_snapshot,
                        filter_preview_active: true,
                        processing_is_preview: true,
                        ..*old(self)
                    })
                },
                FilterAction::Apply => {
                    &&& run == !old(self).filter_preview_active
                    &&& final(self).filter_panel == FilterPanel::Closed
                    &&& final(self).doc@ == old(self).doc@
                    &&& !final(self).filter_preview_active
                    &&& history_docs(final(self).history@) == (if old(self).filter_preview_active {
                        match old(self).filter_preview_snapshot {
                            Some(snap) => spec_record(history_docs(old(self).history@), snap@),
                            None => history_docs(old(self).history@),
                        }
                    } else {
                        spec_record(history_docs(old(self).history@), old(self).doc@)
                    })
                },
                FilterAction::Cancel => {
                    &&& !run
                    &&& final(self).filter_panel == FilterPanel::Closed
                    &&& !final(self).filter_preview_active
                    &&& final(self).doc@ == cancelled_doc(*old(self))
                    &&& history_docs(final(self).history@) == history_docs(old(self).history@)
                },
            },
    {
        match action {
            FilterAction::Preview => {
                if self.filter_preview_active {
                    self.cancel_filter_preview();
                    false
                } else {
                    self.filter_preview_snapshot = Some(self.take_undo_snapshot());
                    self.filter_preview_active = true;
                    self.processing_is_preview = true;
                    true
                }
            },
            FilterAction::Apply => {
                let run = if self.filter_preview_active {
                    self.accept_filter_preview();
                    false
                } else {
                    self.push_undo();
                    true
                };
                self.filter_panel = FilterPanel::Closed;
                run
            },
            FilterAction::Cancel => {
                if self.filter_preview_active {
                    self.cancel_filter_preview();
                }
                self.filter_panel = FilterPanel::Closed;
                false
            },
        }
    }
}

/// A preview shown and then cancelled leaves the document it was shown
/// on, whatever the filter did to it meanwhile.
pub proof fn law_preview_then_cancel(before: ImageEditor, during: ImageEditor)
    requires
        during.filter_preview_active,
        during.filter_preview_snapshot matches Some(snap) && snap@ == before.doc@,
    ensures
        cancelled_doc(during) == before.doc@,
{
}

/// Showing or hiding a layer twice gives back the document.
pub proof fn law_toggle_visible_twice(d: DocView, i: int)
    requires
        0 <= i < d.layers.len(),
    ensures
        with_visibility_flipped(with_visibility_flipped(d, i), i) == d,
{
    let once = with_visibility_flipped(d, i);
    assert(once.layers[i] == ImageLayer { visible: !d.layers[i].visible, ..d.layers[i] });
    assert(with_visibility_flipped(once, i).layers =~= d.layers);
}

/// Locking or unlocking a layer twice gives back the document.
pub proof fn law_toggle_locked_twice(d: DocView, i: int)
    requires
        0 <= i < d.layers.len(),
    ensures
        with_lock_flipped(with_lock_flipped(d, i), i) == d,
{
    let once = with_lock_flipped(d, i);
    assert(once.layers[i] == ImageLayer { locked: !d.layers[i].locked, ..d.layers[i] });
    assert(with_lock_flipped(once, i).layers =~= d.layers);
}

/// Exchanging the same two layers twice gives back the stack.
pub proof fn law_reorder_twice(s: Seq<ImageLayer>, i: int, j: int)
    requires
        0 <= i < s.len(),
        0 <= j < s.len(),
    ensures
        swap_layers(swap_layers(s, i, j), i, j) == s,
{
    assert(swap_layers(swap_layers(s, i, j), i, j) =~= s);
}

} // verus!
