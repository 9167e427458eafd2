use vstd::prelude::*;
use crate::layers::{DocView, ImageLayer, TextLayer, text_pos, find_text, lemma_text_pos_from};
use crate::editor::{ImageEditor, history_docs};
use crate::layer_ops::text_entry_done;
use crate::panel::{committed_doc, text_len, text_byte_len};

verus! {

/// The position of the first of the first `n` layers that shows the text
/// `id`.
pub open spec fn link_pos_upto(s: Seq<ImageLayer>, id: u64, n: int) -> Option<int>
    decreases n,
{
    if n <= 0 {
        None
    } else {
        match link_pos_upto(s, id, n - 1) {
            Some(i) => Some(i),
            None => if s[n - 1].linked_text_id == Some(id) { Some(n - 1) } else { None },
        }
    }
}

/// The position of the first layer that shows the text `id`.
pub open spec fn link_pos(s: Seq<ImageLayer>, id: u64) -> Option<int> {
    link_pos_upto(s, id, s.len() as int)
}

proof fn lemma_link_pos_upto(s: Seq<ImageLayer>, id: u64, n: int)
    requires
        0 <= n <= s.len(),
    ensures
        link_pos_upto(s, id, n) matches Some(i) ==> 0 <= i < n && s[i].linked_text_id == Some(id),
    decreases n,
{
    if n > 0 {
        lemma_link_pos_upto(s, id, n - 1);
    }
}

proof fn lemma_link_pos_stays(s: Seq<ImageLayer>, id: u64, m: int, n: int)
    requires
        0 <= m <= n <= s.len(),
        link_pos_upto(s, id, m) is Some,
    ensures
        link_pos_upto(s, id, n) == link_pos_upto(s, id, m),
    decreases n - m,
{
    if n > m {
        lemma_link_pos_stays(s, id, m, n - 1);
    }
}

/// The first layer that shows the text `id`.
fn find_text_link(v: &Vec<ImageLayer>, id: u64) -> (r: Option<usize>)
    ensures
        match r {
            Some(i) => link_pos(v@, id) == Some(i as int) && i < v@.len(),
            None => link_pos(v@, id) is None,
        },
{
    let n = v.len();
    let mut i: usize = 0;
    while i < n
        invariant
            n == v@.len(),
            i <= n,
            link_pos_upto(v@, id, i as int) is None,
        decreases n - i,
    {
        if v[i].linked_text_id == Some(id) {
            proof {
                assert(link_pos_upto(v@, id, i + 1) == Some(i as int));
                lemma_link_pos_stays(v@, id, i + 1, n as int);
            }
            return Some(i);
        }
        i = i + 1;
    }
    None
}

/// The document in which a click opens the text `hit`: the text being
/// edited is committed first when it is another one.
pub open spec fn opened_doc(e: ImageEditor, hit: u64) -> DocView {
    if e.selected_text != Some(hit) { committed_doc(e) } else { e.doc@ }
}

impl ImageEditor {
    /// Opens the text `hit` for editing, as a click on it with the text tool
    /// does: the text being edited is committed first when it is another
    /// one, the cursor goes to the end of `hit`, and the layer showing it
    /// becomes active.
    pub fn open_text_layer(&mut self, hit: u64)
        ensures
            ({
                let d = opened_doc(*old(self), hit);
                &&& final(self).doc@ == (DocView {
                    active_layer_id: match link_pos(d.layers, hit) {
                        Some(i) => d.layers[i].id,
                        None => d.active_layer_id,
                    },
                    ..d
                })
                &&& final(self).selected_text == Some(hit)
                &&& final(self).editing_text
                &&& final(self).text_sel_anchor is None
                &&& final(self).text_cursor == (if text_pos(d.text_layers, hit) is Some {
                    text_len(d.text_layers, hit) as usize
                } else if old(self).selected_text != Some(hit) {
                    0
                } else {
                    old(self).text_cursor
                })
                &&& final(self).composite_dirty
                &&& final(self).dirty == old(self).dirty
                &&& final(self).tool == old(self).tool
                &&& final(self).color == old(self).color
                &&& final(self).selected_image_layer == old(self).selected_image_layer
                &&& history_docs(final(self).history@) == history_docs(old(self).history@)
            }),
    {
        if self.selected_text != Some(hit) {
            self.commit_or_discard_active_text();
        }
        self.selected_text = Some(hit);
        self.editing_text = true;
        self.text_sel_anchor = None;
        self.composite_dirty = true;
        proof {
            lemma_text_pos_from(self.doc@.text_layers, hit, 0);
        }
        match find_text(&self.doc.text_layers, hit) {
            Some(_) => {
                self.text_cursor = text_byte_len(&self.doc.text_layers, hit);
            },
            None => {},
        }
        match find_text_link(&self.doc.layers, hit) {
            Some(i) => {
                self.doc.active_layer_id = self.doc.layers[i].id;
            },
            None => {},
        }
    }

    /// Starts a new, empty text, as a click on free canvas with the text
    /// tool does: the text being edited is committed first, `t` (with the
    /// next text id and no content) joins the texts with a layer of its
    /// own, and it opens for editing with the cursor at its start.
    pub fn create_text_layer(&mut self, t: TextLayer)
        requires
            old(self).doc@.next_text_id < u64::MAX,
            old(self).doc@.next_layer_id < u64::MAX,
        ensures
            ({
                let d = committed_doc(*old(self));
                let id = d.next_text_id;
                let texts = final(self).doc@.text_layers;
                &&& texts.len() == d.text_layers.len() + 1
                &&& texts.drop_last() == d.text_layers
                &&& texts.last() == (TextLayer { id, content: texts.last().content, ..t })
                &&& texts.last().content@.len() == 0
                &&& text_entry_done(
                    DocView { text_layers: texts, next_text_id: (id + 1) as u64, ..d },
                    final(self).doc@,
                    id,
                )
                &&& final(self).selected_text == Some(id)
                &&& final(self).editing_text
                &&& final(self).text_cursor == 0
                &&& final(self).text_sel_anchor is None
                &&& final(self).composite_dirty
                &&& final(self).dirty == old(self).dirty
                &&& final(self).tool == old(self).tool
                &&& final(self).color == old(self).color
                &&& history_docs(final(self).history@) == history_docs(old(self).history@)
            }),
    {
        self.commit_or_discard_active_text();
        let id = self.doc.next_text_id;
        self.doc.next_text_id = id + 1;
        let mut layer = t;
        layer.id = id;
        layer.content = String::new();
        self.doc.text_layers.push(layer);
        self.ensure_layer_entry_for_text(id);
        self.selected_text = Some(id);
        self.editing_text = true;
        self.text_cursor = 0;
        self.text_sel_anchor = None;
    }

    /// Selects the text `hit` without editing it, as a click on it with the
    /// pan tool does: the text being edited is committed first when it is
    /// another one, any placed image is deselected, and the layer showing
    /// the text becomes active.
    pub fn select_text_layer(&mut self, hit: u64)
        ensures
            ({
                let d = opened_doc(*old(self), hit);
                &&& final(self).doc@ == (DocView {
                    active_layer_id: match link_pos(d.layers, hit) {
                        Some(i) => d.layers[i].id,
                        None => d.active_layer_id,
                    },
                    ..d
                })
                &&& final(self).selected_text == Some(hit)
                &&& final(self).editing_text == (old(self).selected_text == Some(hit) && old(self).editing_text)
                &&& final(self).selected_image_layer is None
                &&& final(self).composite_dirty
                &&& final(self).dirty == old(self).dirty
                &&& final(self).tool == old(self).tool
                &&& final(self).color == old(self).color
                &&& history_docs(final(self).history@) == history_docs(old(self).history@)
            }),
    {
        if self.selected_text != Some(hit) {
            self.commit_or_discard_active_text();
        }
        self.selected_text = Some(hit);
        self.selected_image_layer = None;
        self.composite_dirty = true;
        match find_text_link(&self.doc.layers, hit) {
            Some(i) => {
                self.doc.active_layer_id = self.doc.layers[i].id;
            },
            None => {},
        }
    }

    /// Clears the selection, as a click on empty canvas with the pan tool
    /// does: the placed image is deselected and the text being edited is
    /// committed.
    pub fn deselect_all(&mut self)
        ensures
            final(self).doc@ == committed_doc(*old(self)),
            final(self).selected_image_layer is None,
            final(self).selected_text is None,
            !final(self).editing_text,
            final(self).composite_dirty,
            final(self).dirty == old(self).dirty,
            final(self).tool == old(self).tool,
            final(self).color == old(self).color,
            history_docs(final(self).history@) == history_docs(old(self).history@),
    {
        self.selected_image_layer = None;
        self.commit_or_discard_active_text();
    }
}

} // verus!
