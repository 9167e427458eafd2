use vstd::prelude::*;
use crate::layers::{DocView, TextLayer, text_pos, find_text, lemma_text_pos_from, without_text,
    without_text_links, remove_text, remove_text_links};
use crate::editor::{ImageEditor, history_docs};
use crate::text_edit::{TextEvent, spec_text_step, spec_detached_step, apply_text_event,
    apply_detached_event, utf8, valid_edit_state, opt_pos,
    clamp_to_boundary};

verus! {

/// Where a text-editing session stands: the edited text (none when its
/// layer has gone), cursor, anchor, whether the text changed or editing
/// ends, and what went to the clipboard, in order.
pub struct SessionView {
    pub text: Option<Seq<u8>>,
    pub cursor: int,
    pub anchor: Option<int>,
    pub changed: bool,
    pub deselect: bool,
    pub copies: Seq<Seq<u8>>,
}

/// One event of a session.
pub open spec fn session_step(s: SessionView, ev: TextEvent) -> SessionView {
    match s.text {
        Some(b) => {
            let st = spec_text_step(b, s.cursor, s.anchor, ev);
            SessionView {
                text: Some(st.text),
                cursor: st.cursor,
                anchor: st.anchor,
                changed: s.changed || st.changed,
                deselect: s.deselect || st.deselect,
                copies: match st.copied {
                    Some(c) => s.copies.push(c),
                    None => s.copies,
                },
            }
        },
        None => {
            let (c, a, d) = spec_detached_step(s.cursor, s.anchor, ev);
            SessionView { text: None, cursor: c, anchor: a, changed: s.changed, deselect: s.deselect || d, copies: s.copies }
        },
    }
}

/// The session after the first `n` events.
pub open spec fn session_run(s0: SessionView, evs: Seq<TextEvent>, n: int) -> SessionView
    decreases n,
{
    if n <= 0 || n > evs.len() {
        s0
    } else {
        session_step(session_run(s0, evs, n - 1), evs[n - 1])
    }
}

/// The session an editor starts its event batch with.
pub open spec fn initial_session(e: ImageEditor) -> SessionView {
    let id = e.selected_text->Some_0;
    SessionView {
        text: match text_pos(e.doc@.text_layers, id) {
            Some(i) => Some(utf8(e.doc@.text_layers[i].content@)),
            None => None,
        },
        cursor: e.text_cursor as int,
        anchor: opt_pos(e.text_sel_anchor),
        changed: false,
        deselect: false,
        copies: Seq::empty(),
    }
}

/// The bytes of each copied string.
pub open spec fn copies_bytes(v: Seq<String>) -> Seq<Seq<u8>> {
    v.map_values(|s: String| utf8(s@))
}

/// `b` differs from `a` only in the content of the text layer at `i`,
/// whose bytes are `bytes`.
pub open spec fn text_replaced(a: Seq<TextLayer>, b: Seq<TextLayer>, i: int, bytes: Seq<u8>) -> bool {
    &&& b.len() == a.len()
    &&& 0 <= i < a.len()
    &&& forall|j: int| 0 <= j < a.len() && j != i ==> b[j] == a[j]
    &&& b[i] == (TextLayer { content: b[i].content, ..a[i] })
    &&& utf8(b[i].content@) == bytes
}

/// The document after editing ends with the text `id` left empty (or
/// gone): the text and every layer showing it leave, and the top layer
/// becomes active.
pub open spec fn discard_text(d: DocView, id: u64) -> DocView {
    let layers = without_text_links(d.layers, id);
    DocView {
        text_layers: without_text(d.text_layers, id),
        layers,
        active_layer_id: if layers.len() > 0 { layers.last().id } else { 0 },
        ..d
    }
}

/// The text with this id is empty or missing.
pub open spec fn text_is_empty(texts: Seq<TextLayer>, id: u64) -> bool {
    match text_pos(texts, id) {
        Some(i) => texts[i].content@.len() == 0,
        None => true,
    }
}

/// Dropping the text layers with an id does not see a change made only to
/// layers with that id.
pub proof fn lemma_without_text_ignores(a: Seq<TextLayer>, b: Seq<TextLayer>, id: u64)
    requires
        a.len() == b.len(),
        forall|j: int| 0 <= j < a.len() && a[j] != b[j] ==> a[j].id == id && b[j].id == id,
    ensures
        without_text(a, id) == without_text(b, id),
    decreases a.len(),
{
    reveal(Seq::filter);
    if a.len() > 0 {
        let (a2, b2) = (a.drop_last(), b.drop_last());
        assert forall|j: int| 0 <= j < a2.len() && a2[j] != b2[j] implies a2[j].id == id && b2[j].id == id by {
            assert(a2[j] == a[j] && b2[j] == b[j]);
        }
        lemma_without_text_ignores(a2, b2, id);
    }
}

/// Runs the batch of events on the edited text, which is `content` when
/// the edited layer exists.
fn run_events(
    content: &mut Option<String>,
    cursor: &mut usize,
    anchor: &mut Option<usize>,
    events: &Vec<TextEvent>,
) -> (r: (Vec<String>, bool, bool))
    requires
        match *old(content) {
            Some(s) => valid_edit_state(utf8(s@), *old(cursor) as int, opt_pos(*old(anchor))),
            None => true,
        },
    ensures
        ({
            let s0 = SessionView {
                text: match *old(content) {
                    Some(s) => Some(utf8(s@)),
                    None => None,
                },
                cursor: *old(cursor) as int,
                anchor: opt_pos(*old(anchor)),
                changed: false,
                deselect: false,
                copies: Seq::empty(),
            };
            let s = session_run(s0, events@, events@.len() as int);
            &&& (match *final(content) {
                Some(t) => s.text == Some(utf8(t@)),
                None => s.text is None,
            })
            &&& *final(cursor) == s.cursor
            &&& opt_pos(*final(anchor)) == s.anchor
            &&& copies_bytes(r.0@) == s.copies
            &&& r.1 == s.changed
            &&& r.2 == s.deselect
            &&& (s.text matches Some(t) ==> valid_edit_state(t, s.cursor, s.anchor))
        }),
        (*final(content) is Some) == (*old(content) is Some),
{
    let ghost c0: Option<String> = *content;
    let ghost s0 = SessionView {
        text: match c0 {
            Some(s) => Some(utf8(s@)),
            None => None,
        },
        cursor: *cursor as int,
        anchor: opt_pos(*anchor),
        changed: false,
        deselect: false,
        copies: Seq::empty(),
    };
    let mut copies: Vec<String> = Vec::new();
    let mut changed = false;
    let mut deselect = false;
    let n = events.len();
    let mut i: usize = 0;
    while i < n
        invariant
            n == events@.len(),
            i <= n,
            (*old(content) is Some) == (*content is Some),
            c0 == *old(content),
            ({
                let s = session_run(s0, events@, i as int);
                &&& (match *content {
                    Some(t) => s.text == Some(utf8(t@)) && valid_edit_state(utf8(t@), *cursor as int, opt_pos(*anchor)),
                    None => s.text is None,
                })
                &&& *cursor == s.cursor
                &&& opt_pos(*anchor) == s.anchor
                &&& copies_bytes(copies@) == s.copies
                &&& changed == s.changed
                &&& deselect == s.deselect
            }),
        decreases n - i,
    {
        let ev = &events[i];
        match content {
            Some(t) => {
                let out = apply_text_event(t, cursor, anchor, ev);
                if out.changed {
                    changed = true;
                }
                if out.deselect {
                    deselect = true;
                }
                match out.copied {
                    Some(c) => copies.push(c),
                    None => {},
                }
            },
            None => {
                let d = apply_detached_event(cursor, anchor, ev);
                if d {
                    deselect = true;
                }
            },
        }
        proof {
            let prev = session_run(s0, events@, i as int);
            assert(session_run(s0, events@, i + 1) == session_step(prev, events@[i as int]));
            assert(copies_bytes(copies@) =~= session_run(s0, events@, i + 1).copies);
        }
        i = i + 1;
    }
    (copies, changed, deselect)
}

/// Layers with the same ids give the same text positions.
pub proof fn lemma_text_pos_same_ids(a: Seq<TextLayer>, b: Seq<TextLayer>, id: u64, k: int)
    requires
        a.len() == b.len(),
        forall|j: int| 0 <= j < a.len() ==> a[j].id == b[j].id,
    ensures
        crate::layers::text_pos_from(a, id, k) == crate::layers::text_pos_from(b, id, k),
    decreases a.len() - k,
{
    if k < 0 || k >= a.len() {
    } else {
        lemma_text_pos_same_ids(a, b, id, k + 1);
    }
}

/// Only the empty character sequence has no bytes.
pub proof fn lemma_utf8_empty(s: Seq<char>)
    ensures
        (utf8(s).len() == 0) == (s.len() == 0),
{
    if s.len() > 0 {
        vstd::utf8::encode_utf8_first_scalar(s);
        assert(utf8(s) =~= vstd::utf8::encode_scalar(s[0] as u32) + utf8(s.drop_first()));
    } else {
        assert(utf8(s) =~= Seq::<u8>::empty());
    }
}

impl ImageEditor {
    /// Ends text editing: a text left empty (or gone) is removed together
    /// with the layers that show it, and the top layer becomes active.
    pub fn commit_or_discard_active_text(&mut self)
        ensures
            final(self).doc@ == (match old(self).selected_text {
                Some(id) => if text_is_empty(old(self).doc@.text_layers, id) {
                    discard_text(old(self).doc@, id)
                } else {
                    old(self).doc@
                },
                None => old(self).doc@,
            }),
            final(self).selected_text is None,
            !final(self).editing_text,
            final(self).text_cursor == 0,
            final(self).text_sel_anchor is None,
            final(self).composite_dirty,
            final(self).dirty == old(self).dirty,
            final(self).history == old(self).history,
            final(self).texture_dirty == old(self).texture_dirty,
            final(self).texture_dirty_rect == old(self).texture_dirty_rect,
            final(self).selected_image_layer == old(self).selected_image_layer,
            final(self).resize_w == old(self).resize_w,
            final(self).resize_h == old(self).resize_h,
            final(self).tool == old(self).tool,
            final(self).color == old(self).color,
    {
        match self.selected_text {
            Some(id) => {
                proof {
                    lemma_text_pos_from(self.doc@.text_layers, id, 0);
                }
                let empty = match find_text(&self.doc.text_layers, id) {
                    Some(i) => self.doc.text_layers[i].content.as_str().is_empty(),
                    None => true,
                };
                if empty {
                    self.doc.text_layers = remove_text(&self.doc.text_layers, id);
                    self.doc.layers = remove_text_links(&self.doc.layers, id);
                    let n = self.doc.layers.len();
                    self.doc.active_layer_id = if n > 0 { self.doc.layers[n - 1].id } else { 0 };
                }
            },
            None => {},
        }
        self.selected_text = None;
        self.editing_text = false;
        self.text_cursor = 0;
        self.text_sel_anchor = None;
        self.composite_dirty = true;
    }

    /// Applies a frame's input events to the text being edited, returning
    /// what was copied to the clipboard, in order. Enter without Shift ends
    /// editing after the batch.
    pub fn process_text_input(&mut self, events: &Vec<TextEvent>) -> (copies: Vec<String>)
        requires
            old(self).editing_text && old(self).selected_text is Some ==> match text_pos(
                old(self).doc@.text_layers,
                old(self).selected_text->Some_0,
            ) {
                Some(i) => valid_edit_state(
                    utf8(old(self).doc@.text_layers[i].content@),
                    old(self).text_cursor as int,
                    opt_pos(old(self).text_sel_anchor),
                ),
                None => true,
            },
        ensures
            !(old(self).editing_text && old(self).selected_text is Some) ==> *final(self) == *old(self)
                && copies@.len() == 0,
            old(self).editing_text && old(self).selected_text is Some ==> {
                let id = old(self).selected_text->Some_0;
                let texts = old(self).doc@.text_layers;
                let s = session_run(initial_session(*old(self)), events@, events@.len() as int);
                &&& copies_bytes(copies@) == s.copies
                &&& history_docs(final(self).history@) == history_docs(old(self).history@)
                &&& final(self).dirty == old(self).dirty
                &&& (s.changed || s.deselect ==> final(self).composite_dirty)
                &&& (!s.changed && !s.deselect ==> final(self).composite_dirty == old(self).composite_dirty)
                &&& if s.deselect {
                    &&& final(self).selected_text is None
                    &&& !final(self).editing_text
                    &&& final(self).text_cursor == 0
                    &&& final(self).text_sel_anchor is None
                    &&& match text_pos(texts, id) {
                        Some(i) => if s.text->Some_0.len() == 0 {
                            final(self).doc@ == discard_text(old(self).doc@, id)
                        } else {
                            &&& text_replaced(texts, final(self).doc@.text_layers, i, s.text->Some_0)
                            &&& final(self).doc@ == (DocView { text_layers: final(self).doc@.text_layers, ..old(self).doc@ })
                        },
                        None => final(self).doc@ == discard_text(old(self).doc@, id),
                    }
                } else {
                    &&& final(self).selected_text == old(self).selected_text
                    &&& final(self).editing_text
                    &&& final(self).text_cursor == s.cursor
                    &&& opt_pos(final(self).text_sel_anchor) == s.anchor
                    &&& match text_pos(texts, id) {
                        Some(i) => {
                            &&& text_replaced(texts, final(self).doc@.text_layers, i, s.text->Some_0)
                            &&& final(self).doc@ == (DocView { text_layers: final(self).doc@.text_layers, ..old(self).doc@ })
                            &&& valid_edit_state(
                                utf8(final(self).doc@.text_layers[i].content@),
                                final(self).text_cursor as int,
                                opt_pos(final(self).text_sel_anchor),
                            )
                        },
                        None => final(self).doc@ == old(self).doc@,
                    }
                }
            },
    {
        if !self.editing_text || self.selected_text.is_none() {
            return Vec::new();
        }
        let id = self.selected_text.unwrap();
        proof {
            lemma_text_pos_from(self.doc@.text_layers, id, 0);
        }
        let pos = find_text(&self.doc.text_layers, id);
        let mut content: Option<String> = match pos {
            Some(i) => Some(self.doc.text_layers[i].content.clone()),
            None => None,
        };
        let mut cursor = self.text_cursor;
        let mut anchor = self.text_sel_anchor;
        let (copies, changed, deselect) = run_events(&mut content, &mut cursor, &mut anchor, events);
        let ghost texts = self.doc@.text_layers;
        match pos {
            Some(i) => {
                let t = match content {
                    Some(t) => t,
                    None => String::new(),
                };
                cursor = clamp_to_boundary(&t, cursor);
                anchor = match anchor {
                    Some(a) => Some(clamp_to_boundary(&t, a)),
                    None => None,
                };
                let mut layer = self.doc.text_layers[i].clone();
                layer.content = t;
                self.doc.text_layers.set(i, layer);
                proof {
                    assert(text_replaced(texts, self.doc@.text_layers, i as int, utf8(layer.content@)));
                }
            },
            None => {},
        }
        self.text_cursor = cursor;
        self.text_sel_anchor = anchor;
        if changed {
            self.composite_dirty = true;
        }
        if deselect {
            let ghost mid = self.doc@;
            proof {
                match pos {
                    Some(i) => {
                        lemma_text_pos_same_ids(texts, mid.text_layers, id, 0);
                        lemma_utf8_empty(mid.text_layers[i as int].content@);
                        lemma_without_text_ignores(texts, mid.text_layers, id);
                    },
                    None => {},
                }
            }
            self.commit_or_discard_active_text();
        }
        copies
    }
}

} // verus!
