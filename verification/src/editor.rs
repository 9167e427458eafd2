use vstd::prelude::*;
use vstd::string::StringExecFns;
use crate::labels::{Tool, FilterPanel};
use crate::layers::{LayerDocument, DocView, is_new_document};
use crate::history::{UndoHistory, HistoryView, spec_record, spec_undo, spec_redo};
use crate::color::RgbaColor;
use crate::palette::{ColorHistory, ColorFavorites, spec_add_color};
use crate::export::ExportFormat;

verus! {

/// The editing state behind the image editor's window: the document, its
/// undo history, the current tool and colour, the text being edited, and
/// what must be redrawn.
pub struct ImageEditor {
    pub doc: LayerDocument,
    pub history: UndoHistory<LayerDocument>,
    /// Unsaved changes exist.
    pub dirty: bool,
    /// The background texture must be uploaded again.
    pub texture_dirty: bool,
    /// The part of the background texture that changed, as `[x0, y0, x1, y1]`.
    pub texture_dirty_rect: Option<[u32; 4]>,
    /// The composite of all layers must be rebuilt.
    pub composite_dirty: bool,
    pub fit_on_next_frame: bool,
    pub tool: Tool,
    pub color: RgbaColor,
    pub color_history: ColorHistory,
    pub color_favorites: ColorFavorites,
    pub hex_input: String,
    pub selected_text: Option<u64>,
    pub editing_text: bool,
    pub text_cursor: usize,
    pub text_sel_anchor: Option<usize>,
    pub selected_image_layer: Option<u64>,
    pub filter_panel: FilterPanel,
    pub resize_w: u32,
    pub resize_h: u32,
    pub is_processing: bool,
    pub processing_is_preview: bool,
    pub filter_target_layer_id: u64,
    pub filter_preview_active: bool,
    pub filter_preview_snapshot: Option<LayerDocument>,
    pub show_layers_panel: bool,
    pub export_format: ExportFormat,
    pub export_jpeg_quality: u8,
    pub export_auto_scale_ico: bool,
    /// The file the editor was loaded from or last saved as.
    pub file_path: Option<String>,
}

/// The documents of a history, by content.
pub open spec fn docs_view(s: Seq<LayerDocument>) -> Seq<DocView> {
    s.map_values(|d: LayerDocument| d@)
}

/// The undo history of an editor, by content.
pub open spec fn history_docs(h: HistoryView<LayerDocument>) -> HistoryView<DocView> {
    HistoryView { undo: docs_view(h.undo), redo: docs_view(h.redo) }
}

/// Recording commutes with taking contents.
pub proof fn lemma_record_docs(h: HistoryView<LayerDocument>, e: LayerDocument)
    ensures
        history_docs(spec_record(h, e)) == spec_record(history_docs(h), e@),
{
    let pushed = h.undo.push(e);
    assert(docs_view(pushed) =~= docs_view(h.undo).push(e@));
    if pushed.len() > crate::history::MAX_UNDO {
        assert(docs_view(pushed.drop_first()) =~= docs_view(pushed).drop_first());
    }
    assert(docs_view(Seq::<LayerDocument>::empty()) =~= Seq::<DocView>::empty());
    assert(history_docs(spec_record(h, e)).undo =~= spec_record(history_docs(h), e@).undo);
    assert(history_docs(spec_record(h, e)).redo =~= spec_record(history_docs(h), e@).redo);
}

/// Undo commutes with taking contents.
pub proof fn lemma_undo_docs(h: HistoryView<LayerDocument>, cur: LayerDocument)
    ensures
        history_docs(spec_undo(h, cur).0) == spec_undo(history_docs(h), cur@).0,
        spec_undo(h, cur).1 is Some <==> spec_undo(history_docs(h), cur@).1 is Some,
        spec_undo(h, cur).1 matches Some(d) ==> spec_undo(history_docs(h), cur@).1 == Some(d@),
{
    if h.undo.len() > 0 {
        assert(docs_view(h.undo.drop_last()) =~= docs_view(h.undo).drop_last());
        assert(docs_view(h.redo.push(cur)) =~= docs_view(h.redo).push(cur@));
    }
}

/// Redo commutes with taking contents.
pub proof fn lemma_redo_docs(h: HistoryView<LayerDocument>, cur: LayerDocument)
    ensures
        history_docs(spec_redo(h, cur).0) == spec_redo(history_docs(h), cur@).0,
        spec_redo(h, cur).1 is Some <==> spec_redo(history_docs(h), cur@).1 is Some,
        spec_redo(h, cur).1 matches Some(d) ==> spec_redo(history_docs(h), cur@).1 == Some(d@),
{
    if h.redo.len() > 0 {
        assert(docs_view(h.redo.drop_last()) =~= docs_view(h.redo).drop_last());
        assert(docs_view(h.undo.push(cur)) =~= docs_view(h.undo).push(cur@));
    }
}

/// The settings and selections that an edit of the document leaves alone.
pub open spec fn keeps_settings(a: ImageEditor, b: ImageEditor) -> bool {
    &&& b.tool == a.tool
    &&& b.color == a.color
    &&& b.color_history.colors@ == a.color_history.colors@
    &&& b.color_favorites.colors@ == a.color_favorites.colors@
    &&& b.hex_input@ == a.hex_input@
    &&& b.editing_text == a.editing_text
    &&& b.text_cursor == a.text_cursor
    &&& b.text_sel_anchor == a.text_sel_anchor
    &&& b.filter_panel == a.filter_panel
    &&& b.is_processing == a.is_processing
    &&& b.processing_is_preview == a.processing_is_preview
    &&& b.filter_target_layer_id == a.filter_target_layer_id
    &&& b.filter_preview_active == a.filter_preview_active
    &&& b.filter_preview_snapshot == a.filter_preview_snapshot
    &&& b.show_layers_panel == a.show_layers_panel
    &&& b.export_format == a.export_format
    &&& b.export_jpeg_quality == a.export_jpeg_quality
    &&& b.export_auto_scale_ico == a.export_auto_scale_ico
}

/// `#000000FF`, the colour text field's first content.
pub open spec fn initial_hex_input() -> Seq<char> {
    "#000000FF"@
}

/// The state of a newly opened editor: an empty document, the brush tool,
/// black, no file, nothing selected, pending or changed.
pub open spec fn is_fresh(e: ImageEditor) -> bool {
    &&& is_new_document(e.doc@)
    &&& e.history@.undo.len() == 0
    &&& e.history@.redo.len() == 0
    &&& !e.dirty
    &&& e.tool == Tool::Brush
    &&& e.color == (RgbaColor { r: 0, g: 0, b: 0, a: 255 })
    &&& e.hex_input@ == initial_hex_input()
    &&& e.selected_text is None
    &&& !e.editing_text
    &&& e.filter_panel == FilterPanel::Closed
    &&& e.export_format == ExportFormat::Png
    &&& e.export_jpeg_quality == 90
    &&& e.export_auto_scale_ico
    &&& e.show_layers_panel
    &&& !e.texture_dirty
    &&& e.texture_dirty_rect is None
    &&& !e.composite_dirty
    &&& e.fit_on_next_frame
    &&& e.color_history.colors@.len() == 0
    &&& e.color_favorites.colors@.len() == 0
    &&& e.text_cursor == 0
    &&& e.text_sel_anchor is None
    &&& e.selected_image_layer is None
    &&& e.resize_w == 0
    &&& e.resize_h == 0
    &&& !e.is_processing
    &&& !e.processing_is_preview
    &&& e.filter_target_layer_id == 0
    &&& !e.filter_preview_active
    &&& e.filter_preview_snapshot is None
    &&& e.file_path is None
}

impl ImageEditor {
    /// An editor with an empty document, the brush tool and black.
    pub fn new() -> (e: ImageEditor)
        ensures
            is_fresh(e),
    {
        let hex_input = String::from_str("#000000FF");
        proof {
            reveal_strlit("#000000FF");
        }
        ImageEditor {
            doc: LayerDocument::new(),
            history: UndoHistory::new(),
            dirty: false,
            texture_dirty: false,
            texture_dirty_rect: None,
            composite_dirty: false,
            fit_on_next_frame: true,
            tool: Tool::Brush,
            color: RgbaColor { r: 0, g: 0, b: 0, a: 255 },
            color_history: ColorHistory::new(),
            color_favorites: ColorFavorites::new(),
            hex_input,
            selected_text: None,
            editing_text: false,
            text_cursor: 0,
            text_sel_anchor: None,
            selected_image_layer: None,
            filter_panel: FilterPanel::Closed,
            resize_w: 0,
            resize_h: 0,
            is_processing: false,
            processing_is_preview: false,
            filter_target_layer_id: 0,
            filter_preview_active: false,
            filter_preview_snapshot: None,
            show_layers_panel: true,
            export_format: ExportFormat::Png,
            export_jpeg_quality: 90,
            export_auto_scale_ico: true,
            file_path: None,
        }
    }

    pub fn is_dirty(&self) -> (r: bool)
        ensures
            r == self.dirty,
    {
        self.dirty
    }

    /// Records the current colour as the most recently used one.
    pub fn add_color_to_history(&mut self)
        ensures
            final(self).color_history.colors@ == spec_add_color(old(self).color_history.colors@, old(self).color),
            *final(self) == (ImageEditor { color_history: final(self).color_history, ..*old(self) }),
    {
        let c = self.color;
        self.color_history.add_color(c);
    }

    /// A copy of the document for the undo history.
    pub fn take_undo_snapshot(&self) -> (r: LayerDocument)
        ensures
            r@ == self.doc@,
    {
        self.doc.snapshot()
    }

    /// Puts a document from the history back in place and marks everything
    /// for redrawing; the resize fields follow the background's size.
    pub fn restore_undo_snapshot(&mut self, entry: LayerDocument)
        ensures
            final(self).doc@ == entry@,
            final(self).history@ == old(self).history@,
            final(self).texture_dirty,
            final(self).composite_dirty,
            final(self).dirty,
            entry@.image matches Some(img) ==> final(self).resize_w == img.width
                && final(self).resize_h == img.height,
            entry@.image is None ==> final(self).resize_w == old(self).resize_w
                && final(self).resize_h == old(self).resize_h,
            *final(self) == (ImageEditor {
                doc: final(self).doc,
                resize_w: final(self).resize_w,
                resize_h: final(self).resize_h,
                texture_dirty: true,
                composite_dirty: true,
                dirty: true,
                ..*old(self)
            }),
    {
        self.doc = entry;
        match &self.doc.image {
            Some(img) => {
                self.resize_w = img.width();
                self.resize_h = img.height();
            },
            None => {},
        }
        self.texture_dirty = true;
        self.composite_dirty = true;
        self.dirty = true;
    }

    /// Records the current document before an edit.
    pub fn push_undo(&mut self)
        ensures
            history_docs(final(self).history@) == spec_record(history_docs(old(self).history@), old(self).doc@),
            *final(self) == (ImageEditor { history: final(self).history, ..*old(self) }),
    {
        let entry = self.take_undo_snapshot();
        let ghost h = self.history@;
        proof {
            lemma_record_docs(h, entry);
        }
        self.history.record(entry);
    }

    /// Takes back the last recorded edit; nothing happens when there is none.
    pub fn undo(&mut self)
        ensures
            ({
                let (h, r) = spec_undo(history_docs(old(self).history@), old(self).doc@);
                &&& history_docs(final(self).history@) == h
                &&& match r {
                    Some(d) => {
                        &&& final(self).doc@ == d
                        &&& (d.image matches Some(img) ==> final(self).resize_w == img.width
                            && final(self).resize_h == img.height)
                        &&& (d.image is None ==> final(self).resize_w == old(self).resize_w
                            && final(self).resize_h == old(self).resize_h)
                        &&& *final(self) == (ImageEditor {
                            doc: final(self).doc,
                            history: final(self).history,
                            resize_w: final(self).resize_w,
                            resize_h: final(self).resize_h,
                            texture_dirty: true,
                            composite_dirty: true,
                            dirty: true,
                            ..*old(self)
                        })
                    },
                    None => *final(self) == (ImageEditor { history: final(self).history, ..*old(self) }),
                }
            }),
    {
        let current = self.take_undo_snapshot();
        let ghost h = self.history@;
        proof {
            lemma_undo_docs(h, current);
        }
        match self.history.undo(current) {
            Some(entry) => self.restore_undo_snapshot(entry),
            None => {},
        }
    }

    /// Applies again the last edit taken back; nothing happens when there is
    /// none.
    pub fn redo(&mut self)
        ensures
            ({
                let (h, r) = spec_redo(history_docs(old(self).history@), old(self).doc@);
                &&& history_docs(final(self).history@) == h
                &&& match r {
                    Some(d) => {
                        &&& final(self).doc@ == d
                        &&& (d.image matches Some(img) ==> final(self).resize_w == img.width
                            && final(self).resize_h == img.height)
                        &&& (d.image is None ==> final(self).resize_w == old(self).resize_w
                            && final(self).resize_h == old(self).resize_h)
                        &&& *final(self) == (ImageEditor {
                            doc: final(self).doc,
                            history: final(self).history,
                            resize_w: final(self).resize_w,
                            resize_h: final(self).resize_h,
                            texture_dirty: true,
                            composite_dirty: true,
                            dirty: true,
                            ..*old(self)
                        })
                    },
                    None => *final(self) == (ImageEditor { history: final(self).history, ..*old(self) }),
                }
            }),
    {
        let current = self.take_undo_snapshot();
        let ghost h = self.history@;
        proof {
            lemma_redo_docs(h, current);
        }
        match self.history.redo(current) {
            Some(entry) => self.restore_undo_snapshot(entry),
            None => {},
        }
    }

    /// Drops a filter preview: the document from before the preview comes
    /// back, if one was kept.
    pub fn cancel_filter_preview(&mut self)
        ensures
            match old(self).filter_preview_snapshot {
                Some(s) => {
                    &&& final(self).doc@ == s@
                    &&& (s@.image matches Some(img) ==> final(self).resize_w == img.width
                        && final(self).resize_h == img.height)
                    &&& (s@.image is None ==> final(self).resize_w == old(self).resize_w
                        && final(self).resize_h == old(self).resize_h)
                    &&& *final(self) == (ImageEditor {
                        doc: final(self).doc,
                        resize_w: final(self).resize_w,
                        resize_h: final(self).resize_h,
                        texture_dirty: true,
                        composite_dirty: true,
                        dirty: true,
                        filter_preview_snapshot: None,
                        filter_preview_active: false,
                        processing_is_preview: false,
                        ..*old(self)
                    })
                },
                None => *final(self) == (ImageEditor {
                    filter_preview_active: false,
                    processing_is_preview: false,
                    ..*old(self)
                }),
            },
    {
        let mut snap: Option<LayerDocument> = None;
        std::mem::swap(&mut snap, &mut self.filter_preview_snapshot);
        match snap {
            Some(s) => self.restore_undo_snapshot(s),
            None => {},
        }
        self.filter_preview_active = false;
        self.processing_is_preview = false;
    }

    /// Keeps a filter preview: the document from before it becomes an undo
    /// step.
    pub fn accept_filter_preview(&mut self)
        ensures
            match old(self).filter_preview_snapshot {
                Some(s) => history_docs(final(self).history@) == spec_record(history_docs(old(self).history@), s@),
                None => history_docs(final(self).history@) == history_docs(old(self).history@),
            },
            *final(self) == (ImageEditor {
                history: final(self).history,
                filter_preview_snapshot: None,
                filter_preview_active: false,
                ..*old(self)
            }),
    {
        let mut snap: Option<LayerDocument> = None;
        std::mem::swap(&mut snap, &mut self.filter_preview_snapshot);
        match snap {
            Some(s) => {
                proof {
                    lemma_record_docs(self.history@, s);
                }
                self.history.record(s);
            },
            None => {},
        }
        self.filter_preview_active = false;
    }
}

} // verus!
