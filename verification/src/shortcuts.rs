use vstd::prelude::*;
use crate::labels::Tool;
use crate::editor::ImageEditor;
use crate::layer_ops::spec_image_layer_for_active;
use crate::text_session::{discard_text, text_is_empty};
use crate::layers::DocView;

verus! {

/// Which text a tool change leaves in the document: switching to any tool
/// but the text tool ends text editing, discarding a selected text left
/// empty; switching to the text tool leaves everything as it is.
pub open spec fn doc_after_tool_change(e: ImageEditor, t: Tool) -> DocView {
    if t == Tool::Text {
        e.doc@
    } else {
        match e.selected_text {
            Some(id) => if text_is_empty(e.doc@.text_layers, id) { discard_text(e.doc@, id) } else { e.doc@ },
            None => e.doc@,
        }
    }
}

impl ImageEditor {
    /// Picks the tool `t`. Any tool but the text tool first ends text
    /// editing (see `commit_or_discard_active_text`).
    pub fn choose_tool(&mut self, t: Tool)
        ensures
            final(self).tool == t,
            final(self).doc@ == doc_after_tool_change(*old(self), t),
            t == Tool::Text ==> *final(self) == (ImageEditor { tool: t, ..*old(self) }),
            t != Tool::Text ==> {
                &&& final(self).selected_text is None
                &&& !final(self).editing_text
                &&& final(self).text_cursor == 0
                &&& final(self).text_sel_anchor is None
                &&& final(self).composite_dirty
            },
            final(self).dirty == old(self).dirty,
            final(self).history == old(self).history,
            final(self).texture_dirty == old(self).texture_dirty,
            final(self).texture_dirty_rect == old(self).texture_dirty_rect,
            final(self).selected_image_layer == old(self).selected_image_layer,
            final(self).resize_w == old(self).resize_w,
            final(self).resize_h == old(self).resize_h,
            final(self).color == old(self).color,
    {
        if t != Tool::Text {
            self.commit_or_discard_active_text();
        }
        self.tool = t;
    }

    /// Single-key shortcuts act only while no text is being edited and no
    /// input field has the keyboard (`focused`).
    pub fn single_keys_active(&self, focused: bool) -> (r: bool)
        ensures
            r == (!self.editing_text && !focused),
    {
        !self.editing_text && !focused
    }

    /// The confirm key applies a crop only under the crop tool and once both
    /// corners of the crop rectangle are set.
    pub fn crop_confirm_applies(&self, has_start: bool, has_end: bool) -> (r: bool)
        ensures
            r == (self.tool == Tool::Crop && has_start && has_end),
    {
        self.tool == Tool::Crop && has_start && has_end
    }

    /// The delete key removes the active layer only while a placed image is
    /// selected and the active layer shows a placed image.
    pub fn can_delete_selected_image(&self) -> (r: bool)
        ensures
            r == (self.selected_image_layer is Some && spec_image_layer_for_active(self.doc@) is Some),
    {
        self.selected_image_layer.is_some() && self.image_layer_for_active().is_some()
    }
}

} // verus!
