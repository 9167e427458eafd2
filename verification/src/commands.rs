use vstd::prelude::*;
use vstd::string::StringExecFns;
use crate::labels::{LayerKind, BlendMode};
use crate::layers::{DocView, ImageLayer, layer_pos, find_layer};
use crate::editor::ImageEditor;
use crate::color::{RgbaColor, spec_to_hex};

verus! {

/// The window title: the file name, or `Untitled`, with ` *` while there
/// are unsaved changes.
pub open spec fn spec_window_title(name: Option<Seq<char>>, dirty: bool) -> Seq<char> {
    let base = match name {
        Some(n) => n,
        None => "Untitled"@,
    };
    if dirty { base + " *"@ } else { base }
}

pub fn window_title(name: Option<&str>, dirty: bool) -> (r: String)
    ensures
        r@ == spec_window_title(
            match name {
                Some(n) => Some(n@),
                None => None,
            },
            dirty,
        ),
{
    let mut r = match name {
        Some(n) => String::from_str(n),
        None => String::from_str("Untitled"),
    };
    proof {
        reveal_strlit("Untitled");
    }
    if dirty {
        r.append(" *");
    }
    r
}

/// The menu commands of the image editor.
#[derive(Debug, Clone, Copy, PartialEq, Eq, Structural)]
pub enum EditorCommand {
    ZoomIn,
    ZoomOut,
    Fit,
    ToggleLayers,
    FlipHorizontal,
    FlipVertical,
    RotateCcw,
    RotateCw,
    ResizeCanvas,
    BrightnessContrast,
    HueSaturation,
    Blur,
    Sharpen,
    Gray,
    Invert,
    Sepia,
    LayerNew,
    LayerDuplicate,
    LayerDelete,
    LayerMergeDown,
    LayerFlatten,
    PlaceImage,
}

/// The command a custom menu entry names.
pub open spec fn spec_command_for(label: Seq<char>) -> Option<EditorCommand> {
    if label == "Zoom In"@ {
        Some(EditorCommand::ZoomIn)
    } else if label == "Zoom Out"@ {
        Some(EditorCommand::ZoomOut)
    } else if label == "Fit"@ {
        Some(EditorCommand::Fit)
    } else if label == "Toggle Layers"@ {
        Some(EditorCommand::ToggleLayers)
    } else if label == "Flip Horizontal"@ {
        Some(EditorCommand::FlipHorizontal)
    } else if label == "Flip Vertical"@ {
        Some(EditorCommand::FlipVertical)
    } else if label == "Rotate CCW"@ {
        Some(EditorCommand::RotateCcw)
    } else if label == "Rotate CW"@ {
        Some(EditorCommand::RotateCw)
    } else if label == "Resize Canvas"@ {
        Some(EditorCommand::ResizeCanvas)
    } else if label == "B/C"@ {
        Some(EditorCommand::BrightnessContrast)
    } else if label == "H/S"@ {
        Some(EditorCommand::HueSaturation)
    } else if label == "Blur"@ {
        Some(EditorCommand::Blur)
    } else if label == "Sharpen"@ {
        Some(EditorCommand::Sharpen)
    } else if label == "Gray"@ {
        Some(EditorCommand::Gray)
    } else if label == "Invert"@ {
        Some(EditorCommand::Invert)
    } else if label == "Sepia"@ {
        Some(EditorCommand::Sepia)
    } else if label == "Layer New"@ {
        Some(EditorCommand::LayerNew)
    } else if label == "Layer Duplicate"@ {
        Some(EditorCommand::LayerDuplicate)
    } else if label == "Layer Delete"@ {
        Some(EditorCommand::LayerDelete)
    } else if label == "Layer Merge Down"@ {
        Some(EditorCommand::LayerMergeDown)
    } else if label == "Layer Flatten"@ {
        Some(EditorCommand::LayerFlatten)
    } else if label == "Place Image"@ {
        Some(EditorCommand::PlaceImage)
    } else {
        None
    }
}

fn is_label(label: &String, lit: &str) -> (r: bool)
    ensures
        r == (label@ == lit@),
{
    let l = String::from_str(lit);
    *label == l
}

/// The command a custom menu entry names, if any.
pub fn command_for(label: &str) -> (r: Option<EditorCommand>)
    ensures
        r == spec_command_for(label@),
{
    let l = String::from_str(label);
    if is_label(&l, "Zoom In") {
        Some(EditorCommand::ZoomIn)
    } else if is_label(&l, "Zoom Out") {
        Some(EditorCommand::ZoomOut)
    } else if is_label(&l, "Fit") {
        Some(EditorCommand::Fit)
    } else if is_label(&l, "Toggle Layers") {
        Some(EditorCommand::ToggleLayers)
    } else if is_label(&l, "Flip Horizontal") {
        Some(EditorCommand::FlipHorizontal)
    } else if is_label(&l, "Flip Vertical") {
        Some(EditorCommand::FlipVertical)
    } else if is_label(&l, "Rotate CCW") {
        Some(EditorCommand::RotateCcw)
    } else if is_label(&l, "Rotate CW") {
        Some(EditorCommand::RotateCw)
    } else if is_label(&l, "Resize Canvas") {
        Some(EditorCommand::ResizeCanvas)
    } else if is_label(&l, "B/C") {
        Some(EditorCommand::BrightnessContrast)
    } else if is_label(&l, "H/S") {
        Some(EditorCommand::HueSaturation)
    } else if is_label(&l, "Blur") {
        Some(EditorCommand::Blur)
    } else if is_label(&l, "Sharpen") {
        Some(EditorCommand::Sharpen)
    } else if is_label(&l, "Gray") {
        Some(EditorCommand::Gray)
    } else if is_label(&l, "Invert") {
        Some(EditorCommand::Invert)
    } else if is_label(&l, "Sepia") {
        Some(EditorCommand::Sepia)
    } else if is_label(&l, "Layer New") {
        Some(EditorCommand::LayerNew)
    } else if is_label(&l, "Layer Duplicate") {
        Some(EditorCommand::LayerDuplicate)
    } else if is_label(&l, "Layer Delete") {
        Some(EditorCommand::LayerDelete)
    } else if is_label(&l, "Layer Merge Down") {
        Some(EditorCommand::LayerMergeDown)
    } else if is_label(&l, "Layer Flatten") {
        Some(EditorCommand::LayerFlatten)
    } else if is_label(&l, "Place Image") {
        Some(EditorCommand::PlaceImage)
    } else {
        None
    }
}

/// Which menu entries are enabled.
pub struct MenuState {
    /// Export, import, layer creation and the filters need an image.
    pub has_image: bool,
    pub can_undo: bool,
    pub can_redo: bool,
    /// Deleting a layer and flattening need more than one layer.
    pub several_layers: bool,
    /// Merging down needs an active layer above the lowest.
    pub can_merge: bool,
}

/// The active layer exists above the lowest slot.
pub open spec fn spec_can_merge(d: DocView) -> bool {
    layer_pos(d.layers, d.active_layer_id) matches Some(i) && i > 0
}

/// A visible layer below the active one, as the backdrop of a stroke sees
/// it: id, kind, blend mode and opacity bits.
pub open spec fn below_entry(l: ImageLayer) -> (u64, LayerKind, BlendMode, u32) {
    (l.id, l.kind, l.blend_mode, l.opacity_bits)
}

/// The visible layers below the first layer with id `id` (all of them when
/// there is none), bottom first.
pub open spec fn spec_layers_below(layers: Seq<ImageLayer>, id: u64) -> Seq<(u64, LayerKind, BlendMode, u32)> {
    let k = match layer_pos(layers, id) {
        Some(i) => i,
        None => layers.len() as int,
    };
    layers.subrange(0, k).filter(|l: ImageLayer| l.visible).map_values(|l: ImageLayer| below_entry(l))
}

impl ImageEditor {
    /// Which menu entries are enabled.
    pub fn menu_state(&self) -> (m: MenuState)
        ensures
            m.has_image == (self.doc@.image is Some),
            m.can_undo == (self.history@.undo.len() > 0),
            m.can_redo == (self.history@.redo.len() > 0),
            m.several_layers == (self.doc@.layers.len() > 1),
            m.can_merge == spec_can_merge(self.doc@),
    {
        let can_merge = match find_layer(&self.doc.layers, self.doc.active_layer_id) {
            Some(i) => i > 0,
            None => false,
        };
        MenuState {
            has_image: self.doc.image.is_some(),
            can_undo: self.history.can_undo(),
            can_redo: self.history.can_redo(),
            several_layers: self.doc.layers.len() > 1,
            can_merge,
        }
    }

    /// Picks the favourite colour in `slot` as the current colour, made
    /// opaque; nothing happens for an empty slot.
    pub fn select_favorite_color(&mut self, slot: usize)
        ensures
            slot < old(self).color_favorites.colors@.len() ==> {
                let c = RgbaColor { a: 255, ..old(self).color_favorites.colors@[slot as int] };
                &&& final(self).color == c
                &&& final(self).hex_input@ == spec_to_hex(c)
            },
            slot >= old(self).color_favorites.colors@.len() ==> final(self).color == old(self).color
                && final(self).hex_input@ == old(self).hex_input@,
            *final(self) == (ImageEditor { color: final(self).color, hex_input: final(self).hex_input, ..*old(self) }),
    {
        if slot < self.color_favorites.colors.len() {
            let mut col = self.color_favorites.colors[slot];
            col.a = 255;
            self.color = col;
            self.hex_input = col.to_hex();
        }
    }

    /// The visible layers below the first layer with id `id`.
    pub fn layers_below(&self, id: u64) -> (r: Vec<(u64, LayerKind, BlendMode, u32)>)
        ensures
            r@ == spec_layers_below(self.doc@.layers, id),
    {
        let layers = &self.doc.layers;
        let k = match find_layer(layers, id) {
            Some(i) => i,
            None => layers.len(),
        };
        let mut r: Vec<(u64, LayerKind, BlendMode, u32)> = Vec::new();
        let mut i: usize = 0;
        while i < k
            invariant
                k <= layers@.len(),
                i <= k,
                r@ == layers@.subrange(0, i as int).filter(|l: ImageLayer| l.visible).map_values(
                    |l: ImageLayer| below_entry(l),
                ),
            decreases k - i,
        {
            proof {
                reveal(Seq::filter);
                assert(layers@.subrange(0, i + 1).drop_last() =~= layers@.subrange(0, i as int));
            }
            let l = &layers[i];
            if l.visible {
                r.push((l.id, l.kind, l.blend_mode, l.opacity_bits));
            }
            proof {
                let f = layers@.subrange(0, i + 1).filter(|l: ImageLayer| l.visible);
                assert(r@ =~= f.map_values(|l: ImageLayer| below_entry(l)));
            }
            i = i + 1;
        }
        r
    }
}

} // verus!
