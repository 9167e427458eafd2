use vstd::prelude::*;
use std::collections::HashMap;
use crate::labels::{BlendMode, LayerKind};
use crate::raster::{RgbaImage, RasterView};
use crate::color::RgbaColor;

verus! {

/// The bit pattern of the opacity 1.0 (layer opacities are kept as the bits
/// of a 32-bit float).
pub const OPACITY_ONE: u32 = 0x3F80_0000;

/// One entry of the layer stack, bottom first.
pub struct ImageLayer {
    pub id: u64,
    pub name: String,
    /// The bits of the layer's opacity as a 32-bit float.
    pub opacity_bits: u32,
    pub visible: bool,
    pub locked: bool,
    pub blend_mode: BlendMode,
    pub kind: LayerKind,
    /// For a text layer, the text it shows.
    pub linked_text_id: Option<u64>,
    /// For an image layer, the placed image it shows.
    pub linked_image_id: Option<u64>,
}

impl Clone for ImageLayer {
    fn clone(&self) -> (r: Self)
        ensures
            r == *self,
    {
        ImageLayer {
            id: self.id,
            name: self.name.clone(),
            opacity_bits: self.opacity_bits,
            visible: self.visible,
            locked: self.locked,
            blend_mode: self.blend_mode,
            kind: self.kind,
            linked_text_id: self.linked_text_id,
            linked_image_id: self.linked_image_id,
        }
    }
}

/// A block of text placed on the canvas. Its geometry is kept as the bits
/// of 32-bit floats.
pub struct TextLayer {
    pub id: u64,
    pub content: String,
    pub img_x_bits: u32,
    pub img_y_bits: u32,
    pub font_size_bits: u32,
    pub box_width_bits: Option<u32>,
    pub box_height_bits: Option<u32>,
    pub rotation_bits: u32,
    pub color: RgbaColor,
    pub bold: bool,
    pub italic: bool,
    pub underline: bool,
    pub font_name: String,
    pub rendered_height_bits: u32,
}

impl Clone for TextLayer {
    fn clone(&self) -> (r: Self)
        ensures
            r == *self,
    {
        TextLayer {
            id: self.id,
            content: self.content.clone(),
            img_x_bits: self.img_x_bits,
            img_y_bits: self.img_y_bits,
            font_size_bits: self.font_size_bits,
            box_width_bits: self.box_width_bits,
            box_height_bits: self.box_height_bits,
            rotation_bits: self.rotation_bits,
            color: self.color,
            bold: self.bold,
            italic: self.italic,
            underline: self.underline,
            font_name: self.font_name.clone(),
            rendered_height_bits: self.rendered_height_bits,
        }
    }
}

/// A placed image with its position, size and rotation on the canvas (as
/// bits of 32-bit floats) and whether it is mirrored.
pub struct ImageLayerData {
    pub id: u64,
    pub image: RgbaImage,
    pub canvas_x_bits: u32,
    pub canvas_y_bits: u32,
    pub display_w_bits: u32,
    pub display_h_bits: u32,
    pub rotation_bits: u32,
    pub flip_h: bool,
    pub flip_v: bool,
}

/// The content of a placed image.
pub struct PlacedView {
    pub id: u64,
    pub image: RasterView,
    pub canvas_x_bits: u32,
    pub canvas_y_bits: u32,
    pub display_w_bits: u32,
    pub display_h_bits: u32,
    pub rotation_bits: u32,
    pub flip_h: bool,
    pub flip_v: bool,
}

impl View for ImageLayerData {
    type V = PlacedView;

    open spec fn view(&self) -> PlacedView {
        PlacedView {
            id: self.id,
            image: self.image@,
            canvas_x_bits: self.canvas_x_bits,
            canvas_y_bits: self.canvas_y_bits,
            display_w_bits: self.display_w_bits,
            display_h_bits: self.display_h_bits,
            rotation_bits: self.rotation_bits,
            flip_h: self.flip_h,
            flip_v: self.flip_v,
        }
    }
}

impl Clone for ImageLayerData {
    fn clone(&self) -> (r: Self)
        ensures
            r@ == self@,
    {
        ImageLayerData {
            id: self.id,
            image: self.image.clone(),
            canvas_x_bits: self.canvas_x_bits,
            canvas_y_bits: self.canvas_y_bits,
            display_w_bits: self.display_w_bits,
            display_h_bits: self.display_h_bits,
            rotation_bits: self.rotation_bits,
            flip_h: self.flip_h,
            flip_v: self.flip_v,
        }
    }
}

/// Everything an undo step restores: the background, the layer stack with
/// the rasters, texts and placed images it refers to, the active layer and
/// the counters that name new layers.
pub struct LayerDocument {
    pub image: Option<RgbaImage>,
    pub layer_images: HashMap<u64, RgbaImage>,
    pub layers: Vec<ImageLayer>,
    pub text_layers: Vec<TextLayer>,
    pub active_layer_id: u64,
    pub next_layer_id: u64,
    pub next_text_id: u64,
    pub image_layer_data: HashMap<u64, ImageLayerData>,
    pub next_image_layer_id: u64,
}

/// The content of a document.
pub struct DocView {
    pub image: Option<RasterView>,
    pub layer_images: Map<u64, RasterView>,
    pub layers: Seq<ImageLayer>,
    pub text_layers: Seq<TextLayer>,
    pub active_layer_id: u64,
    pub next_layer_id: u64,
    pub next_text_id: u64,
    pub image_layer_data: Map<u64, PlacedView>,
    pub next_image_layer_id: u64,
}

/// The content of an optional raster.
pub open spec fn opt_raster(i: Option<RgbaImage>) -> Option<RasterView> {
    match i {
        Some(img) => Some(img@),
        None => None,
    }
}

impl View for LayerDocument {
    type V = DocView;

    open spec fn view(&self) -> DocView {
        DocView {
            image: opt_raster(self.image),
            layer_images: self.layer_images@.map_values(|i: RgbaImage| i@),
            layers: self.layers@,
            text_layers: self.text_layers@,
            active_layer_id: self.active_layer_id,
            next_layer_id: self.next_layer_id,
            next_text_id: self.next_text_id,
            image_layer_data: self.image_layer_data@.map_values(|d: ImageLayerData| d@),
            next_image_layer_id: self.next_image_layer_id,
        }
    }
}

/// The background layer a new document starts with.
pub open spec fn background_layer(l: ImageLayer) -> bool {
    &&& l.id == 0
    &&& l.name@ == "Background"@
    &&& l.opacity_bits == OPACITY_ONE
    &&& l.visible
    &&& !l.locked
    &&& l.blend_mode == BlendMode::Normal
    &&& l.kind == LayerKind::Background
    &&& l.linked_text_id is None
    &&& l.linked_image_id is None
}

pub fn new_background_layer() -> (l: ImageLayer)
    ensures
        background_layer(l),
{
    let name = String::from_str("Background");
    proof {
        reveal_strlit("Background");
    }
    ImageLayer {
        id: 0,
        name,
        opacity_bits: OPACITY_ONE,
        visible: true,
        locked: false,
        blend_mode: BlendMode::Normal,
        kind: LayerKind::Background,
        linked_text_id: None,
        linked_image_id: None,
    }
}

/// A copy of a list of layers.
pub fn copy_layers(v: &Vec<ImageLayer>) -> (r: Vec<ImageLayer>)
    ensures
        r@ == v@,
{
    let mut r: Vec<ImageLayer> = Vec::new();
    let mut i: usize = 0;
    while i < v.len()
        invariant
            i <= v.len(),
            r@ == v@.subrange(0, i as int),
        decreases v.len() - i,
    {
        r.push(v[i].clone());
        i = i + 1;
        assert(r@ =~= v@.subrange(0, i as int));
    }
    assert(v@.subrange(0, v.len() as int) =~= v@);
    r
}

/// A copy of a list of text layers.
pub fn copy_text_layers(v: &Vec<TextLayer>) -> (r: Vec<TextLayer>)
    ensures
        r@ == v@,
{
    let mut r: Vec<TextLayer> = Vec::new();
    let mut i: usize = 0;
    while i < v.len()
        invariant
            i <= v.len(),
            r@ == v@.subrange(0, i as int),
        decreases v.len() - i,
    {
        r.push(v[i].clone());
        i = i + 1;
        assert(r@ =~= v@.subrange(0, i as int));
    }
    assert(v@.subrange(0, v.len() as int) =~= v@);
    r
}

/// No two layers share an id, and every id lies below the counter that
/// names new layers.
pub open spec fn ids_fresh(d: DocView) -> bool {
    &&& forall|i: int, j: int| 0 <= i < d.layers.len() && 0 <= j < d.layers.len() && i != j
        ==> d.layers[i].id != d.layers[j].id
    &&& forall|i: int| 0 <= i < d.layers.len() ==> d.layers[i].id < d.next_layer_id
}

/// A document with no image and only the background layer.
pub open spec fn is_new_document(d: DocView) -> bool {
    &&& d.image is None
    &&& d.layer_images == Map::<u64, RasterView>::empty()
    &&& d.layers.len() == 1
    &&& background_layer(d.layers[0])
    &&& d.text_layers.len() == 0
    &&& d.image_layer_data == Map::<u64, PlacedView>::empty()
    &&& d.active_layer_id == 0
    &&& d.next_layer_id == 1
    &&& d.next_text_id == 0
    &&& d.next_image_layer_id == 0
}

impl LayerDocument {
    /// A document with no image and only the background layer.
    pub fn new() -> (d: LayerDocument)
        ensures
            is_new_document(d@),
            ids_fresh(d@),
    {
        let layers = vec![new_background_layer()];
        let layer_images: HashMap<u64, RgbaImage> = HashMap::new();
        let image_layer_data: HashMap<u64, ImageLayerData> = HashMap::new();
        let d = LayerDocument {
            image: None,
            layer_images,
            layers,
            text_layers: Vec::new(),
            active_layer_id: 0,
            next_layer_id: 1,
            next_text_id: 0,
            image_layer_data,
            next_image_layer_id: 0,
        };
        assert(d@.layer_images =~= Map::<u64, RasterView>::empty());
        assert(d@.image_layer_data =~= Map::<u64, PlacedView>::empty());
        d
    }

    /// A copy of the whole document, as an undo step keeps it.
    pub fn snapshot(&self) -> (r: LayerDocument)
        ensures
            r@ == self@,
    {
        let image = match &self.image {
            Some(i) => Some(i.clone()),
            None => None,
        };
        let r = LayerDocument {
            image,
            layer_images: self.layer_images.clone(),
            layers: copy_layers(&self.layers),
            text_layers: copy_text_layers(&self.text_layers),
            active_layer_id: self.active_layer_id,
            next_layer_id: self.next_layer_id,
            next_text_id: self.next_text_id,
            image_layer_data: self.image_layer_data.clone(),
            next_image_layer_id: self.next_image_layer_id,
        };
        assert(r@.layer_images =~= self@.layer_images);
        assert(r@.image_layer_data =~= self@.image_layer_data);
        r
    }
}

/// The first position at or after `k` of a layer with this id.
pub open spec fn pos_from(s: Seq<ImageLayer>, id: u64, k: int) -> Option<int>
    decreases s.len() - k,
{
    if k < 0 || k >= s.len() {
        None
    } else if s[k].id == id {
        Some(k)
    } else {
        pos_from(s, id, k + 1)
    }
}

/// The first position of a layer with this id.
pub open spec fn layer_pos(s: Seq<ImageLayer>, id: u64) -> Option<int> {
    pos_from(s, id, 0)
}

/// The last position before `k` of a layer with this id.
pub open spec fn rpos_before(s: Seq<ImageLayer>, id: u64, k: int) -> Option<int>
    decreases k,
{
    if k <= 0 || k > s.len() {
        None
    } else if s[k - 1].id == id {
        Some(k - 1)
    } else {
        rpos_before(s, id, k - 1)
    }
}

/// The last position of a layer with this id.
pub open spec fn layer_rpos(s: Seq<ImageLayer>, id: u64) -> Option<int> {
    rpos_before(s, id, s.len() as int)
}

/// A position found by `pos_from` holds that id and lies in range.
pub proof fn lemma_pos_from(s: Seq<ImageLayer>, id: u64, k: int)
    ensures
        pos_from(s, id, k) matches Some(i) ==> k <= i < s.len() && s[i].id == id,
    decreases s.len() - k,
{
    if k < 0 || k >= s.len() {
    } else if s[k].id == id {
    } else {
        lemma_pos_from(s, id, k + 1);
    }
}

/// A position found by `rpos_before` holds that id and lies in range.
pub proof fn lemma_rpos_before(s: Seq<ImageLayer>, id: u64, k: int)
    ensures
        rpos_before(s, id, k) matches Some(i) ==> 0 <= i < k && i < s.len() && s[i].id == id,
    decreases k,
{
    if k <= 0 || k > s.len() {
    } else if s[k - 1].id == id {
    } else {
        lemma_rpos_before(s, id, k - 1);
    }
}

/// The first position of a layer with this id.
pub fn find_layer(v: &Vec<ImageLayer>, id: u64) -> (r: Option<usize>)
    ensures
        opt_index(r) == layer_pos(v@, id),
        r matches Some(i) ==> i < v@.len() && v@[i as int].id == id,
{
    let mut i: usize = 0;
    while i < v.len()
        invariant
            i <= v.len(),
            layer_pos(v@, id) == pos_from(v@, id, i as int),
        decreases v.len() - i,
    {
        if v[i].id == id {
            return Some(i);
        }
        i = i + 1;
    }
    None
}

/// The last position of a layer with this id.
pub fn rfind_layer(v: &Vec<ImageLayer>, id: u64) -> (r: Option<usize>)
    ensures
        opt_index(r) == layer_rpos(v@, id),
        r matches Some(i) ==> i < v@.len() && v@[i as int].id == id,
{
    let mut i: usize = v.len();
    while i > 0
        invariant
            i <= v.len(),
            layer_rpos(v@, id) == rpos_before(v@, id, i as int),
        decreases i,
    {
        if v[i - 1].id == id {
            return Some(i - 1);
        }
        i = i - 1;
    }
    None
}

/// An optional index as an optional integer.
pub open spec fn opt_index(r: Option<usize>) -> Option<int> {
    match r {
        Some(i) => Some(i as int),
        None => None,
    }
}

/// The first position at or after `k` of a text layer with this id.
pub open spec fn text_pos_from(s: Seq<TextLayer>, id: u64, k: int) -> Option<int>
    decreases s.len() - k,
{
    if k < 0 || k >= s.len() {
        None
    } else if s[k].id == id {
        Some(k)
    } else {
        text_pos_from(s, id, k + 1)
    }
}

/// The first position of a text layer with this id.
pub open spec fn text_pos(s: Seq<TextLayer>, id: u64) -> Option<int> {
    text_pos_from(s, id, 0)
}

/// A position found by `text_pos_from` holds that id and lies in range.
pub proof fn lemma_text_pos_from(s: Seq<TextLayer>, id: u64, k: int)
    ensures
        text_pos_from(s, id, k) matches Some(i) ==> k <= i < s.len() && s[i].id == id,
    decreases s.len() - k,
{
    if k < 0 || k >= s.len() {
    } else if s[k].id == id {
    } else {
        lemma_text_pos_from(s, id, k + 1);
    }
}

/// The first position of a text layer with this id.
pub fn find_text(v: &Vec<TextLayer>, id: u64) -> (r: Option<usize>)
    ensures
        opt_index(r) == text_pos(v@, id),
        r matches Some(i) ==> i < v@.len() && v@[i as int].id == id,
{
    let mut i: usize = 0;
    while i < v.len()
        invariant
            i <= v.len(),
            text_pos(v@, id) == text_pos_from(v@, id, i as int),
        decreases v.len() - i,
    {
        if v[i].id == id {
            return Some(i);
        }
        i = i + 1;
    }
    None
}

/// The text layers without the one with this id.
pub open spec fn without_text(s: Seq<TextLayer>, id: u64) -> Seq<TextLayer> {
    s.filter(|t: TextLayer| t.id != id)
}

/// The layers without those that show the text with this id.
pub open spec fn without_text_links(s: Seq<ImageLayer>, id: u64) -> Seq<ImageLayer> {
    s.filter(|l: ImageLayer| l.linked_text_id != Some(id))
}

/// Drops every text layer with this id.
pub fn remove_text(v: &Vec<TextLayer>, id: u64) -> (r: Vec<TextLayer>)
    ensures
        r@ == without_text(v@, id),
{
    let mut r: Vec<TextLayer> = Vec::new();
    let mut i: usize = 0;
    while i < v.len()
        invariant
            i <= v.len(),
            r@ == without_text(v@.subrange(0, i as int), id),
        decreases v.len() - i,
    {
        proof {
            reveal(Seq::filter);
            assert(v@.subrange(0, i + 1).drop_last() =~= v@.subrange(0, i as int));
        }
        if v[i].id != id {
            r.push(v[i].clone());
        }
        i = i + 1;
    }
    assert(v@.subrange(0, v.len() as int) =~= v@);
    r
}

/// Drops every layer that shows the text with this id.
pub fn remove_text_links(v: &Vec<ImageLayer>, id: u64) -> (r: Vec<ImageLayer>)
    ensures
        r@ == without_text_links(v@, id),
{
    let mut r: Vec<ImageLayer> = Vec::new();
    let mut i: usize = 0;
    while i < v.len()
        invariant
            i <= v.len(),
            r@ == without_text_links(v@.subrange(0, i as int), id),
        decreases v.len() - i,
    {
        proof {
            reveal(Seq::filter);
            assert(v@.subrange(0, i + 1).drop_last() =~= v@.subrange(0, i as int));
        }
        if v[i].linked_text_id != Some(id) {
            r.push(v[i].clone());
        }
        i = i + 1;
    }
    assert(v@.subrange(0, v.len() as int) =~= v@);
    r
}

/// Whether some layer shows the text with this id.
pub open spec fn has_text_link(s: Seq<ImageLayer>, id: u64) -> bool {
    exists|i: int| 0 <= i < s.len() && s[i].linked_text_id == Some(id)
}

pub fn any_text_link(v: &Vec<ImageLayer>, id: u64) -> (r: bool)
    ensures
        r == has_text_link(v@, id),
{
    let mut i: usize = 0;
    while i < v.len()
        invariant
            i <= v.len(),
            forall|j: int| 0 <= j < i ==> v@[j].linked_text_id != Some(id),
        decreases v.len() - i,
    {
        if v[i].linked_text_id == Some(id) {
            return true;
        }
        i = i + 1;
    }
    false
}

/// How many line breaks `s` holds.
pub open spec fn newline_count(s: Seq<char>) -> nat
    decreases s.len(),
{
    if s.len() == 0 {
        0
    } else {
        newline_count(s.drop_last()) + if s.last() == '\n' { 1nat } else { 0nat }
    }
}

/// How many lines `str::lines` finds in `s`: one per line break, plus a
/// last line that does not end in one.
pub open spec fn line_total(s: Seq<char>) -> nat {
    newline_count(s) + if s.len() > 0 && s.last() != '\n' { 1nat } else { 0nat }
}

/// There are no more line breaks than characters.
pub proof fn lemma_newline_count_le(s: Seq<char>)
    ensures
        newline_count(s) <= s.len(),
    decreases s.len(),
{
    if s.len() > 0 {
        lemma_newline_count_le(s.drop_last());
    }
}

/// Scanning the first `n` characters: the length of the longest line
/// finished so far (a line ending in a carriage return before its line
/// break does not count that character) and the length of the line still
/// open.
pub open spec fn line_scan(s: Seq<char>, n: int) -> (nat, nat)
    decreases n,
{
    if n <= 0 || n > s.len() {
        (0, 0)
    } else {
        let (best, cur) = line_scan(s, n - 1);
        if s[n - 1] == '\n' {
            let len: nat = if cur > 0 && s[n - 2] == '\r' { (cur - 1) as nat } else { cur };
            (if len > best { len } else { best }, 0)
        } else {
            (best, cur + 1)
        }
    }
}

/// The character count of the longest line, at least one.
pub open spec fn spec_max_line_chars(s: Seq<char>) -> nat {
    let (best, cur) = line_scan(s, s.len() as int);
    let m = if cur > best { cur } else { best };
    if m >= 1 { m } else { 1 }
}

/// The scan's counts never exceed the characters scanned.
pub proof fn lemma_line_scan_le(s: Seq<char>, n: int)
    requires
        0 <= n <= s.len(),
    ensures
        line_scan(s, n).0 <= n,
        line_scan(s, n).1 <= n,
    decreases n,
{
    if n > 0 {
        lemma_line_scan_le(s, n - 1);
    }
}

/// The font face a text layer uses: Roboto when that is its font, Ubuntu
/// otherwise, in bold, italic or regular (bold wins).
pub open spec fn spec_font_family(font: Seq<char>, bold: bool, italic: bool) -> Seq<char> {
    if font == "Roboto"@ {
        if bold { "Roboto-Bold"@ } else if italic { "Roboto-Italic"@ } else { "Roboto"@ }
    } else {
        if bold { "Ubuntu-Bold"@ } else if italic { "Ubuntu-Italic"@ } else { "Ubuntu"@ }
    }
}

impl TextLayer {
    /// The character count of the longest line, at least one.
    pub fn max_line_chars(&self) -> (n: usize)
        ensures
            n == spec_max_line_chars(self.content@),
    {
        let st: &str = self.content.as_str();
        let nbytes = st.as_bytes().len();
        proof {
            crate::text_edit::lemma_utf8_len_ge(st@);
        }
        let mut best: usize = 0;
        let mut cur: usize = 0;
        let mut prev: Option<char> = None;
        for c in it: st.chars()
            invariant
                st@ == self.content@,
                st@.len() <= nbytes,
                it.seq() == st@,
                (best as nat, cur as nat) == line_scan(st@, it.index() as int),
                best <= it.index(),
                cur <= it.index(),
                prev == (if it.index() > 0 { Some(st@[it.index() - 1]) } else { None::<char> }),
        {
            proof {
                lemma_line_scan_le(st@, it.index() as int);
            }
            if c == '\n' {
                let len = if cur > 0 && prev == Some('\r') { cur - 1 } else { cur };
                if len > best {
                    best = len;
                }
                cur = 0;
            } else {
                cur = cur + 1;
            }
            prev = Some(c);
        }
        let m = if cur > best { cur } else { best };
        if m >= 1 { m } else { 1 }
    }

    /// The font face the layer is drawn with.
    pub fn font_family_name(&self) -> (r: &'static str)
        ensures
            r@ == spec_font_family(self.font_name@, self.bold, self.italic),
    {
        let roboto = String::from_str("Roboto");
        proof {
            reveal_strlit("Roboto");
        }
        if self.font_name == roboto {
            if self.bold { "Roboto-Bold" } else if self.italic { "Roboto-Italic" } else { "Roboto" }
        } else {
            if self.bold { "Ubuntu-Bold" } else if self.italic { "Ubuntu-Italic" } else { "Ubuntu" }
        }
    }

    /// The number of lines, at least one.
    pub fn line_count(&self) -> (n: usize)
        ensures
            n == if line_total(self.content@) >= 1 { line_total(self.content@) } else { 1 },
    {
        let st: &str = self.content.as_str();
        let nbytes = st.as_bytes().len();
        proof {
            crate::text_edit::lemma_utf8_len_ge(st@);
        }
        let mut count: usize = 0;
        let mut last: Option<char> = None;
        for c in it: st.chars()
            invariant
                st@ == self.content@,
                st@.len() <= nbytes,
                it.seq() == st@,
                count == newline_count(st@.subrange(0, it.index() as int)),
                count <= it.index(),
                last == (if it.index() > 0 { Some(st@[it.index() - 1]) } else { None::<char> }),
        {
            assert(st@.subrange(0, it.index() + 1).drop_last() =~= st@.subrange(0, it.index() as int));
            if c == '\n' {
                count = count + 1;
            }
            last = Some(c);
        }
        assert(st@.subrange(0, st@.len() as int) =~= st@);
        proof {
            if st@.len() > 0 {
                lemma_newline_count_le(st@.drop_last());
            }
        }
        let total = match last {
            Some(c) => if c != '\n' { count + 1 } else { count },
            None => count,
        };
        if total >= 1 { total } else { 1 }
    }
}

} // verus!
