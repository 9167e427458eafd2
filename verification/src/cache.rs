use vstd::prelude::*;
use vstd::string::StringExecFns;
use std::collections::HashMap;
use std::path::PathBuf;
use crate::layers::{DocView, ImageLayer, TextLayer, ImageLayerData};
use crate::editor::ImageEditor;
use crate::raster::RgbaImage;
use crate::text::{dec_digits, push_decimal_u64};

verus! {

#[verifier::external_type_specification]
#[verifier::external_body]
pub struct ExPathBuf(PathBuf);

/// A saved layer cache found on disk: the document it belongs to, its
/// directory and its size in kibibytes.
pub struct CacheEntry {
    pub src_path: String,
    pub cache_dir: PathBuf,
    pub size_kb: u64,
}

/// The lower-case hexadecimal digit `d`.
pub open spec fn hex_lower_char(d: int) -> char {
    if d < 10 { (48 + d) as char } else { (87 + d) as char }
}

/// `n` as sixteen lower-case hexadecimal digits, most significant first.
pub open spec fn hex16(n: u64) -> Seq<char> {
    Seq::new(16, |i: int| hex_lower_char(((n as int) / pow16(15 - i)) % 16))
}

/// Sixteen to the power `k`.
pub open spec fn pow16(k: int) -> int
    decreases k,
{
    if k <= 0 { 1 } else { 16 * pow16(k - 1) }
}

/// Powers of sixteen are positive.
pub proof fn lemma_pow16_pos(k: int)
    ensures
        pow16(k) >= 1,
    decreases k,
{
    if k > 0 {
        lemma_pow16_pos(k - 1);
    }
}

/// The name of the cache directory of a document whose absolute path hashes
/// to `hash`.
pub fn cache_dir_name(hash: u64) -> (r: String)
    ensures
        r@ == hex16(hash),
{
    let mut r = String::new();
    let mut k: u32 = 16;
    let mut div: u64 = 0x1000_0000_0000_0000;
    proof {
        reveal_with_fuel(pow16, 16);
    }
    while k > 0
        invariant
            0 <= k <= 16,
            r@.len() == 16 - k,
            k > 0 ==> div as int == pow16(k - 1),
            forall|i: int| 0 <= i < 16 - k ==> r@[i] == #[trigger] hex16(hash)[i],
        decreases k,
    {
        proof {
            lemma_pow16_pos(k - 1);
        }
        let d = ((hash / div) % 16) as u8;
        let lit = match d {
            0 => "0", 1 => "1", 2 => "2", 3 => "3", 4 => "4", 5 => "5", 6 => "6", 7 => "7",
            8 => "8", 9 => "9", 10 => "a", 11 => "b", 12 => "c", 13 => "d", 14 => "e", _ => "f",
        };
        proof {
            reveal_strlit("0"); reveal_strlit("1"); reveal_strlit("2"); reveal_strlit("3");
            reveal_strlit("4"); reveal_strlit("5"); reveal_strlit("6"); reveal_strlit("7");
            reveal_strlit("8"); reveal_strlit("9"); reveal_strlit("a"); reveal_strlit("b");
            reveal_strlit("c"); reveal_strlit("d"); reveal_strlit("e"); reveal_strlit("f");
            assert(lit@ =~= seq![hex_lower_char(d as int)]);
            assert(hex16(hash)[16 - k as int] == hex_lower_char(((hash as int) / pow16(k - 1)) % 16));
        }
        let ghost before = r@;
        r.append(lit);
        assert(r@ =~= before.push(hex_lower_char(d as int)));
        k = k - 1;
        if k > 0 {
            div = div / 16;
        }
    }
    assert(r@ =~= hex16(hash));
    r
}

/// A cache saved when the document was last modified at `stored_ms` is
/// still valid at `current_ms`: it records no time, or the times agree.
pub open spec fn spec_cache_is_fresh(stored_ms: u64, current_ms: u64) -> bool {
    stored_ms == 0 || current_ms == stored_ms
}

pub fn cache_is_fresh(stored_ms: u64, current_ms: u64) -> (r: bool)
    ensures
        r == spec_cache_is_fresh(stored_ms, current_ms),
{
    stored_ms == 0 || current_ms == stored_ms
}

/// The file a raster layer's pixels are cached in.
pub fn raster_file_name(id: u64) -> (r: String)
    ensures
        r@ == "r"@ + dec_digits(id as nat) + ".png"@,
{
    let mut r = String::from_str("r");
    push_decimal_u64(&mut r, id);
    r.append(".png");
    proof {
        reveal_strlit("r");
    }
    r
}

/// The file a placed image's pixels are cached in.
pub fn placed_file_name(id: u64) -> (r: String)
    ensures
        r@ == "i"@ + dec_digits(id as nat) + ".png"@,
{
    let mut r = String::from_str("i");
    push_decimal_u64(&mut r, id);
    r.append(".png");
    proof {
        reveal_strlit("i");
    }
    r
}

/// The sum of the first `n` sizes.
pub open spec fn size_sum(s: Seq<u64>, n: int) -> int
    decreases n,
{
    if n <= 0 || n > s.len() { 0 } else { size_sum(s, n - 1) + s[n - 1] }
}

/// The total size of a cache directory's files, in whole kibibytes.
pub fn cache_size_kb(sizes: &Vec<u64>) -> (kb: u64)
    requires
        size_sum(sizes@, sizes@.len() as int) <= u64::MAX,
    ensures
        kb == size_sum(sizes@, sizes@.len() as int) / 1024,
{
    let mut total: u64 = 0;
    let mut i: usize = 0;
    while i < sizes.len()
        invariant
            i <= sizes@.len(),
            total == size_sum(sizes@, i as int),
            size_sum(sizes@, sizes@.len() as int) <= u64::MAX,
        decreases sizes@.len() - i,
    {
        proof {
            lemma_size_sum_mono(sizes@, i + 1, sizes@.len() as int);
        }
        total = total + sizes[i];
        i = i + 1;
    }
    total / 1024
}

/// Partial sums only grow.
pub proof fn lemma_size_sum_mono(s: Seq<u64>, i: int, j: int)
    requires
        0 <= i <= j <= s.len(),
    ensures
        size_sum(s, i) <= size_sum(s, j),
    decreases j - i,
{
    if i < j {
        lemma_size_sum_mono(s, i, j - 1);
    }
}

/// A document read back from a layer cache.
pub struct LoadedCache {
    pub background: Option<RgbaImage>,
    pub layers: Vec<ImageLayer>,
    pub layer_images: HashMap<u64, RgbaImage>,
    pub text_layers: Vec<TextLayer>,
    pub image_layer_data: HashMap<u64, ImageLayerData>,
    pub active_layer_id: u64,
    pub next_layer_id: u64,
    pub next_text_id: u64,
    pub next_image_layer_id: u64,
}

/// Puts a cached document in place; the background stays when the cache
/// holds none.
pub fn apply_cache(editor: &mut ImageEditor, c: LoadedCache)
    ensures
        final(editor).doc@ == (DocView {
            image: match c.background {
                Some(bg) => Some(bg@),
                None => old(editor).doc@.image,
            },
            layer_images: c.layer_images@.map_values(|i: RgbaImage| i@),
            layers: c.layers@,
            text_layers: c.text_layers@,
            active_layer_id: c.active_layer_id,
            next_layer_id: c.next_layer_id,
            next_text_id: c.next_text_id,
            image_layer_data: c.image_layer_data@.map_values(|d: ImageLayerData| d@),
            next_image_layer_id: c.next_image_layer_id,
        }),
        *final(editor) == (ImageEditor { doc: final(editor).doc, composite_dirty: true, texture_dirty: true, ..*old(editor) }),
{
    let LoadedCache {
        background,
        layers,
        layer_images,
        text_layers,
        image_layer_data,
        active_layer_id,
        next_layer_id,
        next_text_id,
        next_image_layer_id,
    } = c;
    match background {
        Some(bg) => {
            editor.doc.image = Some(bg);
        },
        None => {},
    }
    editor.doc.layers = layers;
    editor.doc.layer_images = layer_images;
    editor.doc.text_layers = text_layers;
    editor.doc.image_layer_data = image_layer_data;
    editor.doc.active_layer_id = active_layer_id;
    editor.doc.next_layer_id = next_layer_id;
    editor.doc.next_text_id = next_text_id;
    editor.doc.next_image_layer_id = next_image_layer_id;
    editor.composite_dirty = true;
    editor.texture_dirty = true;
}

} // verus!
