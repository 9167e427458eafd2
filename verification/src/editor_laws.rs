use vstd::prelude::*;
use vstd::utf8::{valid_utf8, decode_utf8, decode_utf8_encode_utf8, valid_utf8_split, encode_utf8_valid_utf8,
    encode_utf8_first_scalar, encode_scalar, is_continuation_byte, is_char_boundary_iff_not_is_continuation_byte};
use crate::layers::{DocView, ImageLayer, layer_pos, pos_from};
use crate::layer_ops::{can_move_up, can_move_down, spec_move_up, spec_move_down, with_layers, swap_layers};
use crate::history::{HistoryView, spec_record, spec_undo, spec_redo};
use crate::text_edit::{TextEvent, spec_text_step, utf8, splice, valid_edit_state, valid_pos, min_int, max_int,
    prev_boundary, next_boundary, lemma_prev_boundary, lemma_next_boundary, lemma_utf8_concat};
use crate::raster::{RasterView, col_of, row_of, chan_of, lemma_index_split, lemma_offset_split, spec_crop};
use crate::blur::{spec_box_blur, seq_sum, row_line, col_line, blur_h};
use crate::fill::{spec_flood_fill, pixel_of, fill_similar, fill_distance, is_fill_path, in_fill_region};
use crate::gray::{spec_grayscale, luma};

verus! {

/// Undo right after an edit that recorded the document gives back the
/// document from before the edit, and redo then gives back the edited one.
pub proof fn law_undo_after_edit(h: HistoryView<DocView>, before: DocView, after: DocView)
    ensures
        spec_undo(spec_record(h, before), after).1 == Some(before),
        spec_redo(spec_undo(spec_record(h, before), after).0, before).1 == Some(after),
{
    let (h2, _) = spec_undo(spec_record(h, before), after);
    assert(h2.redo == seq![after]);
}

/// Cutting a selection and pasting what was cut gives back the text, with
/// the cursor after the pasted part and no selection.
pub proof fn law_cut_then_paste(b: Seq<u8>, c: int, x: int, t: String)
    requires
        valid_utf8(b),
        valid_edit_state(b, c, Some(x)),
        min_int(x, c) < max_int(x, c),
        utf8(t@) == b.subrange(min_int(x, c), max_int(x, c)),
    ensures
        spec_text_step(b, c, Some(x), TextEvent::Cut).copied == Some(utf8(t@)),
        ({
            let cut = spec_text_step(b, c, Some(x), TextEvent::Cut);
            let pasted = spec_text_step(cut.text, cut.cursor, cut.anchor, TextEvent::Paste(t));
            &&& pasted.text == b
            &&& pasted.cursor == max_int(x, c)
            &&& pasted.anchor is None
        }),
{
    let (lo, hi) = (min_int(x, c), max_int(x, c));
    let cut = spec_text_step(b, c, Some(x), TextEvent::Cut);
    assert(cut.text == splice(b, lo, hi, Seq::empty()));
    let pasted = spec_text_step(cut.text, cut.cursor, cut.anchor, TextEvent::Paste(t));
    assert(pasted.text == splice(cut.text, lo, lo, utf8(t@)));
    assert(splice(cut.text, lo, lo, utf8(t@)) =~= b);
}

/// Selecting everything and typing leaves exactly the typed text, with the
/// cursor at its end.
pub proof fn law_select_all_then_type(b: Seq<u8>, c: int, a: Option<int>, t: String)
    requires
        valid_edit_state(b, c, a),
    ensures
        ({
            let all = spec_text_step(b, c, a, TextEvent::SelectAll);
            let typed = spec_text_step(all.text, all.cursor, all.anchor, TextEvent::Text(t));
            &&& typed.text == utf8(t@)
            &&& typed.cursor == utf8(t@).len()
            &&& typed.anchor is None
        }),
{
    let all = spec_text_step(b, c, a, TextEvent::SelectAll);
    assert(all.anchor == Some(0int) && all.cursor == b.len());
    assert(splice(b, 0, b.len() as int, utf8(t@)) =~= utf8(t@));
}

/// No two layers share an id.
pub open spec fn distinct_ids(s: Seq<ImageLayer>) -> bool {
    forall|i: int, j: int| 0 <= i < s.len() && 0 <= j < s.len() && i != j ==> s[i].id != s[j].id
}

/// In a stack without repeated ids, the layer found for an id is the one
/// that has it.
pub proof fn lemma_pos_of_distinct(s: Seq<ImageLayer>, i: int, k: int)
    requires
        distinct_ids(s),
        0 <= k <= i < s.len(),
    ensures
        pos_from(s, s[i].id, k) == Some(i),
    decreases i - k,
{
    if k < i {
        assert(s[k].id != s[i].id);
        lemma_pos_of_distinct(s, i, k + 1);
    }
}

/// Moving the active layer up and then down again gives back the stack,
/// unless it started in the lowest slot, into which nothing moves down.
pub proof fn law_move_up_then_down(d: DocView)
    requires
        distinct_ids(d.layers),
        can_move_up(d),
        layer_pos(d.layers, d.active_layer_id)->Some_0 >= 1,
    ensures
        can_move_down(with_layers(d, spec_move_up(d))),
        spec_move_down(with_layers(d, spec_move_up(d))) == d.layers,
{
    let i = layer_pos(d.layers, d.active_layer_id)->Some_0;
    crate::layers::lemma_pos_from(d.layers, d.active_layer_id, 0);
    let up = swap_layers(d.layers, i, i + 1);
    let d2 = with_layers(d, up);
    assert(distinct_ids(up)) by {
        assert forall|p: int, q: int| 0 <= p < up.len() && 0 <= q < up.len() && p != q implies up[p].id != up[q].id by {
            let pp = if p == i { i + 1 } else if p == i + 1 { i } else { p };
            let qq = if q == i { i + 1 } else if q == i + 1 { i } else { q };
            assert(up[p] == d.layers[pp]);
            assert(up[q] == d.layers[qq]);
        }
    }
    assert(up[i + 1].id == d.active_layer_id);
    lemma_pos_of_distinct(up, i + 1, 0);
    assert(layer_pos(up, d.active_layer_id) == Some(i + 1));
    assert(swap_layers(up, i + 1, i) =~= d.layers);
}

/// Turning an image grey twice is the same as turning it grey once.
pub proof fn law_grayscale_idempotent(v: RasterView)
    requires
        v.wf(),
    ensures
        spec_grayscale(spec_grayscale(v)) == spec_grayscale(v),
{
    let w = v.width as int;
    let h = v.height as int;
    let once = spec_grayscale(v);
    let twice = spec_grayscale(once);
    assert forall|j: int| 0 <= j < v.len() implies #[trigger] twice.data[j] == once.data[j] by {
        lemma_index_split(w, h, j);
        let (x, y) = (col_of(w, j), row_of(w, j));
        if chan_of(j) != 3 {
            lemma_offset_split(w, h, x, y, 0);
            lemma_offset_split(w, h, x, y, 1);
            lemma_offset_split(w, h, x, y, 2);
            let g = luma(v.px(x, y, 0), v.px(x, y, 1), v.px(x, y, 2));
            assert(0 <= g <= 255) by {
                assert(2126 * v.px(x, y, 0) + 7152 * v.px(x, y, 1) + 722 * v.px(x, y, 2) <= 2550000);
            }
            let gb = g as u8;
            assert(luma(gb, gb, gb) == gb as int);
        }
    }
    assert(twice.data =~= once.data);
}

/// Cropping to the whole raster gives back the raster.
pub proof fn law_crop_whole_is_identity(v: RasterView)
    requires
        v.wf(),
    ensures
        spec_crop(v, 0, 0, v.width, v.height) == v,
{
    let w = v.width as int;
    let h = v.height as int;
    let c = spec_crop(v, 0, 0, v.width, v.height);
    assert forall|j: int| 0 <= j < v.len() implies #[trigger] c.data[j] == v.data[j] by {
        lemma_index_split(w, h, j);
    }
    assert(c.data =~= v.data);
}

/// A blur of radius zero leaves every byte as it was.
pub proof fn law_blur_radius_zero(src: Seq<u8>, w: int, h: int)
    requires
        0 <= w,
        0 <= h,
        src.len() == w * h * 4,
    ensures
        spec_box_blur(src, w, h, 0) == src,
{
    let out = spec_box_blur(src, w, h, 0);
    assert forall|j: int| 0 <= j < src.len() implies #[trigger] out[j] == src[j] by {
        lemma_index_split(w, h, j);
        let (x, y, c) = (col_of(w, j), row_of(w, j), chan_of(j));
        let row = row_line(src, w, y, c);
        assert(seq_sum(row, x, x + 1) == row[x]) by {
            assert(seq_sum(row, x, x) == 0);
        }
        let col = col_line(src, w, h, 0, x, c);
        assert(seq_sum(col, y, y + 1) == col[y]) by {
            assert(seq_sum(col, y, y) == 0);
        }
        assert(crate::blur::win_lo(x, 0) == x);
        assert(crate::blur::win_hi(w, x, 0) == x + 1);
        assert(row[x] == src[j] as int);
        assert(row.len() == w);
        assert(seq_sum(row, x, x + 1) / 1 == row[x]);
        assert(crate::blur::win_avg(row, 0, x) == row[x]);
        assert(blur_h(src, w, 0, x, y, c) == src[j]);
    }
    assert(out =~= src);
}

/// Filling again from the same pixel with the same colour changes nothing:
/// the start pixel already has that colour.
pub proof fn law_flood_fill_twice(v: RasterView, sx: int, sy: int, fill: Seq<u8>)
    requires
        v.wf(),
        0 <= sx < v.width,
        0 <= sy < v.height,
        fill.len() == 4,
    ensures
        spec_flood_fill(spec_flood_fill(v, sx, sy, fill), sx, sy, fill) == spec_flood_fill(v, sx, sy, fill),
{
    let once = spec_flood_fill(v, sx, sy, fill);
    let w = v.width as int;
    let h = v.height as int;
    let t = pixel_of(v, sx, sy);
    if t != fill {
        let path = seq![(sx, sy)];
        assert(fill_similar(v, t, sx, sy));
        assert(is_fill_path(v, t, path));
        assert(in_fill_region(v, t, (sx, sy), (sx, sy)));
        assert forall|c: int| 0 <= c < 4 implies #[trigger] once.px(sx, sy, c) == fill[c] by {
            lemma_offset_split(w, h, sx, sy, c);
        }
        assert(pixel_of(once, sx, sy) =~= fill);
    }
}

/// Between a boundary `c` and the end of the character that starts there,
/// the nearest boundary below is `c`.
proof fn lemma_back_to_char_start(bb: Seq<u8>, c: int, k: int, m: int)
    requires
        valid_utf8(bb),
        0 <= c,
        c + k <= bb.len(),
        1 <= k,
        c < m <= c + k,
        !is_continuation_byte(bb[c]),
        forall|i: int| 1 <= i < k ==> is_continuation_byte(#[trigger] bb[c + i]),
    ensures
        prev_boundary(bb, m) == c,
    decreases m - c,
{
    if m - 1 == c {
        is_char_boundary_iff_not_is_continuation_byte(bb, c);
    } else {
        assert(is_continuation_byte(bb[c + (m - 1 - c)]));
        is_char_boundary_iff_not_is_continuation_byte(bb, m - 1);
        lemma_back_to_char_start(bb, c, k, m - 1);
    }
}

/// Typing one character and pressing Backspace gives back the text and
/// the cursor.
pub proof fn law_type_then_backspace(b: Seq<u8>, c: int, t: String)
    requires
        valid_utf8(b),
        valid_pos(b, c),
        t@.len() == 1,
    ensures
        ({
            let typed = spec_text_step(b, c, None, TextEvent::Text(t));
            let back = spec_text_step(typed.text, typed.cursor, typed.anchor, TextEvent::Backspace);
            &&& back.text == b
            &&& back.cursor == c
            &&& back.anchor is None
        }),
{
    let head = b.subrange(0, c);
    let tail = b.subrange(c, b.len() as int);
    valid_utf8_split(b, c);
    let l = decode_utf8(head);
    let r = decode_utf8(tail);
    decode_utf8_encode_utf8(head);
    decode_utf8_encode_utf8(tail);
    let tt = utf8(t@);
    let x = t@ + r;
    lemma_utf8_concat(t@, r);
    lemma_utf8_concat(l, x);
    encode_utf8_valid_utf8(l + x);
    assert(x[0] == t@[0]);
    encode_utf8_first_scalar(x);
    assert(t@.drop_first() =~= Seq::<char>::empty());
    assert(tt =~= encode_scalar(t@[0] as u32) + utf8(t@.drop_first()));
    let k = tt.len() as int;
    let bb = splice(b, c, c, tt);
    assert(bb =~= utf8(l + x));
    let ex = utf8(x);
    assert(ex == tt + tail);
    assert(k >= 1) by {
        assert(encode_scalar(t@[0] as u32).len() >= 1);
    }
    assert forall|i: int| 1 <= i < k implies is_continuation_byte(#[trigger] bb[c + i]) by {
        assert(bb[c + i] == ex[i]);
    }
    assert(bb[c] == ex[0]);
    lemma_back_to_char_start(bb, c, k, c + k);
    assert(splice(bb, c, c + k, Seq::empty()) =~= b);
}

/// The absolute difference of two channel values.
pub open spec fn abs_diff(a: u8, b: u8) -> int {
    if a >= b { a - b } else { b - a }
}

/// The four absolute channel differences between pixel `(x, y)` and pixel
/// `(sx, sy)`, added up.
pub open spec fn summed_channel_difference(v: RasterView, x: int, y: int, sx: int, sy: int) -> int {
    abs_diff(v.px(x, y, 0), v.px(sx, sy, 0)) + abs_diff(v.px(x, y, 1), v.px(sx, sy, 1))
        + abs_diff(v.px(x, y, 2), v.px(sx, sy, 2)) + abs_diff(v.px(x, y, 3), v.px(sx, sy, 3))
}

/// A pixel whose four channel differences from the start pixel add up to
/// more than 30 is never filled, whatever lies between them: the fill
/// tolerance bounds the sum of the differences, not the largest one.
pub proof fn law_fill_keeps_pixels_beyond_tolerance(v: RasterView, sx: int, sy: int, fill: Seq<u8>, x: int, y: int)
    requires
        v.wf(),
        0 <= sx < v.width,
        0 <= sy < v.height,
        0 <= x < v.width,
        0 <= y < v.height,
        fill.len() == 4,
        summed_channel_difference(v, x, y, sx, sy) > 30,
    ensures
        forall|c: int| 0 <= c < 4 ==> #[trigger] spec_flood_fill(v, sx, sy, fill).px(x, y, c) == v.px(x, y, c),
{
    let t = pixel_of(v, sx, sy);
    let w = v.width as int;
    let h = v.height as int;
    if t != fill {
        assert(fill_distance(v, x, y, t) == summed_channel_difference(v, x, y, sx, sy));
        if in_fill_region(v, t, (sx, sy), (x, y)) {
            let path = choose|path: Seq<(int, int)>| #[trigger] is_fill_path(v, t, path) && path[0] == (sx, sy)
                && path.last() == (x, y);
            assert(fill_similar(v, t, path[path.len() - 1].0, path[path.len() - 1].1));
            assert(false);
        }
        assert forall|c: int| 0 <= c < 4 implies #[trigger] spec_flood_fill(v, sx, sy, fill).px(x, y, c) == v.px(x, y, c) by {
            lemma_offset_split(w, h, x, y, c);
        }
    }
}

/// A pixel next to the start pixel whose four channel differences from it
/// add up to at most 30 takes the fill colour (when the start pixel does
/// not already have it).
pub proof fn law_fill_takes_close_neighbours(v: RasterView, sx: int, sy: int, fill: Seq<u8>, x: int, y: int)
    requires
        v.wf(),
        0 <= sx < v.width,
        0 <= sy < v.height,
        0 <= x < v.width,
        0 <= y < v.height,
        fill.len() == 4,
        (x == sx && (y == sy + 1 || sy == y + 1)) || (y == sy && (x == sx + 1 || sx == x + 1)),
        summed_channel_difference(v, x, y, sx, sy) <= 30,
        pixel_of(v, sx, sy) != fill,
    ensures
        forall|c: int| 0 <= c < 4 ==> #[trigger] spec_flood_fill(v, sx, sy, fill).px(x, y, c) == fill[c],
{
    let t = pixel_of(v, sx, sy);
    let w = v.width as int;
    let h = v.height as int;
    assert(fill_distance(v, x, y, t) == summed_channel_difference(v, x, y, sx, sy));
    assert(fill_distance(v, sx, sy, t) == 0);
    let path = seq![(sx, sy), (x, y)];
    assert(fill_similar(v, t, path[0].0, path[0].1));
    assert(fill_similar(v, t, path[1].0, path[1].1));
    assert(is_fill_path(v, t, path));
    assert(in_fill_region(v, t, (sx, sy), (x, y)));
    assert forall|c: int| 0 <= c < 4 implies #[trigger] spec_flood_fill(v, sx, sy, fill).px(x, y, c) == fill[c] by {
        lemma_offset_split(w, h, x, y, c);
    }
}

/// Shift+Left with no selection open starts one at the old cursor and moves
/// the cursor back one character, so that copying then copies exactly the
/// character before the old cursor.
pub proof fn law_shift_left_then_copy(b: Seq<u8>, c: int)
    requires
        valid_utf8(b),
        valid_edit_state(b, c, None),
        c > 0,
    ensures
        ({
            let sel = spec_text_step(b, c, None, TextEvent::ArrowLeft { shift: true });
            let copy = spec_text_step(sel.text, sel.cursor, sel.anchor, TextEvent::Copy);
            &&& sel.text == b
            &&& sel.anchor == Some(c)
            &&& sel.cursor == prev_boundary(b, c)
            &&& copy.copied == Some(b.subrange(prev_boundary(b, c), c))
        }),
{
    lemma_prev_boundary(b, c);
}

/// Shift+Right with no selection open starts one at the old cursor and
/// moves the cursor on one character, so that copying then copies exactly
/// the character after the old cursor.
pub proof fn law_shift_right_then_copy(b: Seq<u8>, c: int)
    requires
        valid_utf8(b),
        valid_edit_state(b, c, None),
        c < b.len(),
    ensures
        ({
            let sel = spec_text_step(b, c, None, TextEvent::ArrowRight { shift: true });
            let copy = spec_text_step(sel.text, sel.cursor, sel.anchor, TextEvent::Copy);
            &&& sel.text == b
            &&& sel.anchor == Some(c)
            &&& sel.cursor == next_boundary(b, c)
            &&& copy.copied == Some(b.subrange(c, next_boundary(b, c)))
        }),
{
    lemma_next_boundary(b, c);
}

/// With a selection open, Shift+Left and Shift+Right keep its anchor and
/// move only the cursor; plain Left and Right close it at its start or end
/// without moving past it.
pub proof fn law_arrows_with_selection(b: Seq<u8>, c: int, x: int)
    requires
        valid_utf8(b),
        valid_edit_state(b, c, Some(x)),
    ensures
        spec_text_step(b, c, Some(x), TextEvent::ArrowLeft { shift: true }).anchor == Some(x),
        spec_text_step(b, c, Some(x), TextEvent::ArrowRight { shift: true }).anchor == Some(x),
        spec_text_step(b, c, Some(x), TextEvent::ArrowLeft { shift: false }).anchor is None,
        spec_text_step(b, c, Some(x), TextEvent::ArrowLeft { shift: false }).cursor == (if c <= x { c } else { x }),
        spec_text_step(b, c, Some(x), TextEvent::ArrowRight { shift: false }).anchor is None,
        spec_text_step(b, c, Some(x), TextEvent::ArrowRight { shift: false }).cursor == (if c >= x { c } else { x }),
        c > 0 ==> spec_text_step(b, c, Some(x), TextEvent::ArrowLeft { shift: true }).cursor == prev_boundary(b, c),
        c < b.len() ==> spec_text_step(b, c, Some(x), TextEvent::ArrowRight { shift: true }).cursor == next_boundary(b, c),
{
}

} // verus!
