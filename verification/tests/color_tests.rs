use std::collections::VecDeque;
use image_editor_core::color::RgbaColor;
use image_editor_core::palette::{ColorHistory, ColorFavorites, MAX_COLOR_HISTORY, MAX_COLOR_FAVORITES};
use image_editor_core::history::{UndoHistory, MAX_UNDO};

fn c(r: u8, g: u8, b: u8, a: u8) -> RgbaColor {
    RgbaColor { r, g, b, a }
}

#[test]
fn to_hex_of_opaque_colour_has_six_digits() {
    assert_eq!(c(255, 0, 16, 255).to_hex(), "#FF0010");
}

#[test]
fn to_hex_of_translucent_colour_has_eight_digits() {
    assert_eq!(c(0, 171, 205, 128).to_hex(), "#00ABCD80");
}

#[test]
fn from_hex_reads_both_lengths_and_cases() {
    assert_eq!(RgbaColor::from_hex("#ff0010"), Some(c(255, 0, 16, 255)));
    assert_eq!(RgbaColor::from_hex("00ABcd80"), Some(c(0, 171, 205, 128)));
    assert_eq!(RgbaColor::from_hex("##123456"), Some(c(0x12, 0x34, 0x56, 255)));
}

#[test]
fn from_hex_rejects_bad_input() {
    assert_eq!(RgbaColor::from_hex("#12345"), None);
    assert_eq!(RgbaColor::from_hex("#1234567"), None);
    assert_eq!(RgbaColor::from_hex("#12345g"), None);
    assert_eq!(RgbaColor::from_hex(""), None);
}

#[test]
fn from_hex_accepts_a_plus_sign_as_from_str_radix_does() {
    assert_eq!(RgbaColor::from_hex("+f0000"), Some(c(15, 0, 0, 255)));
}

#[test]
fn hex_round_trip_over_many_colours() {
    for v in [0u8, 1, 9, 10, 15, 16, 127, 128, 200, 254, 255] {
        for a in [0u8, 1, 128, 254, 255] {
            let col = c(v, 255 - v, v / 2, a);
            assert_eq!(RgbaColor::from_hex(&col.to_hex()), Some(col));
        }
    }
}

#[test]
fn rgb_string_of_opaque_colour() {
    assert_eq!(c(1, 22, 255, 255).to_rgb_string(), "rgb(1, 22, 255)");
}

#[test]
fn rgb_string_alpha_matches_two_decimal_float_formatting() {
    for a in 0u8..255 {
        let expected = format!("rgba(3, 4, 5, {:.2})", a as f32 / 255.0);
        assert_eq!(c(3, 4, 5, a).to_rgb_string(), expected, "alpha {}", a);
    }
}

#[test]
fn history_puts_latest_first_without_repeats() {
    let mut h = ColorHistory::new();
    h.add_color(c(1, 0, 0, 255));
    h.add_color(c(2, 0, 0, 255));
    h.add_color(c(1, 0, 0, 255));
    let v: Vec<RgbaColor> = h.get_colors().iter().copied().collect();
    assert_eq!(v, vec![c(1, 0, 0, 255), c(2, 0, 0, 255)]);
}

#[test]
fn history_keeps_at_most_twenty() {
    assert_eq!(MAX_COLOR_HISTORY, 20);
    let mut h = ColorHistory::new();
    for i in 0..25u8 {
        h.add_color(c(i, 0, 0, 255));
    }
    let v: &VecDeque<RgbaColor> = h.get_colors();
    assert_eq!(v.len(), 20);
    assert_eq!(v[0], c(24, 0, 0, 255));
    assert_eq!(v[19], c(5, 0, 0, 255));
}

#[test]
fn favorites_toggle_adds_and_removes() {
    let mut f = ColorFavorites::new();
    assert!(f.toggle(c(1, 2, 3, 4)));
    assert!(f.contains(c(1, 2, 3, 4)));
    assert!(!f.toggle(c(1, 2, 3, 4)));
    assert!(!f.contains(c(1, 2, 3, 4)));
    assert!(f.colors.is_empty());
}

#[test]
fn favorites_full_list_refuses_but_answers_true() {
    assert_eq!(MAX_COLOR_FAVORITES, 30);
    let mut f = ColorFavorites::new();
    for i in 0..30u8 {
        assert!(f.toggle(c(i, 0, 0, 255)));
    }
    assert!(f.toggle(c(99, 0, 0, 255)));
    assert_eq!(f.colors.len(), 30);
    assert!(!f.contains(c(99, 0, 0, 255)));
}

#[test]
fn favorites_move_item() {
    let mut f = ColorFavorites::new();
    for i in 0..4u8 {
        f.toggle(c(i, 0, 0, 255));
    }
    f.move_item(0, 2);
    let reds: Vec<u8> = f.colors.iter().map(|x| x.r).collect();
    assert_eq!(reds, vec![1, 2, 0, 3]);
    f.move_item(3, 3);
    f.move_item(5, 0);
    let reds2: Vec<u8> = f.colors.iter().map(|x| x.r).collect();
    assert_eq!(reds2, vec![1, 2, 0, 3]);
}

#[test]
fn undo_history_round_trip() {
    let mut h: UndoHistory<u32> = UndoHistory::new();
    assert!(!h.can_undo());
    h.record(1);
    h.record(2);
    assert_eq!(h.undo(3), Some(2));
    assert!(h.can_redo());
    assert_eq!(h.redo(2), Some(3));
    assert_eq!(h.undo(3), Some(2));
    assert_eq!(h.undo(2), Some(1));
    assert_eq!(h.undo(1), None);
}

#[test]
fn undo_history_is_bounded_and_recording_clears_redo() {
    assert_eq!(MAX_UNDO, 20);
    let mut h: UndoHistory<u32> = UndoHistory::new();
    for i in 0..25u32 {
        h.record(i);
    }
    let mut n = 0;
    let mut cur = 100;
    while let Some(e) = h.undo(cur) {
        cur = e;
        n += 1;
    }
    assert_eq!(n, 20);
    assert_eq!(cur, 5);
    h.record(7);
    assert!(!h.can_redo());
}

#[test]
fn hex_codes_read_back_without_hash_and_in_small_letters() {
    let c = RgbaColor { r: 0xAB, g: 0x0C, b: 0xEF, a: 0x7F };
    let hex = c.to_hex();
    assert_eq!(hex, "#AB0CEF7F");
    assert_eq!(RgbaColor::from_hex(&hex[1..]), Some(c));
    assert_eq!(RgbaColor::from_hex(&hex.to_lowercase()), Some(c));
    assert_eq!(RgbaColor::from_hex(&hex[1..].to_lowercase()), Some(c));
    let opaque = RgbaColor { r: 0xFF, g: 0xA0, b: 0x01, a: 255 };
    assert_eq!(RgbaColor::from_hex("ffa001"), Some(opaque));
}
