use image_editor_core::text_edit::{TextEvent, apply_text_event, apply_detached_event, clamp_to_boundary};

struct Ed {
    text: String,
    cursor: usize,
    anchor: Option<usize>,
}

impl Ed {
    fn new(t: &str, cursor: usize) -> Ed {
        Ed { text: t.to_string(), cursor, anchor: None }
    }
    fn ev(&mut self, e: TextEvent) -> (bool, Option<String>, bool) {
        let out = apply_text_event(&mut self.text, &mut self.cursor, &mut self.anchor, &e);
        (out.changed, out.copied, out.deselect)
    }
}

#[test]
fn typing_inserts_at_the_cursor() {
    let mut e = Ed::new("ac", 1);
    let (changed, _, _) = e.ev(TextEvent::Text("b".to_string()));
    assert!(changed);
    assert_eq!(e.text, "abc");
    assert_eq!(e.cursor, 2);
}

#[test]
fn typing_replaces_the_selection() {
    let mut e = Ed::new("hello world", 6);
    e.anchor = Some(11);
    e.ev(TextEvent::Text("there".to_string()));
    assert_eq!(e.text, "hello there");
    assert_eq!(e.cursor, 11);
    assert_eq!(e.anchor, None);
}

#[test]
fn backspace_removes_a_whole_multibyte_character() {
    let mut e = Ed::new("aé", 3);
    e.ev(TextEvent::Backspace);
    assert_eq!(e.text, "a");
    assert_eq!(e.cursor, 1);
}

#[test]
fn backspace_at_the_start_does_nothing() {
    let mut e = Ed::new("ab", 0);
    let (changed, _, _) = e.ev(TextEvent::Backspace);
    assert!(!changed);
    assert_eq!(e.text, "ab");
}

#[test]
fn delete_removes_the_next_character() {
    let mut e = Ed::new("a€b", 1);
    e.ev(TextEvent::Delete);
    assert_eq!(e.text, "ab");
    assert_eq!(e.cursor, 1);
    let mut end = Ed::new("ab", 2);
    let (changed, _, _) = end.ev(TextEvent::Delete);
    assert!(!changed);
}

#[test]
fn shift_enter_breaks_the_line_and_enter_ends_editing() {
    let mut e = Ed::new("ab", 1);
    e.ev(TextEvent::Enter { shift: true });
    assert_eq!(e.text, "a\nb");
    assert_eq!(e.cursor, 2);
    let (changed, _, deselect) = e.ev(TextEvent::Enter { shift: false });
    assert!(!changed);
    assert!(deselect);
    assert_eq!(e.text, "a\nb");
}

#[test]
fn arrows_step_over_characters_and_extend_selection() {
    let mut e = Ed::new("xé", 0);
    e.ev(TextEvent::ArrowRight { shift: false });
    assert_eq!(e.cursor, 1);
    e.ev(TextEvent::ArrowRight { shift: true });
    assert_eq!(e.cursor, 3);
    assert_eq!(e.anchor, Some(1));
    // without shift the cursor jumps to the selection's left end
    e.ev(TextEvent::ArrowLeft { shift: false });
    assert_eq!(e.cursor, 1);
    assert_eq!(e.anchor, None);
    e.ev(TextEvent::ArrowLeft { shift: false });
    assert_eq!(e.cursor, 0);
    e.ev(TextEvent::ArrowLeft { shift: false });
    assert_eq!(e.cursor, 0);
}

#[test]
fn home_and_end() {
    let mut e = Ed::new("abc", 1);
    e.ev(TextEvent::End { shift: true });
    assert_eq!((e.cursor, e.anchor), (3, Some(1)));
    e.ev(TextEvent::Home { shift: false });
    assert_eq!((e.cursor, e.anchor), (0, None));
}

#[test]
fn select_all_then_type_replaces_everything() {
    let mut e = Ed::new("old text", 2);
    e.ev(TextEvent::SelectAll);
    assert_eq!((e.cursor, e.anchor), (8, Some(0)));
    e.ev(TextEvent::Text("new".to_string()));
    assert_eq!(e.text, "new");
    assert_eq!(e.cursor, 3);
}

#[test]
fn copy_cut_and_paste() {
    let mut e = Ed::new("one two", 4);
    e.anchor = Some(7);
    let (changed, copied, _) = e.ev(TextEvent::Copy);
    assert!(!changed);
    assert_eq!(copied.as_deref(), Some("two"));
    let (changed, cut, _) = e.ev(TextEvent::Cut);
    assert!(changed);
    assert_eq!(cut.as_deref(), Some("two"));
    assert_eq!(e.text, "one ");
    assert_eq!(e.cursor, 4);
    // pasting what was cut gives the text back, cursor after it
    e.ev(TextEvent::Paste(cut.unwrap()));
    assert_eq!(e.text, "one two");
    assert_eq!(e.cursor, 7);
}

#[test]
fn copy_without_selection_copies_nothing() {
    let mut e = Ed::new("abc", 1);
    let (_, copied, _) = e.ev(TextEvent::Copy);
    assert_eq!(copied, None);
    let (changed, cut, _) = e.ev(TextEvent::Cut);
    assert!(!changed);
    assert_eq!(cut, None);
}

#[test]
fn detached_events_work_on_an_empty_text() {
    let mut cursor = 5usize;
    let mut anchor = None;
    assert!(!apply_detached_event(&mut cursor, &mut anchor, &TextEvent::End { shift: true }));
    assert_eq!((cursor, anchor), (0, Some(5)));
    assert!(!apply_detached_event(&mut cursor, &mut anchor, &TextEvent::Text("x".to_string())));
    assert!(apply_detached_event(&mut cursor, &mut anchor, &TextEvent::Enter { shift: false }));
}

#[test]
fn clamping_moves_back_onto_a_boundary() {
    let s = "aé".to_string();
    assert_eq!(clamp_to_boundary(&s, 2), 1);
    assert_eq!(clamp_to_boundary(&s, 3), 3);
    assert_eq!(clamp_to_boundary(&s, 99), 3);
}

#[test]
fn typing_a_character_then_backspace_restores_the_text() {
    for ch in ["a", "é", "€", "😀"] {
        let mut e = Ed::new("x€y", 1);
        e.ev(TextEvent::Text(ch.to_string()));
        e.ev(TextEvent::Backspace);
        assert_eq!(e.text, "x€y");
        assert_eq!(e.cursor, 1);
    }
}
