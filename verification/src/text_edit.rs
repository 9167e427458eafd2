use vstd::prelude::*;
use vstd::string::StringExecFns;
use vstd::utf8::{encode_utf8, is_char_boundary, valid_utf8, encode_scalar, encode_utf8_first_scalar,
    encode_utf8_valid_utf8, is_continuation_byte, is_char_boundary_iff_not_is_continuation_byte,
    is_char_boundary_start_end_of_seq, valid_utf8_split, pop_first_scalar, length_of_first_scalar};

verus! {

/// One input event while a text layer is being edited. Cursor positions
/// are byte offsets into the UTF-8 text.
pub enum TextEvent {
    /// Typed text.
    Text(String),
    /// The Enter key; with Shift it inserts a line break, without it ends
    /// the editing.
    Enter { shift: bool },
    Backspace,
    Delete,
    ArrowLeft { shift: bool },
    ArrowRight { shift: bool },
    Home { shift: bool },
    End { shift: bool },
    /// Ctrl+A (Cmd+A).
    SelectAll,
    Copy,
    Cut,
    Paste(String),
    /// Any event the text editor ignores.
    Other,
}

/// The UTF-8 bytes of a character sequence.
pub open spec fn utf8(s: Seq<char>) -> Seq<u8> {
    encode_utf8(s)
}

/// `b` with the bytes from `lo` to `hi` replaced by `ins`.
pub open spec fn splice(b: Seq<u8>, lo: int, hi: int, ins: Seq<u8>) -> Seq<u8> {
    b.subrange(0, lo) + ins + b.subrange(hi, b.len() as int)
}

/// The nearest character boundary before `c` (0 when there is none).
pub open spec fn prev_boundary(b: Seq<u8>, c: int) -> int
    decreases c,
{
    if c <= 0 {
        0
    } else if is_char_boundary(b, c - 1) {
        c - 1
    } else {
        prev_boundary(b, c - 1)
    }
}

/// The nearest character boundary after `c` (the end when there is none).
pub open spec fn next_boundary(b: Seq<u8>, c: int) -> int
    decreases b.len() - c,
{
    if c >= b.len() {
        b.len() as int
    } else if is_char_boundary(b, c + 1) {
        c + 1
    } else {
        next_boundary(b, c + 1)
    }
}

/// A cursor or selection anchor that the text can be split at.
pub open spec fn valid_pos(b: Seq<u8>, c: int) -> bool {
    0 <= c <= b.len() && is_char_boundary(b, c)
}

/// The editing state is consistent with the text.
pub open spec fn valid_edit_state(b: Seq<u8>, c: int, a: Option<int>) -> bool {
    &&& valid_pos(b, c)
    &&& (a matches Some(x) ==> valid_pos(b, x))
}

pub open spec fn min_int(x: int, y: int) -> int {
    if x <= y { x } else { y }
}

pub open spec fn max_int(x: int, y: int) -> int {
    if x >= y { x } else { y }
}

/// The result of one event on the text of the edited layer: new text,
/// cursor and anchor, whether the text changed, the text copied to the
/// clipboard, and whether editing ends.
pub struct TextStep {
    pub text: Seq<u8>,
    pub cursor: int,
    pub anchor: Option<int>,
    pub changed: bool,
    pub copied: Option<Seq<u8>>,
    pub deselect: bool,
}

pub open spec fn unchanged_step(b: Seq<u8>, c: int, a: Option<int>) -> TextStep {
    TextStep { text: b, cursor: c, anchor: a, changed: false, copied: None, deselect: false }
}

/// Typing or pasting `ins`: the selection, if any, is replaced; otherwise
/// `ins` goes in at the cursor, which ends up after it.
pub open spec fn insert_step(b: Seq<u8>, c: int, a: Option<int>, ins: Seq<u8>) -> TextStep {
    let (lo, hi) = match a {
        Some(x) => (min_int(x, c), max_int(x, c)),
        None => (c, c),
    };
    TextStep {
        text: splice(b, lo, hi, ins),
        cursor: lo + ins.len(),
        anchor: None,
        changed: true,
        copied: None,
        deselect: false,
    }
}

/// Removing the selection from `lo` to `hi`.
pub open spec fn cut_step(b: Seq<u8>, lo: int, hi: int) -> TextStep {
    TextStep {
        text: splice(b, lo, hi, Seq::empty()),
        cursor: lo,
        anchor: None,
        changed: true,
        copied: None,
        deselect: false,
    }
}

/// The anchor after Home or End: Shift starts a selection if none is open,
/// no Shift drops the selection.
pub open spec fn anchor_after_jump(c: int, a: Option<int>, shift: bool) -> Option<int> {
    if shift && a is None {
        Some(c)
    } else if !shift {
        None
    } else {
        a
    }
}

/// One event applied to the text `b` of the edited layer.
pub open spec fn spec_text_step(b: Seq<u8>, c: int, a: Option<int>, ev: TextEvent) -> TextStep {
    match ev {
        TextEvent::Text(t) => insert_step(b, c, a, utf8(t@)),
        TextEvent::Paste(t) => insert_step(b, c, a, utf8(t@)),
        TextEvent::Enter { shift } => {
            if shift {
                insert_step(b, c, a, seq![10u8])
            } else {
                TextStep { deselect: true, ..unchanged_step(b, c, a) }
            }
        },
        TextEvent::Backspace => match a {
            Some(x) => cut_step(b, min_int(x, c), max_int(x, c)),
            None => if c > 0 {
                cut_step(b, prev_boundary(b, c), c)
            } else {
                unchanged_step(b, c, a)
            },
        },
        TextEvent::Delete => match a {
            Some(x) => cut_step(b, min_int(x, c), max_int(x, c)),
            None => if c < b.len() {
                TextStep { cursor: c, ..cut_step(b, c, next_boundary(b, c)) }
            } else {
                unchanged_step(b, c, a)
            },
        },
        TextEvent::ArrowLeft { shift } => {
            if !shift && a is Some {
                unchanged_step(b, min_int(c, a->Some_0), None)
            } else {
                let a2 = if shift && a is None { Some(c) } else { a };
                unchanged_step(b, if c > 0 { prev_boundary(b, c) } else { c }, a2)
            }
        },
        TextEvent::ArrowRight { shift } => {
            if !shift && a is Some {
                unchanged_step(b, max_int(c, a->Some_0), None)
            } else {
                let a2 = if shift && a is None { Some(c) } else { a };
                unchanged_step(b, if c < b.len() { next_boundary(b, c) } else { c }, a2)
            }
        },
        TextEvent::Home { shift } => unchanged_step(b, 0, anchor_after_jump(c, a, shift)),
        TextEvent::End { shift } => unchanged_step(b, b.len() as int, anchor_after_jump(c, a, shift)),
        TextEvent::SelectAll => unchanged_step(b, b.len() as int, Some(0)),
        TextEvent::Copy => match a {
            Some(x) => {
                let (lo, hi) = (min_int(x, c), max_int(x, c));
                if lo < hi && hi <= b.len() {
                    TextStep { copied: Some(b.subrange(lo, hi)), ..unchanged_step(b, c, a) }
                } else {
                    unchanged_step(b, c, a)
                }
            },
            None => unchanged_step(b, c, a),
        },
        TextEvent::Cut => match a {
            Some(x) => {
                let (lo, hi) = (min_int(x, c), max_int(x, c));
                if lo < hi && hi <= b.len() {
                    TextStep { copied: Some(b.subrange(lo, hi)), ..cut_step(b, lo, hi) }
                } else {
                    unchanged_step(b, c, a)
                }
            },
            None => unchanged_step(b, c, a),
        },
        TextEvent::Other => unchanged_step(b, c, a),
    }
}

/// One event when the selected text layer no longer exists: only the cursor
/// keys that need no text act, on an empty text, and Enter still ends
/// editing. Returns the cursor, the anchor and whether editing ends.
pub open spec fn spec_detached_step(c: int, a: Option<int>, ev: TextEvent) -> (int, Option<int>, bool) {
    match ev {
        TextEvent::Enter { shift } => (c, a, !shift),
        TextEvent::Home { shift } => (0, anchor_after_jump(c, a, shift), false),
        TextEvent::End { shift } => (0, anchor_after_jump(c, a, shift), false),
        TextEvent::SelectAll => (0, Some(0), false),
        _ => (c, a, false),
    }
}

/// The UTF-8 bytes of a concatenation are the concatenated bytes.
pub proof fn lemma_utf8_concat(a: Seq<char>, b: Seq<char>)
    ensures
        utf8(a + b) == utf8(a) + utf8(b),
    decreases a.len(),
{
    if a.len() == 0 {
        assert(a + b =~= b);
        assert(utf8(a) =~= Seq::<u8>::empty());
        assert(utf8(a) + utf8(b) =~= utf8(b));
    } else {
        assert((a + b).drop_first() =~= a.drop_first() + b);
        assert((a + b)[0] == a[0]);
        lemma_utf8_concat(a.drop_first(), b);
        assert(utf8(a + b) =~= encode_scalar(a[0] as u32) + utf8(a.drop_first() + b));
        assert(utf8(a) + utf8(b) =~= encode_scalar(a[0] as u32) + (utf8(a.drop_first()) + utf8(b)));
    }
}

/// Every character takes at least one byte.
pub proof fn lemma_utf8_len_ge(s: Seq<char>)
    ensures
        utf8(s).len() >= s.len(),
    decreases s.len(),
{
    if s.len() > 0 {
        lemma_utf8_len_ge(s.drop_first());
        assert(utf8(s) =~= encode_scalar(s[0] as u32) + utf8(s.drop_first()));
    }
}

/// Where two strings are joined there is a character boundary.
pub proof fn lemma_join_is_boundary(a: Seq<char>, b: Seq<char>)
    ensures
        is_char_boundary(utf8(a + b), utf8(a).len() as int),
    decreases a.len(),
{
    broadcast use encode_utf8_valid_utf8;
    if a.len() == 0 {
    } else {
        let x = utf8(a + b);
        encode_utf8_first_scalar(a + b);
        assert((a + b)[0] == a[0]);
        assert((a + b).drop_first() =~= a.drop_first() + b);
        let rest = a.drop_first() + b;
        assert(x =~= encode_scalar(a[0] as u32) + utf8(rest));
        assert(pop_first_scalar(x) =~= utf8(rest));
        lemma_join_is_boundary(a.drop_first(), b);
        lemma_utf8_concat(a, b);
        lemma_utf8_concat(a.drop_first(), b);
        assert(utf8(a).len() == encode_scalar(a[0] as u32).len() + utf8(a.drop_first()).len());
        assert(encode_scalar(a[0] as u32).len() > 0);
        assert(utf8(a).len() <= x.len());
        assert(valid_utf8(x));
    }
}

/// A boundary of the text is a boundary of any prefix that reaches it.
pub proof fn lemma_prefix_boundary(b: Seq<u8>, lo: int, hi: int)
    requires
        valid_utf8(b),
        valid_pos(b, lo),
        valid_pos(b, hi),
        lo <= hi,
    ensures
        valid_utf8(b.subrange(0, hi)),
        is_char_boundary(b.subrange(0, hi), lo),
{
    valid_utf8_split(b, hi);
    let p = b.subrange(0, hi);
    if lo < hi {
        is_char_boundary_iff_not_is_continuation_byte(b, lo);
        is_char_boundary_iff_not_is_continuation_byte(p, lo);
        assert(p[lo] == b[lo]);
    } else {
        is_char_boundary_start_end_of_seq(p);
    }
}

/// A line break is the single byte 10.
pub proof fn lemma_newline_utf8()
    ensures
        utf8(seq!['\n']) == seq![10u8],
{
    let s = seq!['\n'];
    assert(s.drop_first() =~= Seq::<char>::empty());
    assert(utf8(s.drop_first()) =~= Seq::<u8>::empty());
    assert(s[0] as u32 == 10u32);
    assert((10u32 & 0x7F) as u8 == 10u8) by (bit_vector);
    assert(encode_scalar(10u32) =~= seq![10u8]);
    assert(utf8(s) =~= encode_scalar(s[0] as u32) + utf8(s.drop_first()));
}

/// The boundary found before a position is a boundary before it.
pub proof fn lemma_prev_boundary(b: Seq<u8>, c: int)
    requires
        valid_utf8(b),
        0 < c <= b.len(),
    ensures
        0 <= prev_boundary(b, c) < c,
        is_char_boundary(b, prev_boundary(b, c)),
    decreases c,
{
    if c - 1 == 0 {
    } else if is_char_boundary(b, c - 1) {
    } else {
        lemma_prev_boundary(b, c - 1);
    }
}

/// The boundary found after a position is a boundary after it.
pub proof fn lemma_next_boundary(b: Seq<u8>, c: int)
    requires
        valid_utf8(b),
        0 <= c < b.len(),
    ensures
        c < next_boundary(b, c) <= b.len(),
        is_char_boundary(b, next_boundary(b, c)),
    decreases b.len() - c,
{
    if c + 1 >= b.len() {
        is_char_boundary_start_end_of_seq(b);
    } else if is_char_boundary(b, c + 1) {
    } else {
        lemma_next_boundary(b, c + 1);
    }
}

/// The text with the bytes from `lo` to `hi` replaced by `ins`.
fn splice_string(s: &String, lo: usize, hi: usize, ins: &str) -> (r: String)
    requires
        lo <= hi,
        valid_pos(utf8(s@), lo as int),
        valid_pos(utf8(s@), hi as int),
    ensures
        utf8(r@) == splice(utf8(s@), lo as int, hi as int, utf8(ins@)),
        valid_pos(utf8(r@), lo as int),
        valid_pos(utf8(r@), lo + utf8(ins@).len()),
{
    let st: &str = s.as_str();
    let (head, _) = st.split_at(lo);
    let (_, tail) = st.split_at(hi);
    let mut r = String::new();
    r.append(head);
    r.append(ins);
    r.append(tail);
    proof {
        assert(r@ =~= head@ + ins@ + tail@);
        lemma_utf8_concat(head@ + ins@, tail@);
        lemma_utf8_concat(head@, ins@);
        lemma_utf8_concat(head@, ins@ + tail@);
        assert(r@ =~= head@ + (ins@ + tail@));
        lemma_join_is_boundary(head@, ins@ + tail@);
        lemma_join_is_boundary(head@ + ins@, tail@);
    }
    r
}

/// The bytes from `lo` to `hi` as a string of their own.
fn substring(s: &String, lo: usize, hi: usize) -> (r: String)
    requires
        lo <= hi,
        valid_pos(utf8(s@), lo as int),
        valid_pos(utf8(s@), hi as int),
    ensures
        utf8(r@) == utf8(s@).subrange(lo as int, hi as int),
{
    let st: &str = s.as_str();
    proof {
        encode_utf8_valid_utf8(s@);
        lemma_prefix_boundary(utf8(s@), lo as int, hi as int);
    }
    let (head, _) = st.split_at(hi);
    let (_, mid) = head.split_at(lo);
    let r = String::from_str(mid);
    assert(utf8(r@) =~= utf8(s@).subrange(lo as int, hi as int));
    r
}

/// The nearest character boundary before `c`.
fn prev_char_boundary(s: &String, c: usize) -> (r: usize)
    requires
        0 < c <= utf8(s@).len(),
    ensures
        r == prev_boundary(utf8(s@), c as int),
{
    let st: &str = s.as_str();
    proof {
        encode_utf8_valid_utf8(s@);
    }
    let mut i: usize = c - 1;
    while i > 0 && !st.is_char_boundary(i)
        invariant
            0 <= i < c,
            c <= utf8(s@).len(),
            st@ == s@,
            valid_utf8(utf8(s@)),
            prev_boundary(utf8(s@), c as int) == prev_boundary(utf8(s@), i + 1),
        decreases i,
    {
        i = i - 1;
    }
    i
}

/// The nearest character boundary after `c`.
fn next_char_boundary(s: &String, c: usize) -> (r: usize)
    requires
        c < utf8(s@).len(),
    ensures
        r == next_boundary(utf8(s@), c as int),
{
    let st: &str = s.as_str();
    let n = st.as_bytes().len();
    assert(n == utf8(s@).len());
    let mut i: usize = c + 1;
    while i < n && !st.is_char_boundary(i)
        invariant
            c < i <= n,
            n == utf8(s@).len(),
            st@ == s@,
            next_boundary(utf8(s@), c as int) == next_boundary(utf8(s@), i - 1),
        decreases n - i,
    {
        i = i + 1;
    }
    proof {
        if i >= n {
            assert(next_boundary(utf8(s@), n as int) == n);
        }
    }
    i
}



/// An optional byte position as an optional integer.
pub open spec fn opt_pos(a: Option<usize>) -> Option<int> {
    match a {
        Some(x) => Some(x as int),
        None => None,
    }
}

/// What an event did besides changing the text and the cursor.
pub struct TextEventOutcome {
    /// The text changed.
    pub changed: bool,
    /// Text to place on the clipboard.
    pub copied: Option<String>,
    /// Editing ends.
    pub deselect: bool,
}

/// The outcome agrees with a step of the model.
pub open spec fn outcome_matches(out: TextEventOutcome, st: TextStep) -> bool {
    &&& out.changed == st.changed
    &&& out.deselect == st.deselect
    &&& match out.copied {
        Some(s) => st.copied == Some(utf8(s@)),
        None => st.copied is None,
    }
}

fn plain_outcome() -> (out: TextEventOutcome)
    ensures
        !out.changed,
        !out.deselect,
        out.copied is None,
{
    TextEventOutcome { changed: false, copied: None, deselect: false }
}

/// Replaces the selection (or inserts at the cursor) with `ins`.
fn insert_at_selection(content: &mut String, cursor: &mut usize, anchor: &mut Option<usize>, ins: &str)
    requires
        valid_edit_state(utf8(old(content)@), *old(cursor) as int, opt_pos(*old(anchor))),
    ensures
        ({
            let st = insert_step(utf8(old(content)@), *old(cursor) as int, opt_pos(*old(anchor)), utf8(ins@));
            &&& utf8(final(content)@) == st.text
            &&& *final(cursor) == st.cursor
            &&& *final(anchor) is None
        }),
        valid_pos(utf8(final(content)@), *final(cursor) as int),
{
    let c = *cursor;
    let (lo, hi) = match *anchor {
        Some(x) => if x <= c { (x, c) } else { (c, x) },
        None => (c, c),
    };
    let r = splice_string(content, lo, hi, ins);
    let n = ins.as_bytes().len();
    let total = r.as_str().as_bytes().len();
    proof {
        encode_utf8_valid_utf8(r@);
        assert(total == utf8(r@).len());
    }
    *content = r;
    *cursor = lo + n;
    *anchor = None;
}

/// Removes the bytes from `lo` to `hi`, leaving the cursor at `lo`.
fn remove_range(content: &mut String, cursor: &mut usize, anchor: &mut Option<usize>, lo: usize, hi: usize)
    requires
        lo <= hi,
        valid_pos(utf8(old(content)@), lo as int),
        valid_pos(utf8(old(content)@), hi as int),
    ensures
        utf8(final(content)@) == splice(utf8(old(content)@), lo as int, hi as int, Seq::empty()),
        *final(cursor) == lo,
        *final(anchor) is None,
        valid_pos(utf8(final(content)@), lo as int),
{
    let empty = "";
    proof {
        reveal_strlit("");
        assert(utf8(empty@) =~= Seq::<u8>::empty());
    }
    let r = splice_string(content, lo, hi, empty);
    *content = r;
    *cursor = lo;
    *anchor = None;
}

/// Applies one input event to the text of the layer being edited, with
/// the cursor and selection anchor given as byte offsets.
pub fn apply_text_event(
    content: &mut String,
    cursor: &mut usize,
    anchor: &mut Option<usize>,
    ev: &TextEvent,
) -> (out: TextEventOutcome)
    requires
        valid_edit_state(utf8(old(content)@), *old(cursor) as int, opt_pos(*old(anchor))),
    ensures
        ({
            let st = spec_text_step(utf8(old(content)@), *old(cursor) as int, opt_pos(*old(anchor)), *ev);
            &&& utf8(final(content)@) == st.text
            &&& *final(cursor) == st.cursor
            &&& opt_pos(*final(anchor)) == st.anchor
            &&& outcome_matches(out, st)
        }),
        valid_edit_state(utf8(final(content)@), *final(cursor) as int, opt_pos(*final(anchor))),
{
    let ghost b = utf8(old(content)@);
    proof {
        encode_utf8_valid_utf8(old(content)@);
        is_char_boundary_start_end_of_seq(b);
    }
    let c = *cursor;
    let len = content.as_str().as_bytes().len();
    match ev {
        TextEvent::Text(t) => {
            insert_at_selection(content, cursor, anchor, t.as_str());
            TextEventOutcome { changed: true, copied: None, deselect: false }
        },
        TextEvent::Paste(t) => {
            insert_at_selection(content, cursor, anchor, t.as_str());
            TextEventOutcome { changed: true, copied: None, deselect: false }
        },
        TextEvent::Enter { shift } => {
            if *shift {
                let nl = "\n";
                proof {
                    reveal_strlit("\n");
                    assert(nl@ =~= seq!['\n']);
                    lemma_newline_utf8();
                }
                insert_at_selection(content, cursor, anchor, nl);
                TextEventOutcome { changed: true, copied: None, deselect: false }
            } else {
                TextEventOutcome { changed: false, copied: None, deselect: true }
            }
        },
        TextEvent::Backspace => {
            match *anchor {
                Some(x) => {
                    let (lo, hi) = if x <= c { (x, c) } else { (c, x) };
                    remove_range(content, cursor, anchor, lo, hi);
                    TextEventOutcome { changed: true, copied: None, deselect: false }
                },
                None => {
                    if c > 0 {
                        let p = prev_char_boundary(content, c);
                        proof {
                            lemma_prev_boundary(b, c as int);
                        }
                        remove_range(content, cursor, anchor, p, c);
                        TextEventOutcome { changed: true, copied: None, deselect: false }
                    } else {
                        plain_outcome()
                    }
                },
            }
        },
        TextEvent::Delete => {
            match *anchor {
                Some(x) => {
                    let (lo, hi) = if x <= c { (x, c) } else { (c, x) };
                    remove_range(content, cursor, anchor, lo, hi);
                    TextEventOutcome { changed: true, copied: None, deselect: false }
                },
                None => {
                    if c < len {
                        let n = next_char_boundary(content, c);
                        proof {
                            lemma_next_boundary(b, c as int);
                        }
                        remove_range(content, cursor, anchor, c, n);
                        TextEventOutcome { changed: true, copied: None, deselect: false }
                    } else {
                        plain_outcome()
                    }
                },
            }
        },
        TextEvent::ArrowLeft { shift } => {
            if !*shift && anchor.is_some() {
                let x = anchor.unwrap();
                *cursor = if c <= x { c } else { x };
                *anchor = None;
            } else {
                if *shift && anchor.is_none() {
                    *anchor = Some(c);
                }
                if c > 0 {
                    proof {
                        lemma_prev_boundary(b, c as int);
                    }
                    *cursor = prev_char_boundary(content, c);
                }
            }
            plain_outcome()
        },
        TextEvent::ArrowRight { shift } => {
            if !*shift && anchor.is_some() {
                let x = anchor.unwrap();
                *cursor = if c >= x { c } else { x };
                *anchor = None;
            } else {
                if *shift && anchor.is_none() {
                    *anchor = Some(c);
                }
                if c < len {
                    proof {
                        lemma_next_boundary(b, c as int);
                    }
                    *cursor = next_char_boundary(content, c);
                }
            }
            plain_outcome()
        },
        TextEvent::Home { shift } => {
            if *shift && anchor.is_none() {
                *anchor = Some(c);
            } else if !*shift {
                *anchor = None;
            }
            *cursor = 0;
            plain_outcome()
        },
        TextEvent::End { shift } => {
            if *shift && anchor.is_none() {
                *anchor = Some(c);
            } else if !*shift {
                *anchor = None;
            }
            *cursor = len;
            plain_outcome()
        },
        TextEvent::SelectAll => {
            *anchor = Some(0);
            *cursor = len;
            plain_outcome()
        },
        TextEvent::Copy => {
            match *anchor {
                Some(x) => {
                    let (lo, hi) = if x <= c { (x, c) } else { (c, x) };
                    if lo < hi && hi <= len {
                        let copied = substring(content, lo, hi);
                        TextEventOutcome { changed: false, copied: Some(copied), deselect: false }
                    } else {
                        plain_outcome()
                    }
                },
                None => plain_outcome(),
            }
        },
        TextEvent::Cut => {
            match *anchor {
                Some(x) => {
                    let (lo, hi) = if x <= c { (x, c) } else { (c, x) };
                    if lo < hi && hi <= len {
                        let copied = substring(content, lo, hi);
                        remove_range(content, cursor, anchor, lo, hi);
                        TextEventOutcome { changed: true, copied: Some(copied), deselect: false }
                    } else {
                        plain_outcome()
                    }
                },
                None => plain_outcome(),
            }
        },
        TextEvent::Other => plain_outcome(),
    }
}

/// Applies one input event when the layer being edited has gone: only Home,
/// End and Select All move the cursor (over an empty text), and Enter
/// without Shift still ends editing.
pub fn apply_detached_event(cursor: &mut usize, anchor: &mut Option<usize>, ev: &TextEvent) -> (deselect: bool)
    ensures
        (*final(cursor) as int, opt_pos(*final(anchor)), deselect)
            == spec_detached_step(*old(cursor) as int, opt_pos(*old(anchor)), *ev),
{
    let c = *cursor;
    match ev {
        TextEvent::Enter { shift } => !*shift,
        TextEvent::Home { shift } | TextEvent::End { shift } => {
            if *shift && anchor.is_none() {
                *anchor = Some(c);
            } else if !*shift {
                *anchor = None;
            }
            *cursor = 0;
            false
        },
        TextEvent::SelectAll => {
            *anchor = Some(0);
            *cursor = 0;
            false
        },
        _ => false,
    }
}

/// A position moved into the text and back onto a character boundary.
pub open spec fn spec_clamp(b: Seq<u8>, c: int) -> int {
    let c2 = min_int(c, b.len() as int);
    if is_char_boundary(b, c2) { c2 } else { prev_boundary(b, c2) }
}

/// Moves a position into the text and back onto a character boundary.
pub fn clamp_to_boundary(s: &String, c: usize) -> (r: usize)
    ensures
        r == spec_clamp(utf8(s@), c as int),
        valid_pos(utf8(s@), r as int),
{
    let st: &str = s.as_str();
    let len = st.as_bytes().len();
    proof {
        encode_utf8_valid_utf8(s@);
        is_char_boundary_start_end_of_seq(utf8(s@));
    }
    let c2 = if c <= len { c } else { len };
    if st.is_char_boundary(c2) {
        c2
    } else {
        proof {
            lemma_prev_boundary(utf8(s@), c2 as int);
        }
        prev_char_boundary(s, c2)
    }
}

} // verus!
