use vstd::prelude::*;
use vstd::string::{StringExecFns, StringSliceAdditionalSpecFns};
use crate::text::{hex_char, hex_pair, dec_char, dec_digits, push_hex_pair, push_decimal};

verus! {

/// A colour with straight (not premultiplied) alpha.
#[derive(Debug, Clone, Copy, PartialEq, Eq, Structural)]
pub struct RgbaColor {
    pub r: u8,
    pub g: u8,
    pub b: u8,
    pub a: u8,
}

/// `#RRGGBB` for an opaque colour, `#RRGGBBAA` otherwise, in upper case.
pub open spec fn spec_to_hex(c: RgbaColor) -> Seq<char> {
    let base = seq!['#'] + hex_pair(c.r) + hex_pair(c.g) + hex_pair(c.b);
    if c.a == 255 { base } else { base + hex_pair(c.a) }
}

/// Value of the hexadecimal digit byte `b`, either case.
pub open spec fn hex_value(b: u8) -> Option<int> {
    if 48 <= b <= 57 {
        Some(b - 48)
    } else if 97 <= b <= 102 {
        Some(b - 87)
    } else if 65 <= b <= 70 {
        Some(b - 55)
    } else {
        None
    }
}

/// What parsing the two bytes as a base-16 `u8` gives: two digits, or a
/// plus sign and one digit.
pub open spec fn pair_value(b0: u8, b1: u8) -> Option<u8> {
    if b0 == 43 {
        match hex_value(b1) {
            Some(v) => Some(v as u8),
            None => None,
        }
    } else {
        match (hex_value(b0), hex_value(b1)) {
            (Some(hi), Some(lo)) => Some((16 * hi + lo) as u8),
            _ => None,
        }
    }
}

/// The bytes after every leading `#`.
pub open spec fn trim_hashes(s: Seq<u8>) -> Seq<u8>
    decreases s.len(),
{
    if s.len() > 0 && s[0] == 35 { trim_hashes(s.drop_first()) } else { s }
}

/// Byte index `i` of the UTF-8 bytes `t` is the start of a character or the
/// end.
pub open spec fn char_start(t: Seq<u8>, i: int) -> bool {
    i == t.len() || (0 <= i < t.len() && !(0x80 <= t[i] <= 0xbf))
}

/// The colour that a hex code spells: six digits (opaque) or eight, after any
/// leading `#`.
pub open spec fn spec_from_hex(s: Seq<u8>) -> Option<RgbaColor> {
    let t = trim_hashes(s);
    if t.len() == 6 || t.len() == 8 {
        match (pair_value(t[0], t[1]), pair_value(t[2], t[3]), pair_value(t[4], t[5])) {
            (Some(r), Some(g), Some(b)) => if t.len() == 6 {
                Some(RgbaColor { r, g, b, a: 255 })
            } else {
                match pair_value(t[6], t[7]) {
                    Some(a) => Some(RgbaColor { r, g, b, a }),
                    None => None,
                }
            },
            _ => None,
        }
    } else {
        None
    }
}

/// Cutting the code into two-byte pieces would split a character.
pub open spec fn from_hex_panics(s: Seq<u8>) -> bool {
    let t = trim_hashes(s);
    &&& t.len() == 6 || t.len() == 8
    &&& {
        ||| !char_start(t, 2)
        ||| pair_value(t[0], t[1]) is Some && !char_start(t, 4)
        ||| t.len() == 8 && pair_value(t[0], t[1]) is Some && pair_value(t[2], t[3]) is Some && !char_start(t, 6)
    }
}

/// Alpha as a fraction of 255 in hundredths, rounded to nearest.
pub open spec fn alpha_hundredths(a: u8) -> nat {
    ((200 * a + 255) / 510) as nat
}

/// Alpha as a fraction of 255 with two decimals.
pub open spec fn alpha_text(a: u8) -> Seq<char> {
    let k = alpha_hundredths(a);
    dec_digits(k / 100) + seq!['.', dec_char(((k % 100) / 10) as int), dec_char((k % 10) as int)]
}

/// `rgb(r, g, b)` for an opaque colour, `rgba(r, g, b, alpha)` otherwise.
pub open spec fn spec_to_rgb_string(c: RgbaColor) -> Seq<char> {
    if c.a == 255 {
        "rgb("@ + dec_digits(c.r as nat) + ", "@ + dec_digits(c.g as nat) + ", "@ + dec_digits(c.b as nat) + ")"@
    } else {
        "rgba("@ + dec_digits(c.r as nat) + ", "@ + dec_digits(c.g as nat) + ", "@ + dec_digits(c.b as nat) + ", "@
            + alpha_text(c.a) + ")"@
    }
}

fn hex_value_exec(b: u8) -> (r: Option<u8>)
    ensures
        r matches Some(v) ==> hex_value(b) == Some(v as int),
        r is None ==> hex_value(b) is None,
{
    if 48 <= b && b <= 57 {
        Some(b - 48)
    } else if 97 <= b && b <= 102 {
        Some(b - 87)
    } else if 65 <= b && b <= 70 {
        Some(b - 55)
    } else {
        None
    }
}

fn pair_value_exec(b0: u8, b1: u8) -> (r: Option<u8>)
    ensures
        r == pair_value(b0, b1),
{
    if b0 == 43 {
        hex_value_exec(b1)
    } else {
        match (hex_value_exec(b0), hex_value_exec(b1)) {
            (Some(hi), Some(lo)) => Some(16 * hi + lo),
            _ => None,
        }
    }
}

impl RgbaColor {
    pub fn to_hex(&self) -> (s: String)
        ensures
            s@ == spec_to_hex(*self),
    {
        let mut s = String::new();
        s.append("#");
        proof {
            reveal_strlit("#");
        }
        push_hex_pair(&mut s, self.r);
        push_hex_pair(&mut s, self.g);
        push_hex_pair(&mut s, self.b);
        if self.a != 255 {
            push_hex_pair(&mut s, self.a);
        }
        assert(s@ =~= spec_to_hex(*self));
        s
    }

    /// Parses `#RRGGBB` or `#RRGGBBAA` (any number of leading `#`, digits in
    /// either case).
    pub fn from_hex(hex: &str) -> (r: Option<RgbaColor>)
        requires
            !from_hex_panics(hex.spec_bytes()),
        ensures
            r == spec_from_hex(hex.spec_bytes()),
    {
        let bytes = hex.as_bytes();
        let ghost s = bytes@;
        let n = bytes.len();
        let mut i: usize = 0;
        assert(s.subrange(0, n as int) =~= s);
        while i < n && bytes[i] == 35
            invariant
                i <= n,
                n == s.len(),
                bytes@ == s,
                trim_hashes(s) == trim_hashes(s.subrange(i as int, n as int)),
            decreases n - i,
        {
            assert(s.subrange(i as int, n as int).drop_first() =~= s.subrange(i + 1, n as int));
            i = i + 1;
        }
        assert(trim_hashes(s) =~= s.subrange(i as int, n as int));
        let len = n - i;
        if len != 6 && len != 8 {
            return None;
        }
        let r = match pair_value_exec(bytes[i], bytes[i + 1]) {
            Some(v) => v,
            None => return None,
        };
        let g = match pair_value_exec(bytes[i + 2], bytes[i + 3]) {
            Some(v) => v,
            None => return None,
        };
        let b = match pair_value_exec(bytes[i + 4], bytes[i + 5]) {
            Some(v) => v,
            None => return None,
        };
        if len == 6 {
            return Some(RgbaColor { r, g, b, a: 255 });
        }
        let a = match pair_value_exec(bytes[i + 6], bytes[i + 7]) {
            Some(v) => v,
            None => return None,
        };
        Some(RgbaColor { r, g, b, a })
    }

    pub fn to_rgb_string(&self) -> (s: String)
        ensures
            s@ == spec_to_rgb_string(*self),
    {
        let mut s = String::new();
        proof {
            reveal_strlit("rgb(");
            reveal_strlit("rgba(");
            reveal_strlit(", ");
            reveal_strlit(")");
            reveal_strlit(".");
        }
        if self.a == 255 {
            s.append("rgb(");
        } else {
            s.append("rgba(");
        }
        push_decimal(&mut s, self.r as u32);
        s.append(", ");
        push_decimal(&mut s, self.g as u32);
        s.append(", ");
        push_decimal(&mut s, self.b as u32);
        if self.a != 255 {
            s.append(", ");
            let k: u32 = (200 * (self.a as u32) + 255) / 510;
            push_decimal(&mut s, k / 100);
            s.append(".");
            push_decimal(&mut s, (k % 100) / 10);
            push_decimal(&mut s, k % 10);
            assert(dec_digits(((k % 100) / 10) as nat) =~= seq![dec_char(((k % 100) / 10) as int)]);
            assert(dec_digits((k % 10) as nat) =~= seq![dec_char((k % 10) as int)]);
        }
        s.append(")");
        assert(s@ =~= spec_to_rgb_string(*self));
        s
    }
}

proof fn lemma_hex_char_value(d: int)
    requires
        0 <= d < 16,
    ensures
        hex_value(hex_char(d) as u8) == Some(d),
        (hex_char(d) as u8) != 35,
        (hex_char(d) as u8) < 0x80,
        '\0' <= hex_char(d) <= '\u{7f}',
{
}

proof fn lemma_pair_round_trip(b: u8)
    ensures
        pair_value(hex_char((b / 16) as int) as u8, hex_char((b % 16) as int) as u8) == Some(b),
{
    lemma_hex_char_value((b / 16) as int);
    lemma_hex_char_value((b % 16) as int);
}

/// Writing a colour as a hex code and reading the code back gives the same
/// colour, and reading it never splits a character.
pub proof fn law_hex_round_trip(c: RgbaColor)
    ensures
        !from_hex_panics(vstd::utf8::encode_utf8(spec_to_hex(c))),
        spec_from_hex(vstd::utf8::encode_utf8(spec_to_hex(c))) == Some(c),
{
    let chars = spec_to_hex(c);
    lemma_hex_char_value((c.r / 16) as int);
    lemma_hex_char_value((c.r % 16) as int);
    lemma_hex_char_value((c.g / 16) as int);
    lemma_hex_char_value((c.g % 16) as int);
    lemma_hex_char_value((c.b / 16) as int);
    lemma_hex_char_value((c.b % 16) as int);
    lemma_hex_char_value((c.a / 16) as int);
    lemma_hex_char_value((c.a % 16) as int);
    lemma_pair_round_trip(c.r);
    lemma_pair_round_trip(c.g);
    lemma_pair_round_trip(c.b);
    lemma_pair_round_trip(c.a);
    assert(vstd::utf8::is_ascii_chars(chars));
    vstd::utf8::is_ascii_chars_encode_utf8(chars);
    let bytes = vstd::utf8::encode_utf8(chars);
    assert(bytes[0] == 35);
    assert(bytes[1] != 35);
    assert(trim_hashes(bytes.drop_first()) == bytes.drop_first());
    assert(trim_hashes(bytes) == bytes.drop_first());
    let t = bytes.drop_first();
    assert forall|i: int| 0 <= i < t.len() implies t[i] < 0x80 by {
        assert(t[i] == bytes[i + 1]);
    }
}

/// The bytes with every ASCII capital letter made small.
pub open spec fn ascii_lower(s: Seq<u8>) -> Seq<u8> {
    s.map_values(|b: u8| if 65 <= b <= 90 { (b + 32) as u8 } else { b })
}

proof fn lemma_lower_hex_char_value(d: int)
    requires
        0 <= d < 16,
    ensures
        ({
            let u = hex_char(d) as u8;
            let l = if 65 <= u <= 90 { (u + 32) as u8 } else { u };
            &&& hex_value(l) == Some(d)
            &&& l != 35
            &&& l < 0x80
        }),
{
}

proof fn lemma_lower_pair(b: u8)
    ensures
        ({
            let h = hex_char((b / 16) as int) as u8;
            let l = hex_char((b % 16) as int) as u8;
            let hl = if 65 <= h <= 90 { (h + 32) as u8 } else { h };
            let ll = if 65 <= l <= 90 { (l + 32) as u8 } else { l };
            pair_value(hl, ll) == Some(b)
        }),
{
    lemma_lower_hex_char_value((b / 16) as int);
    lemma_lower_hex_char_value((b % 16) as int);
}

/// Bytes holding exactly the digit pairs of `c`, with no `#`, read back as
/// `c`.
proof fn lemma_reads_as(t: Seq<u8>, c: RgbaColor)
    requires
        t.len() == (if c.a == 255 { 6int } else { 8int }),
        t[0] != 35,
        forall|i: int| 0 <= i < t.len() ==> t[i] < 0x80,
        pair_value(t[0], t[1]) == Some(c.r),
        pair_value(t[2], t[3]) == Some(c.g),
        pair_value(t[4], t[5]) == Some(c.b),
        c.a != 255 ==> pair_value(t[6], t[7]) == Some(c.a),
    ensures
        !from_hex_panics(t),
        spec_from_hex(t) == Some(c),
{
    assert(trim_hashes(t) == t);
    assert(t[2] < 0x80 && t[4] < 0x80);
    if c.a != 255 {
        assert(t[6] < 0x80);
    }
}

/// The bytes of a colour's hex code: `#` and then the digit pairs.
proof fn lemma_hex_bytes(c: RgbaColor)
    ensures
        ({
            let b = vstd::utf8::encode_utf8(spec_to_hex(c));
            let ds = hex_pair(c.r) + hex_pair(c.g) + hex_pair(c.b) + (if c.a == 255 { Seq::<char>::empty() } else { hex_pair(c.a) });
            &&& b.len() == ds.len() + 1
            &&& b[0] == 35
            &&& forall|i: int| 0 <= i < ds.len() ==> #[trigger] b[i + 1] == ds[i] as u8
        }),
{
    let chars = spec_to_hex(c);
    let ds = hex_pair(c.r) + hex_pair(c.g) + hex_pair(c.b) + (if c.a == 255 { Seq::<char>::empty() } else { hex_pair(c.a) });
    assert(chars =~= seq!['#'] + ds);
    lemma_hex_char_value((c.r / 16) as int);
    lemma_hex_char_value((c.r % 16) as int);
    lemma_hex_char_value((c.g / 16) as int);
    lemma_hex_char_value((c.g % 16) as int);
    lemma_hex_char_value((c.b / 16) as int);
    lemma_hex_char_value((c.b % 16) as int);
    lemma_hex_char_value((c.a / 16) as int);
    lemma_hex_char_value((c.a % 16) as int);
    assert(vstd::utf8::is_ascii_chars(chars));
    vstd::utf8::is_ascii_chars_encode_utf8(chars);
    let b = vstd::utf8::encode_utf8(chars);
    assert(b[0] == chars[0] as u8);
    assert forall|i: int| 0 <= i < ds.len() implies #[trigger] b[i + 1] == ds[i] as u8 by {
        assert(chars[i + 1] == ds[i]);
        assert(b[i + 1] == chars[i + 1] as u8);
    }
}

/// Reading back a colour's hex code also gives the colour when the code is
/// written without its `#`, or with small letters, or both; none of these
/// readings splits a character.
pub proof fn law_hex_round_trip_variants(c: RgbaColor)
    ensures
        ({
            let bytes = vstd::utf8::encode_utf8(spec_to_hex(c));
            let t = bytes.drop_first();
            &&& !from_hex_panics(t) && spec_from_hex(t) == Some(c)
            &&& !from_hex_panics(ascii_lower(bytes)) && spec_from_hex(ascii_lower(bytes)) == Some(c)
            &&& !from_hex_panics(ascii_lower(t)) && spec_from_hex(ascii_lower(t)) == Some(c)
        }),
{
    lemma_hex_bytes(c);
    let bytes = vstd::utf8::encode_utf8(spec_to_hex(c));
    let ds = hex_pair(c.r) + hex_pair(c.g) + hex_pair(c.b) + (if c.a == 255 { Seq::<char>::empty() } else { hex_pair(c.a) });
    let t = bytes.drop_first();
    let lt = ascii_lower(t);
    let lb = ascii_lower(bytes);
    assert forall|i: int| 0 <= i < t.len() implies #[trigger] t[i] == ds[i] as u8 by {
        assert(t[i] == bytes[i + 1]);
    }
    let digits = seq![(c.r / 16) as int, (c.r % 16) as int, (c.g / 16) as int, (c.g % 16) as int,
        (c.b / 16) as int, (c.b % 16) as int, (c.a / 16) as int, (c.a % 16) as int];
    assert forall|i: int| 0 <= i < t.len() implies ds[i] == hex_char(#[trigger] digits[i]) by {}
    assert forall|i: int| 0 <= i < t.len() implies t[i] < 0x80 && lt[i] < 0x80 && t[i] != 35 && lt[i] != 35 by {
        lemma_hex_char_value(digits[i]);
        lemma_lower_hex_char_value(digits[i]);
    }
    lemma_pair_round_trip(c.r);
    lemma_pair_round_trip(c.g);
    lemma_pair_round_trip(c.b);
    lemma_pair_round_trip(c.a);
    lemma_lower_pair(c.r);
    lemma_lower_pair(c.g);
    lemma_lower_pair(c.b);
    lemma_lower_pair(c.a);
    lemma_reads_as(t, c);
    lemma_reads_as(lt, c);
    assert(lb[0] == 35);
    assert(lb.drop_first() =~= lt);
    assert(trim_hashes(lt) == lt);
    assert(trim_hashes(lb) == lt);
}

} // verus!
