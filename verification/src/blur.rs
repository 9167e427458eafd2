use vstd::prelude::*;
use crate::raster::{offset, col_of, row_of, chan_of, lemma_index_split, lemma_offset_split};

verus! {

/// Sum of `s[lo..hi]`.
pub open spec fn seq_sum(s: Seq<int>, lo: int, hi: int) -> int
    decreases hi - lo,
{
    if hi <= lo {
        0
    } else {
        seq_sum(s, lo, hi - 1) + s[hi - 1]
    }
}

/// First index of the window of radius `r` around `i`.
pub open spec fn win_lo(i: int, r: int) -> int {
    if i - r > 0 { i - r } else { 0 }
}

/// One past the last index of the window of radius `r` around `i` in a line
/// of `n` values.
pub open spec fn win_hi(n: int, i: int, r: int) -> int {
    if i + r + 1 < n { i + r + 1 } else { n }
}

/// The most values that the running sum of a window of radius `r` holds at
/// once in a line of `n` (the window one step wide before its first value
/// leaves).
pub open spec fn win_cap(n: int, r: int) -> int {
    if 2 * r + 2 < n { 2 * r + 2 } else { n }
}

/// Mean, rounded down, of the values of `s` within radius `r` of `i`,
/// clipped to the line.
pub open spec fn win_avg(s: Seq<int>, r: int, i: int) -> int {
    seq_sum(s, win_lo(i, r), win_hi(s.len() as int, i, r)) / (win_hi(s.len() as int, i, r) - win_lo(i, r))
}

/// Channel `c` of row `y` of a `w` pixel wide RGBA buffer.
pub open spec fn row_line(src: Seq<u8>, w: int, y: int, c: int) -> Seq<int> {
    Seq::new(w as nat, |x: int| src[offset(w, x, y, c)] as int)
}

/// The horizontal pass: channel `c` of pixel `(x, y)` averaged along its row.
pub open spec fn blur_h(src: Seq<u8>, w: int, r: int, x: int, y: int, c: int) -> int {
    win_avg(row_line(src, w, y, c), r, x)
}

/// Column `x`, channel `c` of the horizontal pass over `h` rows.
pub open spec fn col_line(src: Seq<u8>, w: int, h: int, r: int, x: int, c: int) -> Seq<int> {
    Seq::new(h as nat, |y: int| blur_h(src, w, r, x, y, c))
}

/// The vertical pass over the horizontal one.
pub open spec fn blur_hv(src: Seq<u8>, w: int, h: int, r: int, x: int, y: int, c: int) -> int {
    win_avg(col_line(src, w, h, r, x, c), r, y)
}

/// A separable box blur of radius `r` of a `w` by `h` RGBA buffer: each
/// channel is averaged (rounding down) over the clipped window of radius `r`
/// along its row, and the result is averaged the same way along its column.
pub open spec fn spec_box_blur(src: Seq<u8>, w: int, h: int, r: int) -> Seq<u8> {
    Seq::new((w * h * 4) as nat, |j: int| blur_hv(src, w, h, r, col_of(w, j), row_of(w, j), chan_of(j)) as u8)
}

proof fn lemma_sum_drop_first(s: Seq<int>, lo: int, hi: int)
    requires
        lo < hi,
    ensures
        seq_sum(s, lo, hi) == s[lo] + seq_sum(s, lo + 1, hi),
    decreases hi - lo,
{
    if lo + 1 < hi {
        lemma_sum_drop_first(s, lo, hi - 1);
        assert(seq_sum(s, lo + 1, hi) == seq_sum(s, lo + 1, hi - 1) + s[hi - 1]);
    } else {
        assert(seq_sum(s, lo, lo) == 0);
        assert(seq_sum(s, lo + 1, hi) == 0);
    }
}

proof fn lemma_sum_bound(s: Seq<int>, lo: int, hi: int, m: int)
    requires
        0 <= lo <= hi <= s.len(),
        0 <= m,
        forall|i: int| 0 <= i < s.len() ==> 0 <= #[trigger] s[i] <= m,
    ensures
        0 <= seq_sum(s, lo, hi) <= m * (hi - lo),
    decreases hi - lo,
{
    if lo < hi {
        lemma_sum_bound(s, lo, hi - 1, m);
        assert(m * (hi - 1 - lo) + m == m * (hi - lo)) by (nonlinear_arith);
        assert(seq_sum(s, lo, hi) == seq_sum(s, lo, hi - 1) + s[hi - 1]);
    }
}

proof fn lemma_avg_bound(total: int, cnt: int, m: int)
    requires
        0 < cnt,
        0 <= total <= m * cnt,
        0 <= m,
    ensures
        0 <= total / cnt <= m,
{
    assert(0 <= total / cnt <= m) by (nonlinear_arith)
        requires
            0 < cnt,
            0 <= total <= m * cnt,
            0 <= m,
    ;
}

/// Sliding-window means over one line of values.
fn box_line(vals: &Vec<u32>, r: usize) -> (out: Vec<u32>)
    requires
        0 < vals@.len(),
        255 * win_cap(vals@.len() as int, r as int) <= u32::MAX,
        r + vals@.len() <= usize::MAX,
        forall|i: int| 0 <= i < vals@.len() ==> vals@[i] <= 255,
    ensures
        out@.len() == vals@.len(),
        forall|i: int|
            0 <= i < vals@.len() ==> out@[i] == win_avg(vals@.map_values(|v: u32| v as int), r as int, i)
                && out@[i] <= 255,
{
    let n = vals.len();
    let ghost s = vals@.map_values(|v: u32| v as int);
    assert forall|i: int| 0 <= i < s.len() implies 0 <= #[trigger] s[i] <= 255 by {}
    let first_hi: usize = if r < n - 1 { r } else { n - 1 };
    let mut acc: u32 = 0;
    let mut k: usize = 0;
    while k <= first_hi
        invariant
            first_hi < n,
            n == vals@.len(),
            first_hi == win_hi(n as int, 0, r as int) - 1,
            255 * win_cap(n as int, r as int) <= u32::MAX,
            s == vals@.map_values(|v: u32| v as int),
            forall|i: int| 0 <= i < s.len() ==> 0 <= #[trigger] s[i] <= 255,
            k <= first_hi + 1,
            acc == seq_sum(s, 0, k as int),
        decreases first_hi + 1 - k,
    {
        proof {
            lemma_sum_bound(s, 0, k as int, 255);
            assert(255 * (k + 1) <= 255 * win_cap(n as int, r as int)) by (nonlinear_arith)
                requires
                    k + 1 <= win_cap(n as int, r as int),
            ;
        }
        assert(s[k as int] == vals@[k as int]);
        acc = acc + vals[k];
        k = k + 1;
    }
    let mut cnt: u32 = (first_hi + 1) as u32;
    let mut out: Vec<u32> = Vec::with_capacity(n);
    proof {
        lemma_sum_bound(s, 0, first_hi + 1, 255);
        lemma_avg_bound(acc as int, cnt as int, 255);
    }
    out.push(acc / cnt);
    let mut i: usize = 1;
    while i < n
        invariant
            1 <= i <= n,
            n == vals@.len(),
            255 * win_cap(n as int, r as int) <= u32::MAX,
            r + n <= usize::MAX,
            s == vals@.map_values(|v: u32| v as int),
            forall|q: int| 0 <= q < s.len() ==> 0 <= #[trigger] s[q] <= 255,
            acc == seq_sum(s, win_lo(i - 1, r as int), win_hi(n as int, i - 1, r as int)),
            cnt == win_hi(n as int, i - 1, r as int) - win_lo(i - 1, r as int),
            out@.len() == i,
            forall|q: int| 0 <= q < i ==> out@[q] == win_avg(s, r as int, q) && out@[q] <= 255,
        decreases n - i,
    {
        let ghost lo0 = win_lo(i - 1, r as int);
        let ghost hi0 = win_hi(n as int, i - 1, r as int);
        proof {
            lemma_sum_bound(s, lo0, hi0, 255);
            let hi1 = win_hi(n as int, i as int, r as int);
            assert(hi1 - lo0 <= win_cap(n as int, r as int));
            assert(255 * (hi1 - lo0) <= 255 * win_cap(n as int, r as int)) by (nonlinear_arith)
                requires
                    hi1 - lo0 <= win_cap(n as int, r as int),
            ;
            assert(255 * (hi0 - lo0) + 255 * (hi1 - hi0) == 255 * (hi1 - lo0)) by (nonlinear_arith);
        }
        if i + r < n {
            assert(s[(i + r) as int] == vals@[(i + r) as int]);
            acc = acc + vals[i + r];
            cnt = cnt + 1;
        }
        let ghost hi1 = win_hi(n as int, i as int, r as int);
        assert(acc == seq_sum(s, lo0, hi1));
        if i >= r + 1 {
            proof {
                lemma_sum_drop_first(s, lo0, hi1);
                lemma_sum_bound(s, lo0 + 1, hi1, 255);
                assert(s[lo0] == vals@[lo0]);
            }
            acc = acc - vals[i - r - 1];
            cnt = cnt - 1;
        }
        assert(acc == seq_sum(s, win_lo(i as int, r as int), hi1));
        proof {
            lemma_sum_bound(s, win_lo(i as int, r as int), hi1, 255);
            lemma_avg_bound(acc as int, cnt as int, 255);
        }
        out.push(acc / cnt);
        i = i + 1;
    }
    out
}

/// Blurs a `w` by `h` RGBA buffer with a box of radius `r`, first along the
/// rows and then along the columns, each pass keeping a running sum over the
/// window.
pub fn separable_box_blur_u8(src: &[u8], w: usize, h: usize, r: usize) -> (dst: Vec<u8>)
    requires
        src@.len() >= w * h * 4,
        (w == 0) == (h == 0),
        w * h * 4 <= usize::MAX,
        r + w <= usize::MAX,
        r + h <= usize::MAX,
        255 * win_cap(w as int, r as int) <= u32::MAX,
        255 * win_cap(h as int, r as int) <= u32::MAX,
    ensures
        dst@ == spec_box_blur(src@, w as int, h as int, r as int),
{
    if w == 0 {
        let dst: Vec<u8> = Vec::new();
        assert(dst@ =~= spec_box_blur(src@, w as int, h as int, r as int));
        return dst;
    }
    proof {
        assert(w * h <= w * h * 4) by (nonlinear_arith)
            requires
                w > 0,
                h > 0,
        ;
        assert(4 * h <= w * h * 4 && 4 * w <= w * h * 4) by (nonlinear_arith)
            requires
                w > 0,
                h > 0,
        ;
    }
    // Horizontal pass: one line per (channel, row), in channel-major order.
    let mut rows: Vec<Vec<u32>> = Vec::new();
    let mut k: usize = 0;
    while k < 4 * h
        invariant
            0 < w,
            0 < h,
            4 * h <= usize::MAX,
            src@.len() >= w * h * 4,
            w * h * 4 <= usize::MAX,
            r + w <= usize::MAX,
            255 * win_cap(w as int, r as int) <= u32::MAX,
            k <= 4 * h,
            rows@.len() == k,
            forall|q: int, x: int|
                0 <= q < k && 0 <= x < w ==> (#[trigger] rows@[q]@[x]) == blur_h(
                    src@,
                    w as int,
                    r as int,
                    x,
                    q % (h as int),
                    q / (h as int),
                ),
            forall|q: int| 0 <= q < k ==> (#[trigger] rows@[q]@).len() == w,
            forall|q: int, x: int| 0 <= q < k && 0 <= x < w ==> (#[trigger] rows@[q]@[x]) <= 255,
        decreases 4 * h - k,
    {
        let c = k / h;
        let y = k % h;
        proof {
            assert(c < 4) by (nonlinear_arith)
                requires
                    k < 4 * h,
                    c == k / h,
                    h > 0,
            ;
        }
        let mut line: Vec<u32> = Vec::with_capacity(w);
        let mut x: usize = 0;
        while x < w
            invariant
                0 < w,
                0 < h,
                c < 4,
                y < h,
                src@.len() >= w * h * 4,
                w * h * 4 <= usize::MAX,
                x <= w,
                line@.len() == x,
                forall|q: int| 0 <= q < x ==> #[trigger] line@[q] == src@[offset(w as int, q, y as int, c as int)],
            decreases w - x,
        {
            proof {
                lemma_offset_split(w as int, h as int, x as int, y as int, c as int);
            }
            line.push(src[(y * w + x) * 4 + c] as u32);
            x = x + 1;
        }
        let out = box_line(&line, r);
        proof {
            assert(line@.map_values(|v: u32| v as int) =~= row_line(src@, w as int, y as int, c as int));
        }
        rows.push(out);
        k = k + 1;
    }
    // Vertical pass: one line per (channel, column), in channel-major order.
    let mut cols: Vec<Vec<u32>> = Vec::new();
    let mut k: usize = 0;
    while k < 4 * w
        invariant
            0 < w,
            0 < h,
            4 * w <= usize::MAX,
            4 * h <= usize::MAX,
            r + h <= usize::MAX,
            255 * win_cap(h as int, r as int) <= u32::MAX,
            rows@.len() == 4 * h,
            forall|q: int, x: int|
                0 <= q < 4 * h && 0 <= x < w ==> (#[trigger] rows@[q]@[x]) == blur_h(
                    src@,
                    w as int,
                    r as int,
                    x,
                    q % (h as int),
                    q / (h as int),
                ),
            forall|q: int| 0 <= q < 4 * h ==> (#[trigger] rows@[q]@).len() == w,
            forall|q: int, x: int| 0 <= q < 4 * h && 0 <= x < w ==> (#[trigger] rows@[q]@[x]) <= 255,
            k <= 4 * w,
            cols@.len() == k,
            forall|q: int| 0 <= q < k ==> (#[trigger] cols@[q]@).len() == h,
            forall|q: int, y: int|
                0 <= q < k && 0 <= y < h ==> (#[trigger] cols@[q]@[y]) == blur_hv(
                    src@,
                    w as int,
                    h as int,
                    r as int,
                    q % (w as int),
                    y,
                    q / (w as int),
                ) && cols@[q]@[y] <= 255,
        decreases 4 * w - k,
    {
        let c = k / w;
        let x = k % w;
        proof {
            assert(c < 4) by (nonlinear_arith)
                requires
                    k < 4 * w,
                    c == k / w,
                    w > 0,
            ;
        }
        let mut line: Vec<u32> = Vec::with_capacity(h);
        let mut y: usize = 0;
        while y < h
            invariant
                0 < w,
                0 < h,
                c < 4,
                x < w,
                4 * h <= usize::MAX,
                rows@.len() == 4 * h,
                forall|q: int| 0 <= q < 4 * h ==> (#[trigger] rows@[q]@).len() == w,
                forall|q: int, xx: int|
                    0 <= q < 4 * h && 0 <= xx < w ==> (#[trigger] rows@[q]@[xx]) == blur_h(
                        src@,
                        w as int,
                        r as int,
                        xx,
                        q % (h as int),
                        q / (h as int),
                    ),
                forall|q: int, xx: int| 0 <= q < 4 * h && 0 <= xx < w ==> (#[trigger] rows@[q]@[xx]) <= 255,
                y <= h,
                line@.len() == y,
                forall|q: int|
                    0 <= q < y ==> #[trigger] line@[q] == blur_h(src@, w as int, r as int, x as int, q, c as int)
                        && line@[q] <= 255,
            decreases h - y,
        {
            proof {
                lemma_line_index(h as int, c as int, y as int);
            }
            let row = &rows[c * h + y];
            line.push(row[x]);
            y = y + 1;
        }
        let out = box_line(&line, r);
        proof {
            assert(line@.map_values(|v: u32| v as int) =~= col_line(src@, w as int, h as int, r as int, x as int, c as int));
            lemma_line_index(w as int, c as int, x as int);
        }
        cols.push(out);
        k = k + 1;
    }
    // Gather the columns back into row-major RGBA order.
    let n = w * h * 4;
    let mut dst: Vec<u8> = Vec::with_capacity(n);
    let mut j: usize = 0;
    while j < n
        invariant
            0 < w,
            0 < h,
            n == w * h * 4,
            4 * w <= usize::MAX,
            cols@.len() == 4 * w,
            forall|q: int| 0 <= q < 4 * w ==> (#[trigger] cols@[q]@).len() == h,
            forall|q: int, y: int|
                0 <= q < 4 * w && 0 <= y < h ==> (#[trigger] cols@[q]@[y]) == blur_hv(
                    src@,
                    w as int,
                    h as int,
                    r as int,
                    q % (w as int),
                    y,
                    q / (w as int),
                ) && cols@[q]@[y] <= 255,
            j <= n,
            dst@.len() == j,
            forall|q: int| 0 <= q < j ==> #[trigger] dst@[q] == spec_box_blur(src@, w as int, h as int, r as int)[q],
        decreases n - j,
    {
        proof {
            lemma_index_split(w as int, h as int, j as int);
            lemma_line_index(w as int, chan_of(j as int), col_of(w as int, j as int));
        }
        let p = j / 4;
        let x = p % w;
        let y = p / w;
        let c = j % 4;
        let col = &cols[c * w + x];
        dst.push(col[y] as u8);
        j = j + 1;
    }
    assert(dst@ =~= spec_box_blur(src@, w as int, h as int, r as int));
    dst
}

/// Line `c * n + i` of a channel-major list of lines is line `i` of channel
/// `c`.
proof fn lemma_line_index(n: int, c: int, i: int)
    requires
        0 < n,
        0 <= c < 4,
        0 <= i < n,
    ensures
        0 <= c * n + i < 4 * n,
        (c * n + i) % n == i,
        (c * n + i) / n == c,
{
    assert(0 <= c * n + i < 4 * n) by (nonlinear_arith)
        requires
            0 < n,
            0 <= c < 4,
            0 <= i < n,
    ;
    vstd::arithmetic::div_mod::lemma_fundamental_div_mod_converse(c * n + i, n, c, i);
}

} // verus!
