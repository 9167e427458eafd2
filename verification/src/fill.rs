use vstd::prelude::*;
use vstd::arithmetic::div_mod::lemma_fundamental_div_mod_converse;
use crate::raster::{RasterView, RgbaImage, offset, col_of, row_of, chan_of, lemma_index_split, lemma_offset_split};

verus! {

/// The largest summed channel difference at which a pixel still counts as
/// the colour that the fill started on.
pub const FILL_TOLERANCE: u32 = 30;

/// Absolute difference of two channel values.
pub open spec fn channel_gap(a: u8, b: u8) -> int {
    if a >= b { a - b } else { b - a }
}

/// Summed channel difference between pixel `(x, y)` and the colour `t`.
pub open spec fn fill_distance(v: RasterView, x: int, y: int, t: Seq<u8>) -> int {
    channel_gap(v.px(x, y, 0), t[0]) + channel_gap(v.px(x, y, 1), t[1])
        + channel_gap(v.px(x, y, 2), t[2]) + channel_gap(v.px(x, y, 3), t[3])
}

/// Pixel `(x, y)` lies in the raster and is close enough to `t` to be filled.
pub open spec fn fill_similar(v: RasterView, t: Seq<u8>, x: int, y: int) -> bool {
    &&& 0 <= x < v.width
    &&& 0 <= y < v.height
    &&& fill_distance(v, x, y, t) <= FILL_TOLERANCE
}

/// The two pixels share an edge.
pub open spec fn neighbours(a: (int, int), b: (int, int)) -> bool {
    ||| a.0 == b.0 && (a.1 == b.1 + 1 || b.1 == a.1 + 1)
    ||| a.1 == b.1 && (a.0 == b.0 + 1 || b.0 == a.0 + 1)
}

/// A walk from edge to edge through pixels that are all close to `t`.
pub open spec fn is_fill_path(v: RasterView, t: Seq<u8>, path: Seq<(int, int)>) -> bool {
    &&& path.len() > 0
    &&& forall|i: int| 0 <= i < path.len() ==> fill_similar(v, t, #[trigger] path[i].0, path[i].1)
    &&& forall|i: int| 0 <= i < path.len() - 1 ==> neighbours(#[trigger] path[i], path[i + 1])
}

/// Pixel `p` can be reached from `s` through pixels close to `t`.
pub open spec fn in_fill_region(v: RasterView, t: Seq<u8>, s: (int, int), p: (int, int)) -> bool {
    exists|path: Seq<(int, int)>| #[trigger] is_fill_path(v, t, path) && path[0] == s && path.last() == p
}

/// The four channels of pixel `(x, y)`.
pub open spec fn pixel_of(v: RasterView, x: int, y: int) -> Seq<u8> {
    seq![v.px(x, y, 0), v.px(x, y, 1), v.px(x, y, 2), v.px(x, y, 3)]
}

/// The raster after a flood fill with colour `fill` started at `(sx, sy)`:
/// every pixel connected to the start through pixels within the tolerance of
/// the start colour takes the fill colour; nothing changes when the start
/// already has the fill colour.
pub open spec fn spec_flood_fill(v: RasterView, sx: int, sy: int, fill: Seq<u8>) -> RasterView {
    let t = pixel_of(v, sx, sy);
    let w = v.width as int;
    if t == fill {
        v
    } else {
        RasterView {
            width: v.width,
            height: v.height,
            data: Seq::new(
                v.len(),
                |j: int|
                    if in_fill_region(v, t, (sx, sy), (col_of(w, j), row_of(w, j))) {
                        fill[chan_of(j)]
                    } else {
                        v.data[j]
                    },
            ),
        }
    }
}

/// Index of pixel `(x, y)` in a row-major table of `w` columns.
pub open spec fn pidx(w: int, x: int, y: int) -> int {
    y * w + x
}

proof fn lemma_pixel_index_range(w: int, h: int)
    ensures
        forall|x: int, y: int| 0 <= x < w && 0 <= y < h ==> 0 <= #[trigger] pidx(w, x, y) < w * h,
{
    assert forall|x: int, y: int| 0 <= x < w && 0 <= y < h implies 0 <= #[trigger] pidx(w, x, y) < w * h by {
        lemma_pixel_index(w, h, x, y);
    }
}

spec fn count_marked(s: Seq<bool>) -> nat
    decreases s.len(),
{
    if s.len() == 0 {
        0
    } else {
        count_marked(s.drop_last()) + if s.last() { 1nat } else { 0nat }
    }
}

proof fn lemma_count_bound(s: Seq<bool>)
    ensures
        count_marked(s) <= s.len(),
    decreases s.len(),
{
    if s.len() > 0 {
        lemma_count_bound(s.drop_last());
    }
}

proof fn lemma_count_mark(s: Seq<bool>, i: int)
    requires
        0 <= i < s.len(),
        !s[i],
    ensures
        count_marked(s.update(i, true)) == count_marked(s) + 1,
    decreases s.len(),
{
    let u = s.update(i, true);
    if i == s.len() - 1 {
        assert(u.drop_last() =~= s.drop_last());
    } else {
        assert(u.drop_last() =~= s.drop_last().update(i, true));
        lemma_count_mark(s.drop_last(), i);
    }
}

/// Every pixel of a walk from the start is marked once the marked set is
/// closed under stepping to close neighbours.
proof fn lemma_closed_covers(
    v: RasterView,
    t: Seq<u8>,
    s: (int, int),
    marked: Seq<bool>,
    path: Seq<(int, int)>,
    k: int,
)
    requires
        v.wf(),
        marked.len() == v.width * v.height,
        is_fill_path(v, t, path),
        path[0] == s,
        marked[pidx(v.width as int, s.0, s.1)],
        forall|x: int, y: int, nx: int, ny: int|
            #![trigger marked[pidx(v.width as int, x, y)], marked[pidx(v.width as int, nx, ny)]]
            0 <= x < v.width && 0 <= y < v.height && marked[pidx(v.width as int, x, y)]
                && fill_similar(v, t, x, y) && 0 <= nx < v.width && 0 <= ny < v.height
                && neighbours((x, y), (nx, ny)) ==> marked[pidx(v.width as int, nx, ny)],
        0 <= k < path.len(),
    ensures
        marked[pidx(v.width as int, path[k].0, path[k].1)],
    decreases k,
{
    if k > 0 {
        lemma_closed_covers(v, t, s, marked, path, k - 1);
        let a = path[k - 1];
        let b = path[k];
        assert(fill_similar(v, t, a.0, a.1));
        assert(fill_similar(v, t, b.0, b.1));
        assert(neighbours(a, b));
        assert(marked[pidx(v.width as int, a.0, a.1)]);
    }
}

/// Whether the queued pixel `q` has been justified: it is the start, or it
/// touches a pixel already known to be in the region.
spec fn queued_ok(v: RasterView, t: Seq<u8>, s: (int, int), q: (u32, u32)) -> bool {
    ||| (q.0 as int, q.1 as int) == s
    ||| exists|r: (int, int)| neighbours(r, (q.0 as int, q.1 as int)) && #[trigger] in_fill_region(v, t, s, r)
}

spec fn queued(stack: Seq<(u32, u32)>, x: int, y: int) -> bool {
    stack.contains((x as u32, y as u32))
}

fn gap(a: u8, b: u8) -> (r: u32)
    ensures
        r == channel_gap(a, b),
{
    if a >= b { (a - b) as u32 } else { (b - a) as u32 }
}

/// Fills the region of pixels connected to `(sx, sy)` whose colour lies
/// within the tolerance of the start pixel's colour.
#[verifier::rlimit(60)]
pub fn flood_fill_pixels(img: &mut RgbaImage, sx: u32, sy: u32, fill: [u8; 4])
    requires
        sx < old(img)@.width,
        sy < old(img)@.height,
        old(img)@.width * old(img)@.height <= u32::MAX,
    ensures
        final(img)@ == spec_flood_fill(old(img)@, sx as int, sy as int, fill@),
{
    img.well_formed();
    let ghost orig = img@;
    let w = img.width();
    let h = img.height();
    let target = img.get_pixel(sx, sy);
    let ghost t = pixel_of(orig, sx as int, sy as int);
    assert(target@ =~= t);
    if target[0] == fill[0] && target[1] == fill[1] && target[2] == fill[2] && target[3] == fill[3] {
        assert(t =~= fill@);
        return;
    }
    assert(t != fill@);
    let ghost s: (int, int) = (sx as int, sy as int);
    let n = (w * h) as usize;
    let mut visited: Vec<bool> = Vec::with_capacity(n);
    let mut i: usize = 0;
    while i < n
        invariant
            i <= n,
            visited@.len() == i,
            forall|k: int| 0 <= k < i ==> !visited@[k],
        decreases n - i,
    {
        visited.push(false);
        i = i + 1;
    }
    assert(visited@ =~= Seq::new(n as nat, |k: int| false));
    proof {
        lemma_pixel_index_range(w as int, h as int);
    }
    proof {
        assert(count_marked(visited@) == 0) by {
            lemma_count_zero(visited@);
        }
    }
    let mut stack: Vec<(u32, u32)> = Vec::new();
    stack.push((sx, sy));
    let ghost mut marked: nat = 0;
    assert(fill_similar(orig, t, sx as int, sy as int));
    assert(stack@[0] == (sx, sy));
    proof {
        reveal(walk_queue);
        reveal(walk_pixels);
        reveal(walk_sound);
        reveal(walk_closed);
        assert(stack@.contains((sx, sy)));
        assert forall|x: int, y: int, c: int|
            #![trigger img@.px(x, y, c)]
            0 <= x < w && 0 <= y < h && 0 <= c < 4 implies img@.px(x, y, c) == (if visited@[pidx(w as int, x, y)]
                && fill_similar(orig, t, x, y) {
                fill@[c]
            } else {
                orig.px(x, y, c)
            }) by {
            assert(!visited@[pidx(w as int, x, y)]);
        }
        assert(walk_inv(orig, t, s, fill@, img@, visited@, stack@));
    }
    while stack.len() > 0
        invariant
            img@.width == orig.width,
            img@.height == orig.height,
            orig.wf(),
            w == orig.width,
            h == orig.height,
            w * h <= u32::MAX,
            n == w * h,
            sx < w,
            sy < h,
            s == (sx as int, sy as int),
            t == pixel_of(orig, sx as int, sy as int),
            t != fill@,
            target@ == t,
            fill_similar(orig, t, sx as int, sy as int),
            visited@.len() == n,
            marked == count_marked(visited@),
            marked <= n,
            walk_inv(orig, t, s, fill@, img@, visited@, stack@),
        decreases (n - marked) * 5 + stack@.len(),
    {
        img.well_formed();
        let ghost old_stack = stack@;
        let ghost old_visited = visited@;
        let ghost old_img = img@;
        let (x, y) = stack.pop().unwrap();
        proof {
            assert(old_stack[old_stack.len() - 1] == (x, y));
            assert(stack@ =~= old_stack.drop_last());
            lemma_stack_bound(orig, t, s, fill@, old_img, old_visited, old_stack, old_stack.len() - 1);
            lemma_pixel_index(w as int, h as int, x as int, y as int);
            assert(y * w + x < w * h) by (nonlinear_arith)
                requires
                    x < w,
                    y < h,
            ;
        }
        let idx = (y * w + x) as usize;
        if visited[idx] {
            proof {
                lemma_step_seen(orig, t, s, fill@, img@, visited@, old_stack, stack@, x, y);
            }
            continue;
        }
        visited.set(idx, true);
        proof {
            marked = marked + 1;
            lemma_count_mark(old_visited, idx as int);
            lemma_count_bound(visited@);
        }
        let cur = img.get_pixel(x, y);
        let dist = gap(cur[0], target[0]) + gap(cur[1], target[1]) + gap(cur[2], target[2]) + gap(cur[3], target[3]);
        proof {
            lemma_unvisited_is_orig(orig, t, s, fill@, old_img, old_visited, old_stack, x as int, y as int);
            assert(dist == fill_distance(orig, x as int, y as int, t));
        }
        if dist > FILL_TOLERANCE {
            proof {
                lemma_step_mark(orig, t, s, fill@, img@, old_visited, visited@, old_stack, stack@, x, y);
            }
            continue;
        }
        img.put_pixel(x, y, fill);
        proof {
            lemma_put_pixel_view(old_img, img@, x as int, y as int, fill@);
        }
        let ghost mid_stack = stack@;
        if x > 0 {
            stack.push((x - 1, y));
        }
        let ghost s1 = stack@;
        if x + 1 < w {
            stack.push((x + 1, y));
        }
        let ghost s2 = stack@;
        if y > 0 {
            stack.push((x, y - 1));
        }
        let ghost s3 = stack@;
        if y + 1 < h {
            stack.push((x, y + 1));
        }
        proof {
            lemma_pushes(w as int, h as int, x, y, mid_stack, s1, s2, s3, stack@);
            lemma_step_fill(orig, t, s, fill@, old_img, img@, old_visited, visited@, old_stack, mid_stack, stack@, x, y);
        }
    }
    img.well_formed();
    proof {
        assert(stack@.len() == 0);
        reveal(walk_pixels);
        reveal(walk_sound);
        reveal(walk_closed);
        assert forall|x: int, y: int, nx: int, ny: int|
            #![trigger visited@[pidx(w as int, x, y)], visited@[pidx(w as int, nx, ny)]]
            0 <= x < w && 0 <= y < h && visited@[pidx(w as int, x, y)] && fill_similar(orig, t, x, y)
                && 0 <= nx < w && 0 <= ny < h && neighbours((x, y), (nx, ny))
                implies visited@[pidx(w as int, nx, ny)] by {
            assert(!stack@.contains((nx as u32, ny as u32)));
        }
        assert(!stack@.contains((sx, sy)));
        lemma_finish(orig, img@, t, s, fill@, visited@, w as int, h as int);
    }
}

/// Every queued pixel lies in the raster and is justified.
#[verifier::opaque]
spec fn walk_queue(orig: RasterView, t: Seq<u8>, s: (int, int), stack: Seq<(u32, u32)>) -> bool {
    forall|k: int|
        0 <= k < stack.len() ==> (#[trigger] stack[k]).0 < orig.width && stack[k].1 < orig.height
            && queued_ok(orig, t, s, stack[k])
}

/// The raster holds the fill colour exactly at the marked close pixels.
#[verifier::opaque]
spec fn walk_pixels(orig: RasterView, t: Seq<u8>, fill: Seq<u8>, cur: RasterView, visited: Seq<bool>) -> bool {
    let w = orig.width as int;
    let h = orig.height as int;
    forall|x: int, y: int, c: int|
        #![trigger cur.px(x, y, c)]
        0 <= x < w && 0 <= y < h && 0 <= c < 4 ==> cur.px(x, y, c) == if visited[pidx(w, x, y)]
            && fill_similar(orig, t, x, y) {
            fill[c]
        } else {
            orig.px(x, y, c)
        }
}

/// Every marked close pixel is in the region.
#[verifier::opaque]
spec fn walk_sound(orig: RasterView, t: Seq<u8>, s: (int, int), visited: Seq<bool>) -> bool {
    let w = orig.width as int;
    let h = orig.height as int;
    forall|x: int, y: int|
        #![trigger visited[pidx(w, x, y)]]
        0 <= x < w && 0 <= y < h && visited[pidx(w, x, y)] && fill_similar(orig, t, x, y)
            ==> in_fill_region(orig, t, s, (x, y))
}

/// Every neighbour of a marked close pixel is marked or queued, and so is
/// the start.
#[verifier::opaque]
spec fn walk_closed(orig: RasterView, t: Seq<u8>, s: (int, int), visited: Seq<bool>, stack: Seq<(u32, u32)>) -> bool {
    let w = orig.width as int;
    let h = orig.height as int;
    &&& forall|x: int, y: int, nx: int, ny: int|
        #![trigger visited[pidx(w, x, y)], visited[pidx(w, nx, ny)]]
        0 <= x < w && 0 <= y < h && visited[pidx(w, x, y)] && fill_similar(orig, t, x, y)
            && 0 <= nx < w && 0 <= ny < h && neighbours((x, y), (nx, ny))
            ==> visited[pidx(w, nx, ny)] || stack.contains((nx as u32, ny as u32))
    &&& visited[pidx(w, s.0, s.1)] || stack.contains((s.0 as u32, s.1 as u32))
}

/// The facts that the walk keeps about the raster, the marks and the queue.
spec fn walk_inv(
    orig: RasterView,
    t: Seq<u8>,
    s: (int, int),
    fill: Seq<u8>,
    cur: RasterView,
    visited: Seq<bool>,
    stack: Seq<(u32, u32)>,
) -> bool {
    &&& orig.width <= u32::MAX
    &&& orig.height <= u32::MAX
    &&& walk_queue(orig, t, s, stack)
    &&& walk_pixels(orig, t, fill, cur, visited)
    &&& walk_sound(orig, t, s, visited)
    &&& walk_closed(orig, t, s, visited, stack)
}

proof fn lemma_stack_bound(
    orig: RasterView,
    t: Seq<u8>,
    s: (int, int),
    fill: Seq<u8>,
    cur: RasterView,
    visited: Seq<bool>,
    stack: Seq<(u32, u32)>,
    k: int,
)
    requires
        walk_inv(orig, t, s, fill, cur, visited, stack),
        0 <= k < stack.len(),
    ensures
        stack[k].0 < orig.width,
        stack[k].1 < orig.height,
        queued_ok(orig, t, s, stack[k]),
{
    reveal(walk_queue);
}

proof fn lemma_unvisited_is_orig(
    orig: RasterView,
    t: Seq<u8>,
    s: (int, int),
    fill: Seq<u8>,
    cur: RasterView,
    visited: Seq<bool>,
    stack: Seq<(u32, u32)>,
    x: int,
    y: int,
)
    requires
        walk_inv(orig, t, s, fill, cur, visited, stack),
        0 <= x < orig.width,
        0 <= y < orig.height,
        !visited[pidx(orig.width as int, x, y)],
    ensures
        forall|c: int| 0 <= c < 4 ==> #[trigger] cur.px(x, y, c) == orig.px(x, y, c),
{
    reveal(walk_pixels);
}

proof fn lemma_queue_pop(orig: RasterView, t: Seq<u8>, s: (int, int), old_stack: Seq<(u32, u32)>, new_stack: Seq<(u32, u32)>)
    requires
        walk_queue(orig, t, s, old_stack),
        old_stack.len() > 0,
        new_stack == old_stack.drop_last(),
    ensures
        walk_queue(orig, t, s, new_stack),
{
    reveal(walk_queue);
    assert forall|k: int| 0 <= k < new_stack.len() implies (#[trigger] new_stack[k]).0 < orig.width && new_stack[k].1
        < orig.height && queued_ok(orig, t, s, new_stack[k]) by {
        assert(new_stack[k] == old_stack[k]);
    }
}

proof fn lemma_closed_pop(
    orig: RasterView,
    t: Seq<u8>,
    s: (int, int),
    old_visited: Seq<bool>,
    new_visited: Seq<bool>,
    old_stack: Seq<(u32, u32)>,
    new_stack: Seq<(u32, u32)>,
    x: u32,
    y: u32,
)
    requires
        walk_closed(orig, t, s, old_visited, old_stack),
        orig.width <= u32::MAX,
        orig.height <= u32::MAX,
        old_visited.len() == orig.width * orig.height,
        old_stack.len() > 0,
        old_stack.last() == (x, y),
        new_stack == old_stack.drop_last(),
        x < orig.width,
        y < orig.height,
        new_visited == old_visited.update(pidx(orig.width as int, x as int, y as int), true),
        0 <= s.0 < orig.width,
        0 <= s.1 < orig.height,
    ensures
        forall|xx: int, yy: int, nx: int, ny: int|
            #![trigger new_visited[pidx(orig.width as int, xx, yy)], new_visited[pidx(orig.width as int, nx, ny)]]
            0 <= xx < orig.width && 0 <= yy < orig.height && new_visited[pidx(orig.width as int, xx, yy)]
                && fill_similar(orig, t, xx, yy) && 0 <= nx < orig.width && 0 <= ny < orig.height
                && neighbours((xx, yy), (nx, ny)) && !(xx == x && yy == y)
                ==> new_visited[pidx(orig.width as int, nx, ny)] || new_stack.contains((nx as u32, ny as u32)),
        new_visited[pidx(orig.width as int, s.0, s.1)] || new_stack.contains((s.0 as u32, s.1 as u32)),
{
    reveal(walk_closed);
    let w = orig.width as int;
    let h = orig.height as int;
    lemma_pop_keeps(old_stack, new_stack);
    lemma_mark_one(w, h, x as int, y as int, old_visited, new_visited);
    assert forall|xx: int, yy: int, nx: int, ny: int|
        #![trigger new_visited[pidx(w, xx, yy)], new_visited[pidx(w, nx, ny)]]
        0 <= xx < w && 0 <= yy < h && new_visited[pidx(w, xx, yy)] && fill_similar(orig, t, xx, yy)
            && 0 <= nx < w && 0 <= ny < h && neighbours((xx, yy), (nx, ny)) && !(xx == x && yy == y)
            implies new_visited[pidx(w, nx, ny)] || new_stack.contains((nx as u32, ny as u32)) by {
        assert(old_visited[pidx(w, xx, yy)]);
        if !new_visited[pidx(w, nx, ny)] {
            assert(!old_visited[pidx(w, nx, ny)]);
            assert(old_stack.contains((nx as u32, ny as u32)));
        }
    }
    if !new_visited[pidx(w, s.0, s.1)] {
        assert(!old_visited[pidx(w, s.0, s.1)]);
        assert(old_stack.contains((s.0 as u32, s.1 as u32)));
    }
}

proof fn lemma_step_seen(
    orig: RasterView,
    t: Seq<u8>,
    s: (int, int),
    fill: Seq<u8>,
    cur: RasterView,
    visited: Seq<bool>,
    old_stack: Seq<(u32, u32)>,
    new_stack: Seq<(u32, u32)>,
    x: u32,
    y: u32,
)
    requires
        0 <= s.0 < orig.width,
        0 <= s.1 < orig.height,
        walk_inv(orig, t, s, fill, cur, visited, old_stack),
        visited.len() == orig.width * orig.height,
        old_stack.len() > 0,
        old_stack.last() == (x, y),
        new_stack == old_stack.drop_last(),
        x < orig.width,
        y < orig.height,
        visited[pidx(orig.width as int, x as int, y as int)],
    ensures
        walk_inv(orig, t, s, fill, cur, visited, new_stack),
{
    lemma_queue_pop(orig, t, s, old_stack, new_stack);
    lemma_pixel_index(orig.width as int, orig.height as int, x as int, y as int);
    assert(visited.update(pidx(orig.width as int, x as int, y as int), true) =~= visited);
    lemma_closed_pop(orig, t, s, visited, visited, old_stack, new_stack, x, y);
    reveal(walk_closed);
    let w = orig.width as int;
    let h = orig.height as int;
    assert forall|xx: int, yy: int, nx: int, ny: int|
        #![trigger visited[pidx(w, xx, yy)], visited[pidx(w, nx, ny)]]
        0 <= xx < w && 0 <= yy < h && visited[pidx(w, xx, yy)] && fill_similar(orig, t, xx, yy)
            && 0 <= nx < w && 0 <= ny < h && neighbours((xx, yy), (nx, ny))
            implies visited[pidx(w, nx, ny)] || new_stack.contains((nx as u32, ny as u32)) by {
        if xx == x && yy == y {
            lemma_pop_keeps(old_stack, new_stack);
            if !visited[pidx(w, nx, ny)] {
                assert(old_stack.contains((nx as u32, ny as u32)));
                assert((nx as u32, ny as u32) != (x, y));
            }
        }
    }
}

proof fn lemma_step_mark(
    orig: RasterView,
    t: Seq<u8>,
    s: (int, int),
    fill: Seq<u8>,
    cur: RasterView,
    old_visited: Seq<bool>,
    new_visited: Seq<bool>,
    old_stack: Seq<(u32, u32)>,
    new_stack: Seq<(u32, u32)>,
    x: u32,
    y: u32,
)
    requires
        0 <= s.0 < orig.width,
        0 <= s.1 < orig.height,
        walk_inv(orig, t, s, fill, cur, old_visited, old_stack),
        old_visited.len() == orig.width * orig.height,
        old_stack.len() > 0,
        old_stack.last() == (x, y),
        new_stack == old_stack.drop_last(),
        x < orig.width,
        y < orig.height,
        new_visited == old_visited.update(pidx(orig.width as int, x as int, y as int), true),
        !fill_similar(orig, t, x as int, y as int),
    ensures
        walk_inv(orig, t, s, fill, cur, new_visited, new_stack),
{
    let w = orig.width as int;
    let h = orig.height as int;
    lemma_queue_pop(orig, t, s, old_stack, new_stack);
    lemma_closed_pop(orig, t, s, old_visited, new_visited, old_stack, new_stack, x, y);
    lemma_mark_one(w, h, x as int, y as int, old_visited, new_visited);
    assert(walk_pixels(orig, t, fill, cur, new_visited)) by {
        reveal(walk_pixels);
        assert forall|xx: int, yy: int, c: int|
            #![trigger cur.px(xx, yy, c)]
            0 <= xx < w && 0 <= yy < h && 0 <= c < 4 implies cur.px(xx, yy, c) == (if new_visited[pidx(w, xx, yy)]
                && fill_similar(orig, t, xx, yy) {
                fill[c]
            } else {
                orig.px(xx, yy, c)
            }) by {
            assert(new_visited[pidx(w, xx, yy)] == (old_visited[pidx(w, xx, yy)] || (xx == x && yy == y)));
        }
    }
    assert(walk_sound(orig, t, s, new_visited)) by {
        reveal(walk_sound);
        assert forall|xx: int, yy: int|
            #![trigger new_visited[pidx(w, xx, yy)]]
            0 <= xx < w && 0 <= yy < h && new_visited[pidx(w, xx, yy)] && fill_similar(orig, t, xx, yy)
                implies in_fill_region(orig, t, s, (xx, yy)) by {
            assert(old_visited[pidx(w, xx, yy)]);
        }
    }
    assert(walk_closed(orig, t, s, new_visited, new_stack)) by {
        reveal(walk_closed);
        assert forall|xx: int, yy: int, nx: int, ny: int|
            #![trigger new_visited[pidx(w, xx, yy)], new_visited[pidx(w, nx, ny)]]
            0 <= xx < w && 0 <= yy < h && new_visited[pidx(w, xx, yy)] && fill_similar(orig, t, xx, yy)
                && 0 <= nx < w && 0 <= ny < h && neighbours((xx, yy), (nx, ny))
                implies new_visited[pidx(w, nx, ny)] || new_stack.contains((nx as u32, ny as u32)) by {
            if !(xx == x && yy == y) {
            }
        }
    }
}

/// The conditional pushes of the four neighbours of `(x, y)`.
proof fn lemma_pushes(
    w: int,
    h: int,
    x: u32,
    y: u32,
    mid: Seq<(u32, u32)>,
    s1: Seq<(u32, u32)>,
    s2: Seq<(u32, u32)>,
    s3: Seq<(u32, u32)>,
    s4: Seq<(u32, u32)>,
)
    requires
        x < w,
        y < h,
        w <= u32::MAX,
        h <= u32::MAX,
        s1 == (if x > 0 { mid.push(((x - 1) as u32, y)) } else { mid }),
        s2 == (if x + 1 < w { s1.push(((x + 1) as u32, y)) } else { s1 }),
        s3 == (if y > 0 { s2.push((x, (y - 1) as u32)) } else { s2 }),
        s4 == (if y + 1 < h { s3.push((x, (y + 1) as u32)) } else { s3 }),
    ensures
        mid.len() <= s4.len() <= mid.len() + 4,
        forall|k: int| 0 <= k < mid.len() ==> s4[k] == mid[k],
        forall|k: int|
            mid.len() <= k < s4.len() ==> (#[trigger] s4[k]).0 < w && s4[k].1 < h && neighbours(
                (x as int, y as int),
                (s4[k].0 as int, s4[k].1 as int),
            ),
        forall|nx: int, ny: int|
            0 <= nx < w && 0 <= ny < h && neighbours((x as int, y as int), (nx, ny)) ==> #[trigger] s4.contains(
                (nx as u32, ny as u32),
            ),
{
    assert forall|nx: int, ny: int|
        0 <= nx < w && 0 <= ny < h && neighbours((x as int, y as int), (nx, ny)) implies #[trigger] s4.contains(
            (nx as u32, ny as u32),
        ) by {
        if nx == x - 1 && ny == y {
            assert(s1[s1.len() - 1] == (nx as u32, ny as u32));
            assert(s4[s1.len() - 1] == s1[s1.len() - 1]);
        } else if nx == x + 1 && ny == y {
            assert(s2[s2.len() - 1] == (nx as u32, ny as u32));
            assert(s4[s2.len() - 1] == s2[s2.len() - 1]);
        } else if nx == x && ny == y - 1 {
            assert(s3[s3.len() - 1] == (nx as u32, ny as u32));
            assert(s4[s3.len() - 1] == s3[s3.len() - 1]);
        } else {
            assert(s4[s4.len() - 1] == (nx as u32, ny as u32));
        }
    }
}

proof fn lemma_step_fill(
    orig: RasterView,
    t: Seq<u8>,
    s: (int, int),
    fill: Seq<u8>,
    old_img: RasterView,
    new_img: RasterView,
    old_visited: Seq<bool>,
    new_visited: Seq<bool>,
    old_stack: Seq<(u32, u32)>,
    mid: Seq<(u32, u32)>,
    new_stack: Seq<(u32, u32)>,
    x: u32,
    y: u32,
)
    requires
        walk_inv(orig, t, s, fill, old_img, old_visited, old_stack),
        fill_similar(orig, t, s.0, s.1),
        old_visited.len() == orig.width * orig.height,
        old_stack.len() > 0,
        old_stack.last() == (x, y),
        mid == old_stack.drop_last(),
        x < orig.width,
        y < orig.height,
        !old_visited[pidx(orig.width as int, x as int, y as int)],
        new_visited == old_visited.update(pidx(orig.width as int, x as int, y as int), true),
        fill_similar(orig, t, x as int, y as int),
        forall|xx: int, yy: int, cc: int|
            0 <= xx < orig.width && 0 <= yy < orig.height && 0 <= cc < 4 ==> #[trigger] new_img.px(xx, yy, cc)
                == if xx == x && yy == y {
                fill[cc]
            } else {
                old_img.px(xx, yy, cc)
            },
        mid.len() <= new_stack.len() <= mid.len() + 4,
        forall|k: int| 0 <= k < mid.len() ==> new_stack[k] == mid[k],
        forall|k: int|
            mid.len() <= k < new_stack.len() ==> (#[trigger] new_stack[k]).0 < orig.width && new_stack[k].1
                < orig.height && neighbours((x as int, y as int), (new_stack[k].0 as int, new_stack[k].1 as int)),
        forall|nx: int, ny: int|
            0 <= nx < orig.width && 0 <= ny < orig.height && neighbours((x as int, y as int), (nx, ny))
                ==> #[trigger] new_stack.contains((nx as u32, ny as u32)),
    ensures
        walk_inv(orig, t, s, fill, new_img, new_visited, new_stack),
{
    let w = orig.width as int;
    let h = orig.height as int;
    lemma_queue_pop(orig, t, s, old_stack, mid);
    lemma_closed_pop(orig, t, s, old_visited, new_visited, old_stack, mid, x, y);
    lemma_mark_one(w, h, x as int, y as int, old_visited, new_visited);
    assert(in_fill_region(orig, t, s, (x as int, y as int))) by {
        reveal(walk_queue);
        assert(queued_ok(orig, t, s, old_stack[old_stack.len() - 1]));
        lemma_region_grows(orig, t, s, (x, y));
    }
    assert forall|e: (u32, u32)| #[trigger] mid.contains(e) implies new_stack.contains(e) by {
        let k = choose|k: int| 0 <= k < mid.len() && mid[k] == e;
        assert(new_stack[k] == e);
    }
    assert(walk_queue(orig, t, s, new_stack)) by {
        reveal(walk_queue);
        assert forall|k: int| 0 <= k < new_stack.len() implies (#[trigger] new_stack[k]).0 < w && new_stack[k].1 < h
            && queued_ok(orig, t, s, new_stack[k]) by {
            if k < mid.len() {
                assert(new_stack[k] == mid[k]);
            } else {
                let q = new_stack[k];
                assert(neighbours((x as int, y as int), (q.0 as int, q.1 as int)));
            }
        }
    }
    assert(walk_pixels(orig, t, fill, new_img, new_visited)) by {
        reveal(walk_pixels);
        assert forall|xx: int, yy: int, c: int|
            #![trigger new_img.px(xx, yy, c)]
            0 <= xx < w && 0 <= yy < h && 0 <= c < 4 implies new_img.px(xx, yy, c) == (if new_visited[pidx(w, xx, yy)]
                && fill_similar(orig, t, xx, yy) {
                fill[c]
            } else {
                orig.px(xx, yy, c)
            }) by {
            assert(new_visited[pidx(w, xx, yy)] == (old_visited[pidx(w, xx, yy)] || (xx == x && yy == y)));
            if !(xx == x && yy == y) {
                assert(old_img.px(xx, yy, c) == (if old_visited[pidx(w, xx, yy)] && fill_similar(orig, t, xx, yy) {
                    fill[c]
                } else {
                    orig.px(xx, yy, c)
                }));
            }
        }
    }
    assert(walk_sound(orig, t, s, new_visited)) by {
        reveal(walk_sound);
        assert forall|xx: int, yy: int|
            #![trigger new_visited[pidx(w, xx, yy)]]
            0 <= xx < w && 0 <= yy < h && new_visited[pidx(w, xx, yy)] && fill_similar(orig, t, xx, yy)
                implies in_fill_region(orig, t, s, (xx, yy)) by {
            if !(xx == x && yy == y) {
                assert(old_visited[pidx(w, xx, yy)]);
            }
        }
    }
    assert(walk_closed(orig, t, s, new_visited, new_stack)) by {
        reveal(walk_closed);
        assert forall|xx: int, yy: int, nx: int, ny: int|
            #![trigger new_visited[pidx(w, xx, yy)], new_visited[pidx(w, nx, ny)]]
            0 <= xx < w && 0 <= yy < h && new_visited[pidx(w, xx, yy)] && fill_similar(orig, t, xx, yy)
                && 0 <= nx < w && 0 <= ny < h && neighbours((xx, yy), (nx, ny))
                implies new_visited[pidx(w, nx, ny)] || new_stack.contains((nx as u32, ny as u32)) by {
            if xx == x && yy == y {
                assert(new_stack.contains((nx as u32, ny as u32)));
            } else if !new_visited[pidx(w, nx, ny)] {
                assert(mid.contains((nx as u32, ny as u32)));
            }
        }
        if !new_visited[pidx(w, s.0, s.1)] {
            assert(mid.contains((s.0 as u32, s.1 as u32)));
        }
    }
}

/// After the walk ends with nothing queued, the raster matches the fill
/// specification.
proof fn lemma_finish(
    orig: RasterView,
    cur: RasterView,
    t: Seq<u8>,
    s: (int, int),
    fill: Seq<u8>,
    visited: Seq<bool>,
    w: int,
    h: int,
)
    requires
        orig.wf(),
        cur.wf(),
        cur.width == orig.width,
        cur.height == orig.height,
        w == orig.width,
        h == orig.height,
        0 <= s.0 < w,
        0 <= s.1 < h,
        t == pixel_of(orig, s.0, s.1),
        t != fill,
        fill.len() == 4,
        visited.len() == w * h,
        visited[pidx(w, s.0, s.1)],
        forall|x: int, y: int, c: int|
            #![trigger cur.px(x, y, c)]
            0 <= x < w && 0 <= y < h && 0 <= c < 4 ==> cur.px(x, y, c) == if visited[pidx(w, x, y)]
                && fill_similar(orig, t, x, y) {
                fill[c]
            } else {
                orig.px(x, y, c)
            },
        forall|x: int, y: int|
            #![trigger visited[pidx(w, x, y)]]
            0 <= x < w && 0 <= y < h && visited[pidx(w, x, y)] && fill_similar(orig, t, x, y)
                ==> in_fill_region(orig, t, s, (x, y)),
        forall|x: int, y: int, nx: int, ny: int|
            #![trigger visited[pidx(w, x, y)], visited[pidx(w, nx, ny)]]
            0 <= x < w && 0 <= y < h && visited[pidx(w, x, y)] && fill_similar(orig, t, x, y)
                && 0 <= nx < w && 0 <= ny < h && neighbours((x, y), (nx, ny))
                ==> visited[pidx(w, nx, ny)],
    ensures
        cur == spec_flood_fill(orig, s.0, s.1, fill),
{
    let spec = spec_flood_fill(orig, s.0, s.1, fill);
    assert forall|j: int| 0 <= j < orig.len() implies #[trigger] cur.data[j] == spec.data[j] by {
        lemma_index_split(w, h, j);
        let x = col_of(w, j);
        let y = row_of(w, j);
        let c = chan_of(j);
        assert(cur.px(x, y, c) == cur.data[j]);
        if in_fill_region(orig, t, s, (x, y)) {
            let path = choose|path: Seq<(int, int)>| #[trigger] is_fill_path(orig, t, path) && path[0] == s && path.last() == (x, y);
            lemma_closed_covers(orig, t, s, visited, path, path.len() - 1);
            assert(fill_similar(orig, t, path[path.len() - 1].0, path[path.len() - 1].1));
        }
    }
    assert(cur.data =~= spec.data);
}

proof fn lemma_pixel_index(w: int, h: int, x: int, y: int)
    requires
        0 <= x < w,
        0 <= y < h,
    ensures
        0 <= pidx(w, x, y) < w * h,
        forall|xx: int, yy: int|
            0 <= xx < w && 0 <= yy < h && #[trigger] pidx(w, xx, yy) == pidx(w, x, y) ==> xx == x && yy == y,
{
    assert(0 <= y * w + x < w * h) by (nonlinear_arith)
        requires
            0 <= x < w,
            0 <= y < h,
    ;
    assert forall|xx: int, yy: int|
        0 <= xx < w && 0 <= yy < h && #[trigger] pidx(w, xx, yy) == pidx(w, x, y) implies xx == x && yy == y by {
        lemma_fundamental_div_mod_converse(y * w + x, w, y, x);
        lemma_fundamental_div_mod_converse(yy * w + xx, w, yy, xx);
    }
}

proof fn lemma_pop_keeps(old: Seq<(u32, u32)>, new: Seq<(u32, u32)>)
    requires
        old.len() > 0,
        new == old.drop_last(),
    ensures
        forall|e: (u32, u32)| #[trigger] old.contains(e) ==> e == old.last() || new.contains(e),
        forall|e: (u32, u32)| #[trigger] new.contains(e) ==> old.contains(e),
{
    assert forall|e: (u32, u32)| #[trigger] old.contains(e) implies e == old.last() || new.contains(e) by {
        let k = choose|k: int| 0 <= k < old.len() && old[k] == e;
        if k < old.len() - 1 {
            assert(new[k] == e);
        }
    }
    assert forall|e: (u32, u32)| #[trigger] new.contains(e) implies old.contains(e) by {
        let k = choose|k: int| 0 <= k < new.len() && new[k] == e;
        assert(old[k] == e);
    }
}

proof fn lemma_mark_one(w: int, h: int, x: int, y: int, old: Seq<bool>, new: Seq<bool>)
    requires
        0 <= x < w,
        0 <= y < h,
        old.len() == w * h,
        new == old.update(pidx(w, x, y), true),
    ensures
        forall|xx: int, yy: int|
            0 <= xx < w && 0 <= yy < h ==> #[trigger] new[pidx(w, xx, yy)] == (old[pidx(w, xx, yy)] || (xx == x && yy == y)),
{
    lemma_pixel_index(w, h, x, y);
    assert forall|xx: int, yy: int| 0 <= xx < w && 0 <= yy < h implies #[trigger] new[pidx(w, xx, yy)] == (old[pidx(w, xx, yy)] || (xx == x && yy == y)) by {
        lemma_pixel_index(w, h, xx, yy);
    }
}

proof fn lemma_region_grows(v: RasterView, t: Seq<u8>, s: (int, int), q: (u32, u32))
    requires
        queued_ok(v, t, s, q),
        fill_similar(v, t, q.0 as int, q.1 as int),
        fill_similar(v, t, s.0, s.1),
    ensures
        in_fill_region(v, t, s, (q.0 as int, q.1 as int)),
{
    let p = (q.0 as int, q.1 as int);
    if p == s {
        let path = seq![s];
        assert(is_fill_path(v, t, path));
    } else {
        let r = choose|r: (int, int)| neighbours(r, p) && #[trigger] in_fill_region(v, t, s, r);
        let path = choose|path: Seq<(int, int)>| #[trigger] is_fill_path(v, t, path) && path[0] == s && path.last() == r;
        let longer = path.push(p);
        assert forall|i: int| 0 <= i < longer.len() implies fill_similar(v, t, #[trigger] longer[i].0, longer[i].1) by {
            if i < path.len() {
                assert(longer[i] == path[i]);
            }
        }
        assert forall|i: int| 0 <= i < longer.len() - 1 implies neighbours(#[trigger] longer[i], longer[i + 1]) by {
            if i < path.len() - 1 {
                assert(longer[i] == path[i]);
                assert(longer[i + 1] == path[i + 1]);
            }
        }
        assert(is_fill_path(v, t, longer));
        assert(longer[0] == s);
        assert(longer.last() == p);
    }
}

proof fn lemma_put_pixel_view(old: RasterView, new: RasterView, x: int, y: int, p: Seq<u8>)
    requires
        old.wf(),
        0 <= x < old.width,
        0 <= y < old.height,
        p.len() == 4,
        new.width == old.width,
        new.height == old.height,
        new.data == old.data.update(offset(old.width as int, x, y, 0), p[0]).update(
            offset(old.width as int, x, y, 1),
            p[1],
        ).update(offset(old.width as int, x, y, 2), p[2]).update(offset(old.width as int, x, y, 3), p[3]),
    ensures
        forall|xx: int, yy: int, cc: int|
            0 <= xx < old.width && 0 <= yy < old.height && 0 <= cc < 4 ==> #[trigger] new.px(xx, yy, cc) == if xx
                == x && yy == y {
                p[cc]
            } else {
                old.px(xx, yy, cc)
            },
{
    let w = old.width as int;
    let h = old.height as int;
    assert forall|xx: int, yy: int, cc: int|
        0 <= xx < w && 0 <= yy < h && 0 <= cc < 4 implies #[trigger] new.px(xx, yy, cc) == if xx == x && yy == y {
            p[cc]
        } else {
            old.px(xx, yy, cc)
        } by {
        lemma_offset_split(w, h, xx, yy, cc);
        lemma_offset_split(w, h, x, y, 0);
        lemma_offset_split(w, h, x, y, 1);
        lemma_offset_split(w, h, x, y, 2);
        lemma_offset_split(w, h, x, y, 3);
    }
}

proof fn lemma_count_zero(s: Seq<bool>)
    requires
        forall|k: int| 0 <= k < s.len() ==> !s[k],
    ensures
        count_marked(s) == 0,
    decreases s.len(),
{
    if s.len() > 0 {
        lemma_count_zero(s.drop_last());
    }
}

} // verus!
