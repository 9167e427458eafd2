use vstd::prelude::*;
use std::collections::VecDeque;
use crate::color::RgbaColor;

verus! {

/// How many recently used colours the history keeps.
pub const MAX_COLOR_HISTORY: usize = 20;

/// How many favourite colours can be kept.
pub const MAX_COLOR_FAVORITES: usize = 30;

/// The history after using `c`: `c` moves (or comes) to the front, its first
/// earlier occurrence goes, and the oldest entry leaves once more than
/// `MAX_COLOR_HISTORY` are kept.
pub open spec fn spec_add_color(h: Seq<RgbaColor>, c: RgbaColor) -> Seq<RgbaColor> {
    let removed = match h.index_of_first(c) {
        Some(i) => h.remove(i),
        None => h,
    };
    let pushed = seq![c] + removed;
    if pushed.len() > MAX_COLOR_HISTORY { pushed.drop_last() } else { pushed }
}

/// No colour occurs twice.
pub open spec fn no_duplicates(s: Seq<RgbaColor>) -> bool {
    forall|i: int, j: int| 0 <= i < j < s.len() ==> s[i] != s[j]
}

/// Recently used colours, most recent first.
pub struct ColorHistory {
    pub colors: VecDeque<RgbaColor>,
}

fn find_color_deque(v: &VecDeque<RgbaColor>, c: RgbaColor) -> (r: Option<usize>)
    ensures
        r matches Some(i) ==> v@.index_of_first(c) == Some(i as int),
        r is None ==> v@.index_of_first(c) is None,
{
    proof {
        v@.index_of_first_ensures(c);
    }
    let n = v.len();
    let mut i: usize = 0;
    while i < n
        invariant
            n == v@.len(),
            i <= n,
            forall|j: int| 0 <= j < i ==> v@[j] != c,
        decreases n - i,
    {
        if v[i] == c {
            proof {
                v@.index_of_first_ensures(c);
                assert(v@.contains(c));
            }
            return Some(i);
        }
        i = i + 1;
    }
    proof {
        if v@.contains(c) {
            let k = choose|k: int| 0 <= k < v@.len() && v@[k] == c;
            assert(v@[k] != c);
        }
    }
    None
}

fn find_color_vec(v: &Vec<RgbaColor>, c: RgbaColor) -> (r: Option<usize>)
    ensures
        r matches Some(i) ==> v@.index_of_first(c) == Some(i as int),
        r is None ==> v@.index_of_first(c) is None,
{
    proof {
        v@.index_of_first_ensures(c);
    }
    let n = v.len();
    let mut i: usize = 0;
    while i < n
        invariant
            n == v@.len(),
            i <= n,
            forall|j: int| 0 <= j < i ==> v@[j] != c,
        decreases n - i,
    {
        if v[i] == c {
            proof {
                v@.index_of_first_ensures(c);
                assert(v@.contains(c));
            }
            return Some(i);
        }
        i = i + 1;
    }
    proof {
        if v@.contains(c) {
            let k = choose|k: int| 0 <= k < v@.len() && v@[k] == c;
            assert(v@[k] != c);
        }
    }
    None
}

impl ColorHistory {
    pub fn new() -> (r: Self)
        ensures
            r.colors@ == Seq::<RgbaColor>::empty(),
    {
        ColorHistory { colors: VecDeque::new() }
    }

    /// Puts `color` at the front of the history.
    pub fn add_color(&mut self, color: RgbaColor)
        ensures
            final(self).colors@ == spec_add_color(old(self).colors@, color),
    {
        let ghost h = self.colors@;
        proof {
            h.index_of_first_ensures(color);
        }
        if let Some(pos) = find_color_deque(&self.colors, color) {
            let _ = self.colors.remove(pos);
        }
        self.colors.push_front(color);
        if self.colors.len() > MAX_COLOR_HISTORY {
            let _ = self.colors.pop_back();
        }
        assert(self.colors@ =~= spec_add_color(h, color));
    }

    pub fn get_colors(&self) -> (r: &VecDeque<RgbaColor>)
        ensures
            r@ == self.colors@,
    {
        &self.colors
    }
}

/// The favourites after toggling `c`, and what toggling returns: a present
/// colour leaves (its first occurrence) and `false` comes back; an absent one
/// is appended when there is room; `true` comes back otherwise.
pub open spec fn spec_toggle(f: Seq<RgbaColor>, c: RgbaColor) -> (Seq<RgbaColor>, bool) {
    match f.index_of_first(c) {
        Some(i) => (f.remove(i), false),
        None => if f.len() < MAX_COLOR_FAVORITES { (f.push(c), true) } else { (f, true) },
    }
}

/// The favourites after moving the entry at `from` to position `to`; nothing
/// changes unless both are distinct positions of the list.
pub open spec fn spec_move_item(f: Seq<RgbaColor>, from: int, to: int) -> Seq<RgbaColor> {
    if from == to || from >= f.len() || to >= f.len() {
        f
    } else {
        f.remove(from).insert(to, f[from])
    }
}

/// Favourite colours in the order the user arranged them.
pub struct ColorFavorites {
    pub colors: Vec<RgbaColor>,
}

impl ColorFavorites {
    pub fn new() -> (r: Self)
        ensures
            r.colors@ == Seq::<RgbaColor>::empty(),
    {
        ColorFavorites { colors: Vec::new() }
    }

    /// Adds or removes `color`; see `spec_toggle` for what comes back.
    pub fn toggle(&mut self, color: RgbaColor) -> (added: bool)
        ensures
            (final(self).colors@, added) == spec_toggle(old(self).colors@, color),
    {
        proof {
            self.colors@.index_of_first_ensures(color);
        }
        if let Some(pos) = find_color_vec(&self.colors, color) {
            self.colors.remove(pos);
            false
        } else if self.colors.len() < MAX_COLOR_FAVORITES {
            self.colors.push(color);
            true
        } else {
            true
        }
    }

    pub fn contains(&self, color: RgbaColor) -> (r: bool)
        ensures
            r == self.colors@.contains(color),
    {
        proof {
            self.colors@.index_of_first_ensures(color);
        }
        find_color_vec(&self.colors, color).is_some()
    }

    pub fn move_item(&mut self, from: usize, to: usize)
        ensures
            final(self).colors@ == spec_move_item(old(self).colors@, from as int, to as int),
    {
        if from == to || from >= self.colors.len() || to >= self.colors.len() {
            return;
        }
        let item = self.colors.remove(from);
        self.colors.insert(to, item);
    }
}

/// After a colour is used it is the most recent one, the history stays
/// within its bound, and no colour comes to occur twice.
pub proof fn law_add_color(h: Seq<RgbaColor>, c: RgbaColor)
    ensures
        spec_add_color(h, c)[0] == c,
        spec_add_color(h, c).len() > 0,
        h.len() <= MAX_COLOR_HISTORY ==> spec_add_color(h, c).len() <= MAX_COLOR_HISTORY,
        no_duplicates(h) ==> no_duplicates(spec_add_color(h, c)),
{
    h.index_of_first_ensures(c);
    let removed = match h.index_of_first(c) {
        Some(i) => h.remove(i),
        None => h,
    };
    let pushed = seq![c] + removed;
    assert(!removed.contains(c) || !no_duplicates(h)) by {
        if no_duplicates(h) && removed.contains(c) {
            let k = choose|k: int| 0 <= k < removed.len() && removed[k] == c;
            match h.index_of_first(c) {
                Some(i) => {
                    if k < i {
                        assert(h[k] == c);
                    } else {
                        assert(h[k + 1] == c);
                    }
                },
                None => {
                    assert(h[k] == c);
                },
            }
        }
    }
    if no_duplicates(h) {
        assert forall|i: int, j: int| 0 <= i < j < pushed.len() implies pushed[i] != pushed[j] by {
            if i == 0 {
                assert(pushed[j] == removed[j - 1]);
            } else {
                match h.index_of_first(c) {
                    Some(p) => {
                        let a = if i - 1 < p { i - 1 } else { i };
                        let b = if j - 1 < p { j - 1 } else { j };
                        assert(removed[i - 1] == h[a]);
                        assert(removed[j - 1] == h[b]);
                    },
                    None => {},
                }
            }
        }
    }
}

/// Using the most recent colour again leaves a history within its bound
/// unchanged.
pub proof fn law_add_color_again(h: Seq<RgbaColor>, c: RgbaColor)
    requires
        h.len() <= MAX_COLOR_HISTORY,
    ensures
        spec_add_color(spec_add_color(h, c), c) == spec_add_color(h, c),
{
    let once = spec_add_color(h, c);
    law_add_color(h, c);
    once.index_of_first_ensures(c);
    assert(once.index_of_first(c) == Some(0int));
    assert(seq![c] + once.remove(0) =~= once);
}

/// Toggling a colour that is absent from a list with room adds it, and
/// toggling it again gives the list back.
pub proof fn law_toggle_twice(f: Seq<RgbaColor>, c: RgbaColor)
    requires
        !f.contains(c),
        f.len() < MAX_COLOR_FAVORITES,
    ensures
        spec_toggle(f, c) == (f.push(c), true),
        spec_toggle(f.push(c), c) == (f, false),
{
    f.index_of_first_ensures(c);
    f.push(c).index_of_first_ensures(c);
    let p = f.push(c);
    assert(p[f.len() as int] == c);
    match p.index_of_first(c) {
        Some(i) => {
            if i < f.len() {
                assert(f[i] == c);
            }
        },
        None => {},
    }
    assert(p.remove(f.len() as int) =~= f);
}

/// After a toggle on a list with room, the colour is a favourite exactly
/// when the toggle answered `true`, unless it occurred more than once.
pub proof fn law_toggle_answer(f: Seq<RgbaColor>, c: RgbaColor)
    requires
        f.len() < MAX_COLOR_FAVORITES,
        no_duplicates(f),
    ensures
        spec_toggle(f, c).0.contains(c) == spec_toggle(f, c).1,
{
    f.index_of_first_ensures(c);
    match f.index_of_first(c) {
        Some(i) => {
            let r = f.remove(i);
            if r.contains(c) {
                let k = choose|k: int| 0 <= k < r.len() && r[k] == c;
                if k < i {
                    assert(f[k] == c);
                } else {
                    assert(f[k + 1] == c);
                }
            }
        },
        None => {
            assert(f.push(c)[f.len() as int] == c);
        },
    }
}

/// Moving an entry keeps the same colours, each as often as before.
pub proof fn law_move_keeps_colors(f: Seq<RgbaColor>, from: int, to: int)
    requires
        0 <= from,
        0 <= to,
    ensures
        spec_move_item(f, from, to).to_multiset() == f.to_multiset(),
{
    if !(from == to || from >= f.len() || to >= f.len()) {
        let r = f.remove(from);
        vstd::seq_lib::to_multiset_remove(f, from);
        vstd::seq_lib::to_multiset_insert(r, to, f[from]);
        assert(f.to_multiset().remove(f[from]).insert(f[from]) =~= f.to_multiset()) by {
            broadcast use vstd::multiset::group_multiset_axioms;
            assert(f.to_multiset().count(f[from]) > 0) by {
                vstd::seq_lib::to_multiset_contains(f, f[from]);
                assert(f.contains(f[from]));
            }
        }
    }
}

} // verus!
