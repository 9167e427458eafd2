use vstd::prelude::*;

verus! {

/// A brush kept under a name; `S` is the brush's settings.
pub struct SavedBrush<S> {
    pub name: String,
    pub settings: S,
}

/// The saved brushes, in the order they were first saved.
pub struct BrushFavorites<S> {
    pub brushes: Vec<SavedBrush<S>>,
}

/// The position of the first brush named `name` among the first `n` of `s`.
pub open spec fn name_pos_upto<S>(s: Seq<SavedBrush<S>>, name: Seq<char>, n: int) -> Option<int>
    decreases n,
{
    if n <= 0 {
        None
    } else {
        match name_pos_upto(s, name, n - 1) {
            Some(i) => Some(i),
            None => if s[n - 1].name@ == name { Some(n - 1) } else { None },
        }
    }
}

/// The position of the first brush named `name`.
pub open spec fn name_pos<S>(s: Seq<SavedBrush<S>>, name: Seq<char>) -> Option<int> {
    name_pos_upto(s, name, s.len() as int)
}

/// Saving `b`: a brush of the same name takes its settings (keeping its
/// place), otherwise `b` joins the end.
pub open spec fn spec_save<S>(s: Seq<SavedBrush<S>>, b: SavedBrush<S>) -> Seq<SavedBrush<S>> {
    match name_pos(s, b.name@) {
        Some(i) => s.update(i, SavedBrush { name: s[i].name, settings: b.settings }),
        None => s.push(b),
    }
}

/// Saving the first `n` brushes of `imported`, one after the other.
pub open spec fn spec_import<S>(s: Seq<SavedBrush<S>>, imported: Seq<SavedBrush<S>>, n: int) -> Seq<SavedBrush<S>>
    decreases n,
{
    if n <= 0 || n > imported.len() {
        s
    } else {
        spec_save(spec_import(s, imported, n - 1), imported[n - 1])
    }
}

/// No two brushes share a name.
pub open spec fn names_unique<S>(s: Seq<SavedBrush<S>>) -> bool {
    forall|i: int, j: int| 0 <= i < j < s.len() ==> #[trigger] s[i].name@ != #[trigger] s[j].name@
}

proof fn lemma_name_pos_upto<S>(s: Seq<SavedBrush<S>>, name: Seq<char>, n: int)
    requires
        0 <= n <= s.len(),
    ensures
        match name_pos_upto(s, name, n) {
            Some(i) => 0 <= i < n && s[i].name@ == name && forall|k: int| 0 <= k < i ==> s[k].name@ != name,
            None => forall|k: int| 0 <= k < n ==> s[k].name@ != name,
        },
    decreases n,
{
    if n > 0 {
        lemma_name_pos_upto(s, name, n - 1);
    }
}

impl<S> BrushFavorites<S> {
    /// No saved brushes.
    pub fn new() -> (f: Self)
        ensures
            f.brushes@.len() == 0,
    {
        BrushFavorites { brushes: Vec::new() }
    }

    /// Where the brush named `name` is kept, if one is.
    pub fn find(&self, name: &String) -> (r: Option<usize>)
        ensures
            match r {
                Some(i) => name_pos(self.brushes@, name@) == Some(i as int),
                None => name_pos(self.brushes@, name@) is None,
            },
    {
        let n = self.brushes.len();
        let mut i: usize = 0;
        while i < n
            invariant
                n == self.brushes@.len(),
                i <= n,
                name_pos_upto(self.brushes@, name@, i as int) is None,
            decreases n - i,
        {
            if self.brushes[i].name == *name {
                proof {
                    assert(name_pos_upto(self.brushes@, name@, i + 1) == Some(i as int));
                    lemma_name_pos_upto(self.brushes@, name@, i + 1);
                    lemma_first_stays(self.brushes@, name@, i + 1, n as int);
                }
                return Some(i);
            }
            i = i + 1;
        }
        None
    }

    /// Saves `settings` under `name`: over the brush of that name when there
    /// is one, otherwise as a new brush at the end.
    pub fn save_brush(&mut self, name: String, settings: S)
        ensures
            final(self).brushes@ == spec_save(old(self).brushes@, SavedBrush { name, settings }),
    {
        proof {
            lemma_name_pos_upto(self.brushes@, name@, self.brushes@.len() as int);
        }
        match self.find(&name) {
            Some(i) => {
                let kept = self.brushes[i].name.clone();
                self.brushes.set(i, SavedBrush { name: kept, settings });
                proof {
                    let s = old(self).brushes@;
                    assert(self.brushes@ =~= s.update(i as int, SavedBrush { name: s[i as int].name, settings }));
                }
            },
            None => {
                self.brushes.push(SavedBrush { name, settings });
            },
        }
    }

    /// Saves every brush of `imported` in turn.
    pub fn import(&mut self, imported: Vec<SavedBrush<S>>)
        ensures
            final(self).brushes@ == spec_import(old(self).brushes@, imported@, imported@.len() as int),
    {
        let ghost all = imported@;
        let mut rest = imported;
        let n = rest.len();
        let mut k: usize = 0;
        while k < n
            invariant
                n == all.len(),
                k <= n,
                rest@ == all.subrange(k as int, n as int),
                self.brushes@ == spec_import(old(self).brushes@, all, k as int),
            decreases n - k,
        {
            let b = rest.remove(0);
            proof {
                assert(b == all[k as int]);
                assert(rest@ =~= all.subrange(k + 1, n as int));
            }
            self.save_brush(b.name, b.settings);
            k = k + 1;
        }
    }

    /// Forgets the brush at `idx`.
    pub fn remove(&mut self, idx: usize)
        requires
            idx < old(self).brushes@.len(),
        ensures
            final(self).brushes@ == old(self).brushes@.remove(idx as int),
    {
        let _ = self.brushes.remove(idx);
    }

    /// The settings of the brush in slot `slot`, if the slot is filled.
    pub fn get(&self, slot: usize) -> (r: Option<&S>)
        ensures
            slot < self.brushes@.len() ==> r == Some(&self.brushes@[slot as int].settings),
            slot >= self.brushes@.len() ==> r is None,
    {
        if slot < self.brushes.len() {
            Some(&self.brushes[slot].settings)
        } else {
            None
        }
    }
}

proof fn lemma_first_stays<S>(s: Seq<SavedBrush<S>>, name: Seq<char>, m: int, n: int)
    requires
        0 <= m <= n <= s.len(),
        name_pos_upto(s, name, m) is Some,
    ensures
        name_pos_upto(s, name, n) == name_pos_upto(s, name, m),
    decreases n - m,
{
    if n > m {
        lemma_first_stays(s, name, m, n - 1);
    }
}

/// Saving a brush keeps the names distinct: it either takes over the
/// brush of its name or brings a new name.
pub proof fn law_save_keeps_names_unique<S>(s: Seq<SavedBrush<S>>, b: SavedBrush<S>)
    requires
        names_unique(s),
    ensures
        names_unique(spec_save(s, b)),
{
    lemma_name_pos_upto(s, b.name@, s.len() as int);
    let r = spec_save(s, b);
    match name_pos(s, b.name@) {
        Some(i) => {
            assert forall|x: int, y: int| 0 <= x < y < r.len() implies #[trigger] r[x].name@ != #[trigger] r[y].name@ by {
                assert(r[x].name == s[x].name);
                assert(r[y].name == s[y].name);
            }
        },
        None => {
            assert forall|x: int, y: int| 0 <= x < y < r.len() implies #[trigger] r[x].name@ != #[trigger] r[y].name@ by {
                if y == s.len() {
                    assert(r[y] == b);
                    assert(r[x] == s[x]);
                } else {
                    assert(r[x] == s[x]);
                    assert(r[y] == s[y]);
                }
            }
        },
    }
}

/// After a save, the brush of that name holds the saved settings, and the
/// number of brushes grows by one exactly when the name was new.
pub proof fn law_save_then_find<S>(s: Seq<SavedBrush<S>>, b: SavedBrush<S>)
    ensures
        ({
            let r = spec_save(s, b);
            &&& name_pos(r, b.name@) matches Some(i) && r[i].settings == b.settings
            &&& r.len() == (if name_pos(s, b.name@) is Some { s.len() } else { s.len() + 1 })
        }),
{
    lemma_name_pos_upto(s, b.name@, s.len() as int);
    let r = spec_save(s, b);
    match name_pos(s, b.name@) {
        Some(i) => {
            assert forall|k: int| 0 <= k < i implies r[k].name@ != b.name@ by {
                assert(r[k] == s[k]);
            }
            lemma_find_at(r, b.name@, i);
        },
        None => {
            assert forall|k: int| 0 <= k < s.len() implies r[k].name@ != b.name@ by {
                assert(r[k] == s[k]);
            }
            lemma_find_at(r, b.name@, s.len() as int);
        },
    }
}

proof fn lemma_find_at<S>(s: Seq<SavedBrush<S>>, name: Seq<char>, i: int)
    requires
        0 <= i < s.len(),
        s[i].name@ == name,
        forall|k: int| 0 <= k < i ==> s[k].name@ != name,
    ensures
        name_pos(s, name) == Some(i),
{
    lemma_none_before(s, name, i);
    assert(name_pos_upto(s, name, i + 1) == Some(i));
    lemma_first_stays(s, name, i + 1, s.len() as int);
}

proof fn lemma_none_before<S>(s: Seq<SavedBrush<S>>, name: Seq<char>, n: int)
    requires
        0 <= n <= s.len(),
        forall|k: int| 0 <= k < n ==> s[k].name@ != name,
    ensures
        name_pos_upto(s, name, n) is None,
    decreases n,
{
    if n > 0 {
        lemma_none_before(s, name, n - 1);
    }
}

} // verus!
