use vstd::prelude::*;
use std::collections::VecDeque;

verus! {

/// How many snapshots the undo stack keeps; the oldest goes first.
pub const MAX_UNDO: usize = 20;

/// The two stacks of an undo history; the last element of each is its top.
pub struct HistoryView<T> {
    pub undo: Seq<T>,
    pub redo: Seq<T>,
}

/// The history after recording `e`: `e` goes on top of the undo stack, the
/// oldest snapshot leaves once more than `MAX_UNDO` are kept, and the redo
/// stack empties.
pub open spec fn spec_record<T>(h: HistoryView<T>, e: T) -> HistoryView<T> {
    let pushed = h.undo.push(e);
    HistoryView {
        undo: if pushed.len() > MAX_UNDO { pushed.drop_first() } else { pushed },
        redo: Seq::empty(),
    }
}

/// Undoing with `current` as the present state: the top undo snapshot comes
/// back and `current` goes on the redo stack; nothing happens when there is
/// nothing to undo.
pub open spec fn spec_undo<T>(h: HistoryView<T>, current: T) -> (HistoryView<T>, Option<T>) {
    if h.undo.len() == 0 {
        (h, None)
    } else {
        (HistoryView { undo: h.undo.drop_last(), redo: h.redo.push(current) }, Some(h.undo.last()))
    }
}

/// Redoing with `current` as the present state, the mirror of `spec_undo`.
pub open spec fn spec_redo<T>(h: HistoryView<T>, current: T) -> (HistoryView<T>, Option<T>) {
    if h.redo.len() == 0 {
        (h, None)
    } else {
        (HistoryView { undo: h.undo.push(current), redo: h.redo.drop_last() }, Some(h.redo.last()))
    }
}

/// A bounded undo history with a redo stack.
pub struct UndoHistory<T> {
    undo_stack: VecDeque<T>,
    redo_stack: VecDeque<T>,
}

impl<T> View for UndoHistory<T> {
    type V = HistoryView<T>;

    closed spec fn view(&self) -> HistoryView<T> {
        HistoryView { undo: self.undo_stack@, redo: self.redo_stack@ }
    }
}

impl<T> UndoHistory<T> {
    #[verifier::type_invariant]
    spec fn inv(self) -> bool {
        self.undo_stack@.len() + self.redo_stack@.len() <= MAX_UNDO
    }

    pub fn new() -> (r: Self)
        ensures
            r@.undo == Seq::<T>::empty(),
            r@.redo == Seq::<T>::empty(),
    {
        UndoHistory { undo_stack: VecDeque::new(), redo_stack: VecDeque::new() }
    }

    /// Both stacks together never hold more than `MAX_UNDO` snapshots.
    pub fn bounded(&self)
        ensures
            self@.undo.len() + self@.redo.len() <= MAX_UNDO,
    {
        proof {
            use_type_invariant(self);
        }
    }

    /// Records a snapshot taken before an edit.
    pub fn record(&mut self, e: T)
        ensures
            final(self)@ == spec_record(old(self)@, e),
    {
        proof {
            use_type_invariant(&*self);
        }
        let mut u = VecDeque::new();
        let mut r = VecDeque::new();
        std::mem::swap(&mut u, &mut self.undo_stack);
        std::mem::swap(&mut r, &mut self.redo_stack);
        let ghost before = u@;
        u.push_back(e);
        if u.len() > MAX_UNDO {
            let _ = u.pop_front();
        }
        assert(u@ =~= spec_record(HistoryView { undo: before, redo: r@ }, e).undo);
        r.clear();
        *self = UndoHistory { undo_stack: u, redo_stack: r };
    }

    /// Takes back the last edit: returns the snapshot to restore and keeps
    /// `current` for redo.
    pub fn undo(&mut self, current: T) -> (r: Option<T>)
        ensures
            (final(self)@, r) == spec_undo(old(self)@, current),
    {
        proof {
            use_type_invariant(&*self);
        }
        if self.undo_stack.len() == 0 {
            return None;
        }
        let mut u = VecDeque::new();
        let mut r = VecDeque::new();
        std::mem::swap(&mut u, &mut self.undo_stack);
        std::mem::swap(&mut r, &mut self.redo_stack);
        let e = u.pop_back();
        r.push_back(current);
        *self = UndoHistory { undo_stack: u, redo_stack: r };
        e
    }

    /// Applies again the last edit that was taken back.
    pub fn redo(&mut self, current: T) -> (r: Option<T>)
        ensures
            (final(self)@, r) == spec_redo(old(self)@, current),
    {
        proof {
            use_type_invariant(&*self);
        }
        if self.redo_stack.len() == 0 {
            return None;
        }
        let mut u = VecDeque::new();
        let mut r = VecDeque::new();
        std::mem::swap(&mut u, &mut self.undo_stack);
        std::mem::swap(&mut r, &mut self.redo_stack);
        let e = r.pop_back();
        u.push_back(current);
        *self = UndoHistory { undo_stack: u, redo_stack: r };
        e
    }

    pub fn can_undo(&self) -> (r: bool)
        ensures
            r == (self@.undo.len() > 0),
    {
        self.undo_stack.len() > 0
    }

    pub fn can_redo(&self) -> (r: bool)
        ensures
            r == (self@.redo.len() > 0),
    {
        self.redo_stack.len() > 0
    }
}

/// The snapshot recorded last is the one that undo gives back, and the state
/// given to undo is the one that redo offers next.
pub proof fn law_undo_returns_last_record<T>(h: HistoryView<T>, e: T, current: T)
    ensures
        spec_undo(spec_record(h, e), current).1 == Some(e),
        spec_undo(spec_record(h, e), current).0.redo == seq![current],
{
    assert(spec_undo(spec_record(h, e), current).0.redo =~= seq![current]);
}

/// Redo right after an undo, given the state that the undo restored, gives
/// back the state from before the undo and the history from before it.
pub proof fn law_redo_after_undo<T>(h: HistoryView<T>, current: T)
    requires
        h.undo.len() > 0,
    ensures
        spec_redo(spec_undo(h, current).0, spec_undo(h, current).1->Some_0)
            == (h, Some(current)),
{
    let (h2, e) = spec_undo(h, current);
    assert(h2.undo.push(e->Some_0) =~= h.undo);
    assert(h2.redo.drop_last() =~= h.redo);
}

/// Undo right after a redo, given the state that the redo restored, gives
/// back the state from before the redo and the history from before it.
pub proof fn law_undo_after_redo<T>(h: HistoryView<T>, current: T)
    requires
        h.redo.len() > 0,
    ensures
        spec_undo(spec_redo(h, current).0, spec_redo(h, current).1->Some_0)
            == (h, Some(current)),
{
    let (h2, e) = spec_redo(h, current);
    assert(h2.redo.push(e->Some_0) =~= h.redo);
    assert(h2.undo.drop_last() =~= h.undo);
}

/// Recording an edit discards everything that could have been redone.
pub proof fn law_record_clears_redo<T>(h: HistoryView<T>, e: T)
    ensures
        spec_record(h, e).redo.len() == 0,
        spec_redo(spec_record(h, e), e).1 is None,
{
}

} // verus!
