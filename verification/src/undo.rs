//! Snapshot-based undo/redo history.
//!
//! Each mutation saves a copy of the entire store before the change.
use vstd::prelude::*;
use crate::store::{NodeStore, StoreView};

verus! {

/// What an undo history holds: past states (newest last), future states for redo
/// (newest last), and the most undo levels that a push keeps.
pub struct UndoView {
    pub undo: Seq<StoreView>,
    pub redo: Seq<StoreView>,
    pub max_depth: nat,
}

impl UndoView {
    /// The history after saving `state` before a mutation: `state` becomes the newest
    /// past state, the oldest is dropped past `max_depth`, and the future is cleared.
    pub open spec fn pushed(self, state: StoreView) -> UndoView {
        let u = self.undo.push(state);
        UndoView {
            undo: if u.len() > self.max_depth { u.drop_first() } else { u },
            redo: Seq::empty(),
            max_depth: self.max_depth,
        }
    }

    /// The history after an undo from `current`, and the state to restore
    /// (`None`, with the history unchanged, when there is nothing to undo).
    pub open spec fn undone(self, current: StoreView) -> (UndoView, Option<StoreView>) {
        if self.undo.len() == 0 {
            (self, None)
        } else {
            (
                UndoView {
                    undo: self.undo.drop_last(),
                    redo: self.redo.push(current),
                    max_depth: self.max_depth,
                },
                Some(self.undo.last()),
            )
        }
    }

    /// The history after a redo from `current`, and the state to restore
    /// (`None`, with the history unchanged, when there is nothing to redo).
    pub open spec fn redone(self, current: StoreView) -> (UndoView, Option<StoreView>) {
        if self.redo.len() == 0 {
            (self, None)
        } else {
            (
                UndoView {
                    undo: self.undo.push(current),
                    redo: self.redo.drop_last(),
                    max_depth: self.max_depth,
                },
                Some(self.redo.last()),
            )
        }
    }
}

/// Undo right after a push gives back the state that was pushed, whenever the
/// history keeps at least one level.
pub proof fn law_undo_restores_pushed(u: UndoView, state: StoreView, current: StoreView)
    requires
        u.max_depth > 0,
    ensures
        u.pushed(state).undone(current).1 == Some(state),
{
}

/// A push clears every redo level.
pub proof fn law_push_clears_redo(u: UndoView, state: StoreView)
    ensures
        u.pushed(state).redo.len() == 0,
        u.pushed(state).redone(state).1 is None,
{
}

/// A push keeps the history within its depth: it holds one more level, or, at the
/// limit, drops the oldest, and its newest level is the pushed state.
pub proof fn law_push_bounded(u: UndoView, state: StoreView)
    requires
        u.undo.len() <= u.max_depth,
    ensures
        u.pushed(state).undo.len() == if u.undo.len() < u.max_depth {
            u.undo.len() + 1
        } else {
            u.max_depth
        },
        u.max_depth > 0 ==> u.pushed(state).undo.last() == state,
{
}

/// Redo undoes an undo: after an undo from `current` restored `prev`, a redo from
/// `prev` restores `current` and leaves the history as it was before the undo.
pub proof fn law_redo_inverts_undo(u: UndoView, current: StoreView)
    requires
        u.undo.len() > 0,
    ensures
        ({
            let (u1, prev) = u.undone(current);
            &&& prev is Some
            &&& u1.redone(prev->0) == (u, Some(current))
        }),
{
    let (u1, prev) = u.undone(current);
    assert(u1.redone(prev->0).0.undo =~= u.undo);
    assert(u1.redone(prev->0).0.redo =~= u.redo);
}

/// Undo undoes a redo: after a redo from `current` restored `next`, an undo from
/// `next` restores `current` and leaves the history as it was before the redo.
pub proof fn law_undo_inverts_redo(u: UndoView, current: StoreView)
    requires
        u.redo.len() > 0,
    ensures
        ({
            let (u1, next) = u.redone(current);
            &&& next is Some
            &&& u1.undone(next->0) == (u, Some(current))
        }),
{
    let (u1, next) = u.redone(current);
    assert(u1.undone(next->0).0.undo =~= u.undo);
    assert(u1.undone(next->0).0.redo =~= u.redo);
}

/// Snapshot-based undo/redo stack.
pub struct UndoStack {
    /// Past states (newest last). The top is the state before the current.
    undo_stack: Vec<NodeStore>,
    /// Future states for redo (newest last).
    redo_stack: Vec<NodeStore>,
    /// Maximum number of undo levels.
    max_depth: usize,
}

impl View for UndoStack {
    type V = UndoView;

    closed spec fn view(&self) -> UndoView {
        UndoView {
            undo: self.undo_stack@.map_values(|s: NodeStore| s@),
            redo: self.redo_stack@.map_values(|s: NodeStore| s@),
            max_depth: self.max_depth as nat,
        }
    }
}

impl UndoStack {
    /// Every saved state is a well-formed store.
    pub closed spec fn wf(&self) -> bool {
        &&& forall|i: int| 0 <= i < self.undo_stack.len() ==> #[trigger] self.undo_stack[i].wf()
        &&& forall|i: int| 0 <= i < self.redo_stack.len() ==> #[trigger] self.redo_stack[i].wf()
    }

    pub fn new(max_depth: usize) -> (r: Self)
        ensures
            r.wf(),
            r@ == (UndoView { undo: Seq::empty(), redo: Seq::empty(), max_depth: max_depth as nat }),
    {
        let r = UndoStack { undo_stack: Vec::new(), redo_stack: Vec::new(), max_depth };
        assert(r@.undo =~= Seq::<StoreView>::empty());
        assert(r@.redo =~= Seq::<StoreView>::empty());
        r
    }

    /// Push the current state onto the undo stack before a mutation.
    /// Clears the redo stack (branching invalidates future).
    pub fn push(&mut self, state: &NodeStore)
        requires
            old(self).wf(),
            state.wf(),
        ensures
            final(self).wf(),
            final(self)@ == old(self)@.pushed(state@),
    {
        let ghost v = self@;
        self.undo_stack.push(state.snapshot());
        if self.undo_stack.len() > self.max_depth {
            self.undo_stack.remove(0);
        }
        self.redo_stack.clear();
        assert(self@.undo =~= v.pushed(state@).undo);
        assert(self@.redo =~= v.pushed(state@).redo);
    }

    /// Undo: pop the last saved state and push the current state onto redo.
    /// Returns the state to restore, or None if nothing to undo.
    pub fn undo(&mut self, current: &NodeStore) -> (r: Option<NodeStore>)
        requires
            old(self).wf(),
            current.wf(),
        ensures
            final(self).wf(),
            final(self)@ == old(self)@.undone(current@).0,
            match r {
                Some(s) => s.wf() && old(self)@.undone(current@).1 == Some(s@),
                None => old(self)@.undone(current@).1 is None,
            },
    {
        let ghost v = self@;
        let prev = match self.undo_stack.pop() {
            Some(p) => p,
            None => {
                return None;
            },
        };
        self.redo_stack.push(current.snapshot());
        assert(self@.undo =~= v.undone(current@).0.undo);
        assert(self@.redo =~= v.undone(current@).0.redo);
        Some(prev)
    }

    /// Redo: pop the last redo state and push the current state onto undo.
    /// Returns the state to restore, or None if nothing to redo.
    pub fn redo(&mut self, current: &NodeStore) -> (r: Option<NodeStore>)
        requires
            old(self).wf(),
            current.wf(),
        ensures
            final(self).wf(),
            final(self)@ == old(self)@.redone(current@).0,
            match r {
                Some(s) => s.wf() && old(self)@.redone(current@).1 == Some(s@),
                None => old(self)@.redone(current@).1 is None,
            },
    {
        let ghost v = self@;
        let next = match self.redo_stack.pop() {
            Some(n) => n,
            None => {
                return None;
            },
        };
        self.undo_stack.push(current.snapshot());
        assert(self@.undo =~= v.redone(current@).0.undo);
        assert(self@.redo =~= v.redone(current@).0.redo);
        Some(next)
    }

    /// Number of undo levels available.
    pub fn undo_count(&self) -> (r: usize)
        ensures
            r == self@.undo.len(),
    {
        self.undo_stack.len()
    }

    /// Number of redo levels available.
    pub fn redo_count(&self) -> (r: usize)
        ensures
            r == self@.redo.len(),
    {
        self.redo_stack.len()
    }
}

impl Default for UndoStack {
    /// A history of 100 undo levels.
    fn default() -> (r: Self)
        ensures
            r.wf(),
            r@ == (UndoView { undo: Seq::empty(), redo: Seq::empty(), max_depth: 100 }),
    {
        Self::new(100)
    }
}

} // verus!
