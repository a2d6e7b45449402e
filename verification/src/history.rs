use vstd::prelude::*;

verus! {

/// The outcome of an undo on the stacks `undos` / `redos` while `current` is
/// shown: the last saved state comes back and `current` is kept for a redo;
/// `None` when there is nothing to undo.
pub open spec fn undo_step<D>(undos: Seq<D>, redos: Seq<D>, current: D) -> Option<(Seq<D>, Seq<D>, D)> {
    if undos.len() == 0 {
        None
    } else {
        Some((undos.drop_last(), redos.push(current), undos.last()))
    }
}

/// The outcome of a redo: the last undone state comes back and `current` is
/// kept for an undo; `None` when there is nothing to redo.
pub open spec fn redo_step<D>(undos: Seq<D>, redos: Seq<D>, current: D) -> Option<(Seq<D>, Seq<D>, D)> {
    if redos.len() == 0 {
        None
    } else {
        Some((undos.push(current), redos.drop_last(), redos.last()))
    }
}

/// The most saved states a history keeps; saving one more forgets the oldest.
pub const MAX_UNDO: usize = 20;

/// The saved states after saving `snapshot` on top of `undos`: the newest
/// `MAX_UNDO` of them.
pub open spec fn saved_after_push<D>(undos: Seq<D>, snapshot: D) -> Seq<D> {
    let all = undos.push(snapshot);
    if all.len() > MAX_UNDO {
        all.skip(all.len() - MAX_UNDO)
    } else {
        all
    }
}

/// Undo / redo history of document snapshots of type `D`. It holds at most
/// `MAX_UNDO` states, saved and undone together.
pub struct History<D> {
    undo_stack: Vec<D>,
    redo_stack: Vec<D>,
}

impl<D> History<D> {
    #[verifier::type_invariant]
    spec fn inv(&self) -> bool {
        self.undo_stack@.len() + self.redo_stack@.len() <= MAX_UNDO
    }

    /// Saved states, oldest first.
    pub closed spec fn undos(&self) -> Seq<D> {
        self.undo_stack@
    }

    /// Undone states, the next one to redo last.
    pub closed spec fn redos(&self) -> Seq<D> {
        self.redo_stack@
    }

    pub fn new() -> (h: Self)
        ensures
            h.undos() == Seq::<D>::empty(),
            h.redos() == Seq::<D>::empty(),
            h.undos().len() + h.redos().len() <= MAX_UNDO,
    {
        History { undo_stack: Vec::new(), redo_stack: Vec::new() }
    }

    /// Saves `snapshot`, the state before an edit, forgetting the oldest saved
    /// state when `MAX_UNDO` are kept already; the undone states are dropped,
    /// since the edit starts a new line of history.
    pub fn push_undo(&mut self, snapshot: D)
        ensures
            final(self).undos() == saved_after_push(old(self).undos(), snapshot),
            final(self).redos() == Seq::<D>::empty(),
            final(self).undos().len() <= MAX_UNDO,
    {
        proof {
            use_type_invariant(&*self);
        }
        let ghost before = self.undo_stack@;
        self.redo_stack = Vec::new();
        let mut undo = Vec::new();
        std::mem::swap(&mut self.undo_stack, &mut undo);
        if undo.len() >= MAX_UNDO {
            undo.remove(0);
        }
        undo.push(snapshot);
        proof {
            let all = before.push(snapshot);
            if all.len() > MAX_UNDO {
                assert(all.skip(all.len() - MAX_UNDO) =~= undo@);
            } else {
                assert(all =~= undo@);
            }
        }
        self.undo_stack = undo;
    }

    /// Goes back one step: `current` becomes the last saved state and its old
    /// value is kept for a redo. Returns whether there was a step to undo;
    /// when there was none nothing changes.
    pub fn undo(&mut self, current: &mut D) -> (moved: bool)
        ensures
            final(self).undos().len() + final(self).redos().len() <= MAX_UNDO,
            moved == (old(self).undos().len() > 0),
            moved ==> undo_step(old(self).undos(), old(self).redos(), *old(current)) == Some(
                (final(self).undos(), final(self).redos(), *final(current)),
            ),
            !moved ==> final(self).undos() == old(self).undos() && final(self).redos() == old(
                self,
            ).redos() && *final(current) == *old(current),
    {
        proof {
            use_type_invariant(&*self);
        }
        let mut undo = Vec::new();
        std::mem::swap(&mut self.undo_stack, &mut undo);
        let mut redo = Vec::new();
        std::mem::swap(&mut self.redo_stack, &mut redo);
        match undo.pop() {
            None => {
                self.undo_stack = undo;
                self.redo_stack = redo;
                false
            },
            Some(entry) => {
                let mut entry = entry;
                std::mem::swap(current, &mut entry);
                redo.push(entry);
                self.undo_stack = undo;
                self.redo_stack = redo;
                true
            },
        }
    }

    /// Goes forward one step: `current` becomes the last undone state and its
    /// old value is saved for an undo. Returns whether there was a step to
    /// redo; when there was none nothing changes.
    pub fn redo(&mut self, current: &mut D) -> (moved: bool)
        ensures
            final(self).undos().len() + final(self).redos().len() <= MAX_UNDO,
            moved == (old(self).redos().len() > 0),
            moved ==> redo_step(old(self).undos(), old(self).redos(), *old(current)) == Some(
                (final(self).undos(), final(self).redos(), *final(current)),
            ),
            !moved ==> final(self).undos() == old(self).undos() && final(self).redos() == old(
                self,
            ).redos() && *final(current) == *old(current),
    {
        proof {
            use_type_invariant(&*self);
        }
        let mut redo = Vec::new();
        std::mem::swap(&mut self.redo_stack, &mut redo);
        let mut undo = Vec::new();
        std::mem::swap(&mut self.undo_stack, &mut undo);
        match redo.pop() {
            None => {
                self.redo_stack = redo;
                self.undo_stack = undo;
                false
            },
            Some(entry) => {
                let mut entry = entry;
                std::mem::swap(current, &mut entry);
                undo.push(entry);
                self.redo_stack = redo;
                self.undo_stack = undo;
                true
            },
        }
    }

    /// Forgets all saved and undone states (a new file was opened).
    pub fn clear(&mut self)
        ensures
            final(self).undos() == Seq::<D>::empty(),
            final(self).redos() == Seq::<D>::empty(),
    {
        proof {
            use_type_invariant(&*self);
        }
        self.undo_stack = Vec::new();
        self.redo_stack = Vec::new();
    }

    pub fn can_undo(&self) -> (b: bool)
        ensures
            b == (self.undos().len() > 0),
    {
        self.undo_stack.len() > 0
    }

    pub fn can_redo(&self) -> (b: bool)
        ensures
            b == (self.redos().len() > 0),
    {
        self.redo_stack.len() > 0
    }
}

/// A redo right after an undo restores the history and the shown state
/// exactly.
pub proof fn lemma_redo_undoes_undo<D>(undos: Seq<D>, redos: Seq<D>, current: D)
    requires
        undos.len() > 0,
    ensures
        ({
            let (u, r, c) = undo_step(undos, redos, current).unwrap();
            redo_step(u, r, c) == Some((undos, redos, current))
        }),
{
    assert(undos.drop_last().push(undos.last()) =~= undos);
    assert(redos.push(current).drop_last() =~= redos);
}

/// An undo right after a redo restores the history and the shown state
/// exactly.
pub proof fn lemma_undo_undoes_redo<D>(undos: Seq<D>, redos: Seq<D>, current: D)
    requires
        redos.len() > 0,
    ensures
        ({
            let (u, r, c) = redo_step(undos, redos, current).unwrap();
            undo_step(u, r, c) == Some((undos, redos, current))
        }),
{
    assert(redos.drop_last().push(redos.last()) =~= redos);
    assert(undos.push(current).drop_last() =~= undos);
}

/// Saving a state keeps the newest `MAX_UNDO` states: one more than before
/// while there is room, the oldest dropped once `MAX_UNDO` are kept; the saved
/// state is on top.
pub proof fn lemma_saving_keeps_the_newest<D>(undos: Seq<D>, saved: D)
    requires
        undos.len() <= MAX_UNDO,
    ensures
        ({
            let u = saved_after_push(undos, saved);
            &&& u.len() == (if undos.len() < MAX_UNDO {
                undos.len() + 1 as int
            } else {
                MAX_UNDO as int
            })
            &&& u.last() == saved
            &&& undos.len() < MAX_UNDO ==> u.drop_last() == undos
            &&& undos.len() == MAX_UNDO ==> u.drop_last() == undos.drop_first()
        }),
{
    let all = undos.push(saved);
    if undos.len() < MAX_UNDO {
        assert(all.drop_last() =~= undos);
    } else {
        assert(all.skip(1).drop_last() =~= undos.drop_first());
    }
}

/// An undo right after saving `saved` and editing to `edited` shows `saved`
/// again, leaves the other kept states as they were, and keeps `edited` as
/// the only state to redo.
pub proof fn lemma_undo_returns_saved_state<D>(undos: Seq<D>, saved: D, edited: D)
    requires
        undos.len() <= MAX_UNDO,
    ensures
        ({
            let u = saved_after_push(undos, saved);
            undo_step(u, Seq::<D>::empty(), edited) == Some(
                (u.drop_last(), Seq::<D>::empty().push(edited), saved),
            )
        }),
{
    lemma_saving_keeps_the_newest(undos, saved);
}

} // verus!
