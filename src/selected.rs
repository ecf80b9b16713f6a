//! The inspector's set of selected entities, kept in the order they were
//! selected, without duplicates.
use vstd::prelude::*;

use crate::selection::{selected_after, Entity, SelectionEvent};

verus! {

/// The entities currently selected, in selection order.
#[derive(Debug)]
pub struct SelectedEntities {
    entities: Vec<Entity>,
}

impl View for SelectedEntities {
    type V = Seq<Entity>;

    closed spec fn view(&self) -> Seq<Entity> {
        self.entities@
    }
}

impl SelectedEntities {
    /// No entity is listed twice.
    pub open spec fn wf(&self) -> bool {
        self@.no_duplicates()
    }

    /// An empty selection.
    pub fn new() -> (r: Self)
        ensures
            r@ == Seq::<Entity>::empty(),
            r.wf(),
    {
        SelectedEntities { entities: Vec::new() }
    }

    pub fn len(&self) -> (r: usize)
        ensures
            r == self@.len(),
    {
        self.entities.len()
    }

    pub fn is_empty(&self) -> (r: bool)
        ensures
            r == (self@.len() == 0),
    {
        self.entities.len() == 0
    }

    /// The selected entities, in selection order.
    pub fn as_slice(&self) -> (r: &[Entity])
        ensures
            r@ == self@,
    {
        self.entities.as_slice()
    }

    pub fn contains(&self, entity: Entity) -> (r: bool)
        ensures
            r == self@.contains(entity),
    {
        let mut i: usize = 0;
        while i < self.entities.len()
            invariant
                i <= self@.len(),
                forall|k: int| 0 <= k < i ==> self@[k] != entity,
            decreases self@.len() - i,
        {
            if self.entities[i] == entity {
                return true;
            }
            i += 1;
        }
        false
    }

    /// Deselects everything.
    pub fn clear(&mut self)
        ensures
            final(self)@ == Seq::<Entity>::empty(),
            final(self).wf(),
    {
        self.entities.clear();
    }

    /// Adds `entity` at the end, unless it is selected already.
    pub fn add(&mut self, entity: Entity)
        requires
            old(self).wf(),
        ensures
            final(self).wf(),
            final(self)@ == if old(self)@.contains(entity) {
                old(self)@
            } else {
                old(self)@.push(entity)
            },
    {
        if !self.contains(entity) {
            self.entities.push(entity);
            proof {
                assert forall|a: int, b: int|
                    0 <= a < b < self@.len() implies self@[a] != self@[b] by {
                    if b == self@.len() - 1 {
                        assert(old(self)@.contains(self@[a]) || a == b);
                    }
                }
            }
        }
    }

    /// Makes `entity` the only selected entity.
    pub fn select_replace(&mut self, entity: Entity)
        ensures
            final(self)@ == seq![entity],
            final(self).wf(),
    {
        self.entities.clear();
        self.entities.push(entity);
        proof {
            assert(self@ =~= seq![entity]);
        }
    }

    /// Adds `entity` to the selection when `add` holds; otherwise makes it the
    /// only selected entity.
    pub fn select_maybe_add(&mut self, entity: Entity, add: bool)
        requires
            old(self).wf(),
        ensures
            final(self).wf(),
            add ==> final(self)@ == if old(self)@.contains(entity) {
                old(self)@
            } else {
                old(self)@.push(entity)
            },
            !add ==> final(self)@ == seq![entity],
    {
        if add {
            self.add(entity);
        } else {
            self.select_replace(entity);
        }
    }

    /// Removes `entity` from the selection, keeping the order of the others.
    pub fn remove(&mut self, entity: Entity)
        requires
            old(self).wf(),
        ensures
            final(self).wf(),
            !old(self)@.contains(entity) ==> final(self)@ == old(self)@,
            old(self)@.contains(entity) ==> exists|i: int|
                0 <= i < old(self)@.len() && old(self)@[i] == entity && final(self)@ == old(
                    self,
                )@.remove(i),
            forall|e: Entity| #[trigger]
                final(self)@.contains(e) <==> (old(self)@.contains(e) && e != entity),
    {
        let ghost start = self@;
        let mut i: usize = 0;
        while i < self.entities.len()
            invariant
                i <= self@.len(),
                self@ == start,
                start == old(self)@,
                start.no_duplicates(),
                forall|k: int| 0 <= k < i ==> self@[k] != entity,
            decreases self@.len() - i,
        {
            if self.entities[i] == entity {
                self.entities.remove(i);
                proof {
                    let r = start.remove(i as int);
                    assert(self@ == r);
                    assert(start.contains(entity));
                    assert forall|k: int| 0 <= k < r.len() implies #[trigger] r[k] == if k < i {
                        start[k]
                    } else {
                        start[k + 1]
                    } by {}
                    assert forall|a: int, b: int| 0 <= a < b < r.len() implies r[a] != r[b] by {
                        let a0 = if a < i { a } else { a + 1 };
                        let b0 = if b < i { b } else { b + 1 };
                        assert(start[a0] != start[b0]);
                    }
                    assert forall|e: Entity| #[trigger]
                        r.contains(e) <==> (start.contains(e) && e != entity) by {
                        if r.contains(e) {
                            let k = choose|k: int| 0 <= k < r.len() && r[k] == e;
                            let k0 = if k < i { k } else { k + 1 };
                            assert(start[k0] == e);
                            assert(k0 != i);
                            assert(start[i as int] == entity);
                        }
                        if start.contains(e) && e != entity {
                            let k0 = choose|k: int| 0 <= k < start.len() && start[k] == e;
                            assert(k0 != i);
                            let k = if k0 < i { k0 } else { k0 - 1 };
                            assert(r[k] == e);
                        }
                    }
                }
                return;
            }
            i += 1;
        }
    }
}

/// Keeps the selection in step with the notifications, in the order they were
/// sent: a deselect removes its target, a select adds it.
pub fn handle_selection<L: Copy>(state: &mut SelectedEntities, events: &Vec<SelectionEvent<L>>)
    requires
        old(state).wf(),
    ensures
        final(state).wf(),
        forall|e: Entity| #[trigger]
            final(state)@.contains(e) == selected_after(events@, e, old(state)@.contains(e)),
{
    let ghost start = state@;
    let mut j: usize = 0;
    while j < events.len()
        invariant
            j <= events.len(),
            state.wf(),
            forall|e: Entity| #[trigger]
                state@.contains(e) == selected_after(events@.take(j as int), e, start.contains(e)),
        decreases events.len() - j,
    {
        let ghost next = events@.take(j + 1);
        proof {
            assert(next.drop_last() =~= events@.take(j as int));
            assert(next.last() == events@[j as int]);
        }
        let target = events[j].target();
        let ghost prev = state@;
        if events[j].selects() {
            state.add(target);
        } else {
            state.remove(target);
        }
        proof {
            assert forall|e: Entity| #[trigger]
                state@.contains(e) == selected_after(next, e, start.contains(e)) by {
                if events@[j as int].selects() {
                    if !prev.contains(target) {
                        let p2 = prev.push(target);
                        if p2.contains(e) && e != target {
                            let k = choose|k: int| 0 <= k < p2.len() && p2[k] == e;
                            assert(prev[k] == e);
                        }
                        if prev.contains(e) {
                            let k = choose|k: int| 0 <= k < prev.len() && prev[k] == e;
                            assert(p2[k] == e);
                        }
                        assert(p2[prev.len() as int] == target);
                    }
                }
            }
        }
        j += 1;
    }
    proof {
        assert(events@.take(events@.len() as int) =~= events@);
    }
}

} // verus!
