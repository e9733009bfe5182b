//! Derived view of a store snapshot: the active subsequence, the outstanding
//! count, and the two checkbox flags. Nothing here is stored; every value is
//! recomputed from the state it is read from, so the projection is a pure
//! function of the snapshot.

use vstd::prelude::*;

verus! {

use crate::model::{active_of, all_complete_of, has_completed_of};
use crate::store::{Item, TodoStore, items_view};

/// One recomputed read of the derived values for a state snapshot.
pub struct Projection {
    pub active: Vec<Item>,
    pub outstanding: usize,
    pub has_completed: bool,
    pub all_complete: bool,
}

impl TodoStore {
    /// The items not yet completed, in display order.
    pub fn active_items(&self) -> (r: Vec<Item>)
        ensures
            items_view(r@) == active_of(self@.items),
    {
        let mut kept: Vec<Item> = Vec::new();
        let mut i: usize = 0;
        while i < self.items.len()
            invariant
                i <= self.items@.len(),
                items_view(kept@) == active_of(items_view(self.items@.take(i as int))),
            decreases self.items@.len() - i,
        {
            proof {
                assert(items_view(self.items@.take(i as int + 1)) =~~= items_view(
                    self.items@.take(i as int),
                ).push(self.items@[i as int]@));
                crate::model::lemma_active_push(
                    items_view(self.items@.take(i as int)),
                    self.items@[i as int]@,
                );
            }
            if !self.items[i].completed {
                let ghost kept_before = kept@;
                kept.push(self.items[i].clone());
                proof {
                    assert(items_view(kept@) =~~= items_view(kept_before).push(
                        self.items@[i as int]@,
                    ));
                }
            }
            i += 1;
        }
        proof {
            assert(self.items@.take(self.items@.len() as int) =~= self.items@);
        }
        kept
    }

    /// The outstanding count: how many items are not yet completed.
    pub fn active_count(&self) -> (n: usize)
        ensures
            n == active_of(self@.items).len(),
    {
        self.active_items().len()
    }

    /// Whether any item is completed: the list is strictly longer than its
    /// active part.
    pub fn has_completed(&self) -> (b: bool)
        ensures
            b == has_completed_of(self@.items),
    {
        proof {
            crate::model::lemma_active_len(self@.items);
        }
        self.items.len() - self.active_items().len() > 0
    }

    /// Whether no item is outstanding; true in particular of an empty list.
    pub fn all_complete(&self) -> (b: bool)
        ensures
            b == all_complete_of(self@.items),
    {
        self.active_items().len() == 0
    }

    /// All derived values of this snapshot in one read. Each field is fixed
    /// by the snapshot alone, so two reads of the same state agree.
    pub fn project(&self) -> (p: Projection)
        ensures
            items_view(p.active@) == active_of(self@.items),
            p.outstanding == active_of(self@.items).len(),
            p.has_completed == has_completed_of(self@.items),
            p.all_complete == all_complete_of(self@.items),
    {
        Projection {
            active: self.active_items(),
            outstanding: self.active_count(),
            has_completed: self.has_completed(),
            all_complete: self.all_complete(),
        }
    }
}

} // verus!
