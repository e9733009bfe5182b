//! The executable store: items, the draft, and the command transitions.

use vstd::prelude::*;

verus! {

use crate::model::{
    CommandModel, ItemModel, StoreModel, empty_store, has_id, is_first_with_id, first_with_id,
};

/// The commands a caller may dispatch against the store, one per user
/// action. Every command is total: none fails, unknown ids are silent
/// no-ops.
pub enum Command {
    SetDraft(String),
    Add,
    ToggleCompleted(usize),
    Remove(usize),
    MarkAllCompleted(bool),
    ClearCompleted,
}

impl View for Command {
    type V = CommandModel;

    open spec fn view(&self) -> CommandModel {
        match self {
            Command::SetDraft(t) => CommandModel::SetDraft(t@),
            Command::Add => CommandModel::Add,
            Command::ToggleCompleted(id) => CommandModel::ToggleCompleted(*id),
            Command::Remove(id) => CommandModel::Remove(*id),
            Command::MarkAllCompleted(flag) => CommandModel::MarkAllCompleted(*flag),
            Command::ClearCompleted => CommandModel::ClearCompleted,
        }
    }
}

/// One task entry: an id unique by construction among live items (weakly so,
/// see `add`), immutable label text, and a completion flag.
pub struct Item {
    pub id: usize,
    pub text: String,
    pub completed: bool,
}

impl View for Item {
    type V = ItemModel;

    open spec fn view(&self) -> ItemModel {
        ItemModel { id: self.id, text: self.text@, completed: self.completed }
    }
}

impl Clone for Item {
    fn clone(&self) -> (res: Self)
        ensures
            res@ == self@,
    {
        Item { id: self.id, text: self.text.clone(), completed: self.completed }
    }
}

/// The ghost sequence of item models behind a sequence of items.
pub open spec fn items_view(items: Seq<Item>) -> Seq<ItemModel> {
    items.map_values(|it: Item| it@)
}

/// The state container: the ordered item list and the draft text staged for
/// the next item.
pub struct TodoStore {
    pub items: Vec<Item>,
    pub draft: String,
}

impl View for TodoStore {
    type V = StoreModel;

    open spec fn view(&self) -> StoreModel {
        StoreModel { items: items_view(self.items@), draft: self.draft@ }
    }
}

/// Position of the first item of `items` carrying `id`, if any.
fn find_index(items: &Vec<Item>, id: usize) -> (r: Option<usize>)
    ensures
        match r {
            Some(i) => is_first_with_id(items_view(items@), id, i as int),
            None => !has_id(items_view(items@), id),
        },
{
    let mut i: usize = 0;
    while i < items.len()
        invariant
            i <= items@.len(),
            forall|j: int| 0 <= j < i ==> (#[trigger] items_view(items@)[j]).id != id,
        decreases items@.len() - i,
    {
        if items[i].id == id {
            return Some(i);
        }
        i += 1;
    }
    None
}

impl TodoStore {
    /// A fresh store: no items, empty draft.
    pub fn new() -> (s: TodoStore)
        ensures
            s@ == empty_store(),
    {
        let s = TodoStore { items: Vec::new(), draft: String::new() };
        proof {
            assert(s@ =~~= empty_store());
        }
        s
    }

    /// Replaces the draft verbatim; no trimming, no validation, items
    /// untouched. Always reports a change.
    pub fn set_draft(&mut self, text: String) -> (changed: bool)
        ensures
            final(self)@.items == old(self)@.items,
            final(self)@.draft == text@,
            changed,
    {
        self.draft = text;
        true
    }

    /// Appends a new item built from the draft (taken verbatim, even when
    /// empty), with `id` one past the current length and `completed` false,
    /// then clears the draft. Always reports a change.
    ///
    /// The count-based id policy means an id freed by `remove` can be handed
    /// out again; uniqueness among live items is a weak invariant, not a
    /// permanent identity.
    pub fn add(&mut self) -> (changed: bool)
        requires
            old(self)@.items.len() < usize::MAX,
        ensures
            final(self)@.items == old(self)@.items.push(
                ItemModel {
                    id: (old(self)@.items.len() + 1) as usize,
                    text: old(self)@.draft,
                    completed: false,
                },
            ),
            final(self)@.draft == Seq::<char>::empty(),
            changed,
    {
        let id: usize = self.items.len() + 1;
        let item = Item { id, text: self.draft.clone(), completed: false };
        self.items.push(item);
        self.draft = String::new();
        proof {
            assert(final(self)@.items =~~= old(self)@.items.push(
                ItemModel {
                    id: (old(self)@.items.len() + 1) as usize,
                    text: old(self)@.draft,
                    completed: false,
                },
            ));
        }
        true
    }

    /// Flips the completion flag of the first item carrying `id` and reports
    /// a change; on an unknown id, a silent no-op reported as unchanged.
    pub fn toggle_completed(&mut self, id: usize) -> (changed: bool)
        ensures
            changed == has_id(old(self)@.items, id),
            final(self)@.draft == old(self)@.draft,
            has_id(old(self)@.items, id) ==> final(self)@.items == old(self)@.items.update(
                first_with_id(old(self)@.items, id),
                crate::model::toggled(old(self)@.items[first_with_id(old(self)@.items, id)]),
            ),
            !has_id(old(self)@.items, id) ==> final(self)@.items == old(self)@.items,
    {
        match find_index(&self.items, id) {
            Some(i) => {
                let flipped = {
                    let it = &self.items[i];
                    Item { id: it.id, text: it.text.clone(), completed: !it.completed }
                };
                self.items[i] = flipped;
                proof {
                    crate::model::lemma_first_with_id_unique(old(self)@.items, id, i as int);
                    assert(final(self)@.items =~~= old(self)@.items.update(
                        i as int,
                        crate::model::toggled(old(self)@.items[i as int]),
                    ));
                }
                true
            },
            None => false,
        }
    }

    /// Deletes exactly the first item carrying `id`, every other item keeping
    /// its fields and relative order, and reports a change; on an unknown id,
    /// a silent no-op reported as unchanged.
    pub fn remove(&mut self, id: usize) -> (changed: bool)
        ensures
            changed == has_id(old(self)@.items, id),
            final(self)@.draft == old(self)@.draft,
            has_id(old(self)@.items, id) ==> final(self)@.items == old(self)@.items.remove(
                first_with_id(old(self)@.items, id),
            ),
            !has_id(old(self)@.items, id) ==> final(self)@.items == old(self)@.items,
    {
        match find_index(&self.items, id) {
            Some(i) => {
                self.items.remove(i);
                proof {
                    crate::model::lemma_first_with_id_unique(old(self)@.items, id, i as int);
                    assert(final(self)@.items =~~= old(self)@.items.remove(i as int));
                }
                true
            },
            None => false,
        }
    }

    /// Overwrites every item's completion flag with `flag`, ids and texts
    /// untouched. Always reports a change, even when nothing differed.
    pub fn mark_all_completed(&mut self, flag: bool) -> (changed: bool)
        ensures
            final(self)@.items == old(self)@.items.map_values(
                (|it: ItemModel| crate::model::with_completed(it, flag)),
            ),
            final(self)@.draft == old(self)@.draft,
            changed,
    {
        let mut i: usize = 0;
        while i < self.items.len()
            invariant
                i <= self.items@.len(),
                self.items@.len() == old(self).items@.len(),
                self.draft@ == old(self).draft@,
                forall|j: int| i <= j < self.items@.len() ==> self.items@[j] == old(
                    self,
                ).items@[j],
                forall|j: int| 0 <= j < i ==> (#[trigger] self.items@[j])@
                    == crate::model::with_completed(old(self).items@[j]@, flag),
            decreases self.items@.len() - i,
        {
            let overwritten = {
                let it = &self.items[i];
                Item { id: it.id, text: it.text.clone(), completed: flag }
            };
            self.items[i] = overwritten;
            i += 1;
        }
        proof {
            assert(final(self)@.items =~~= old(self)@.items.map_values(
                (|it: ItemModel| crate::model::with_completed(it, flag)),
            ));
        }
        true
    }

    /// Deletes every completed item; the active items keep their fields and
    /// relative order. Always reports a change, even when nothing was
    /// deleted.
    pub fn clear_completed(&mut self) -> (changed: bool)
        ensures
            final(self)@.items == crate::model::active_of(old(self)@.items),
            final(self)@.draft == old(self)@.draft,
            changed,
    {
        let kept = self.active_items();
        self.items = kept;
        true
    }

    /// Applies one command atomically: the successor state is `step` of the
    /// prior state, and the returned change report follows `step_changed`.
    pub fn apply(&mut self, cmd: Command) -> (changed: bool)
        requires
            cmd@ is Add ==> old(self)@.items.len() < usize::MAX,
        ensures
            final(self)@ == crate::model::step(old(self)@, cmd@),
            changed == crate::model::step_changed(old(self)@, cmd@),
    {
        let changed = match cmd {
            Command::SetDraft(t) => self.set_draft(t),
            Command::Add => self.add(),
            Command::ToggleCompleted(id) => self.toggle_completed(id),
            Command::Remove(id) => self.remove(id),
            Command::MarkAllCompleted(flag) => self.mark_all_completed(flag),
            Command::ClearCompleted => self.clear_completed(),
        };
        proof {
            assert(final(self)@ =~~= crate::model::step(old(self)@, cmd@));
        }
        changed
    }
}

} // verus!
