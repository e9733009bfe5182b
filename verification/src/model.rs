//! Mathematical model of the task-list store: ghost counterparts of items,
//! store state and commands, and the `step` function that gives the meaning
//! of every state transition.

use vstd::prelude::*;

verus! {

/// Ghost counterpart of one task entry.
#[verifier::ext_equal]
pub struct ItemModel {
    pub id: usize,
    pub text: Seq<char>,
    pub completed: bool,
}

/// Ghost counterpart of the whole store state: the ordered item list and the
/// draft text staged for the next item.
#[verifier::ext_equal]
pub struct StoreModel {
    pub items: Seq<ItemModel>,
    pub draft: Seq<char>,
}

/// Ghost counterpart of the commands a caller may dispatch.
pub enum CommandModel {
    SetDraft(Seq<char>),
    Add,
    ToggleCompleted(usize),
    Remove(usize),
    MarkAllCompleted(bool),
    ClearCompleted,
}

/// The state a store is created in: no items, empty draft.
pub open spec fn empty_store() -> StoreModel {
    StoreModel { items: Seq::empty(), draft: Seq::empty() }
}

/// Some live item carries `id`.
pub open spec fn has_id(items: Seq<ItemModel>, id: usize) -> bool {
    exists|i: int| 0 <= i < items.len() && items[i].id == id
}

/// `i` is the position of the first item carrying `id`.
pub open spec fn is_first_with_id(items: Seq<ItemModel>, id: usize, i: int) -> bool {
    &&& 0 <= i < items.len()
    &&& items[i].id == id
    &&& forall|j: int| 0 <= j < i ==> items[j].id != id
}

/// Position of the first item carrying `id` (meaningful only when
/// `has_id(items, id)` holds).
pub open spec fn first_with_id(items: Seq<ItemModel>, id: usize) -> int {
    choose|i: int| is_first_with_id(items, id, i)
}

/// The same item with its completion flag overwritten.
pub open spec fn with_completed(it: ItemModel, flag: bool) -> ItemModel {
    ItemModel { completed: flag, ..it }
}

/// The same item with its completion flag flipped.
pub open spec fn toggled(it: ItemModel) -> ItemModel {
    with_completed(it, !it.completed)
}

/// The subsequence of items not yet completed, in display order.
pub open spec fn active_of(items: Seq<ItemModel>) -> Seq<ItemModel> {
    items.filter(|it: ItemModel| !it.completed)
}

/// Whether any live item is completed: the list is strictly longer than its
/// active part.
pub open spec fn has_completed_of(items: Seq<ItemModel>) -> bool {
    active_of(items).len() < items.len()
}

/// Whether no item is outstanding. Holds in particular of the empty list.
pub open spec fn all_complete_of(items: Seq<ItemModel>) -> bool {
    active_of(items).len() == 0
}

/// Meaning of one command applied to a state: the successor state.
pub open spec fn step(s: StoreModel, c: CommandModel) -> StoreModel {
    match c {
        CommandModel::SetDraft(t) => StoreModel { draft: t, ..s },
        CommandModel::Add => StoreModel {
            items: s.items.push(
                ItemModel {
                    id: (s.items.len() + 1) as usize,
                    text: s.draft,
                    completed: false,
                },
            ),
            draft: Seq::empty(),
        },
        CommandModel::ToggleCompleted(id) => {
            if has_id(s.items, id) {
                let i = first_with_id(s.items, id);
                StoreModel { items: s.items.update(i, toggled(s.items[i])), ..s }
            } else {
                s
            }
        },
        CommandModel::Remove(id) => {
            if has_id(s.items, id) {
                StoreModel { items: s.items.remove(first_with_id(s.items, id)), ..s }
            } else {
                s
            }
        },
        CommandModel::MarkAllCompleted(flag) => StoreModel {
            items: s.items.map_values(|it: ItemModel| with_completed(it, flag)),
            ..s
        },
        CommandModel::ClearCompleted => StoreModel { items: active_of(s.items), ..s },
    }
}

/// Whether a command reports the state as changed. Every command but the two
/// id-directed ones always reports a change; those report one exactly when
/// the id is live.
pub open spec fn step_changed(s: StoreModel, c: CommandModel) -> bool {
    match c {
        CommandModel::ToggleCompleted(id) => has_id(s.items, id),
        CommandModel::Remove(id) => has_id(s.items, id),
        _ => true,
    }
}

/// Wherever some item carries `id`, a first such item exists.
pub proof fn lemma_first_exists_from(items: Seq<ItemModel>, id: usize, k: int)
    requires
        0 <= k < items.len(),
        items[k].id == id,
    ensures
        exists|i: int| is_first_with_id(items, id, i),
    decreases k,
{
    if forall|j: int| 0 <= j < k ==> items[j].id != id {
        assert(is_first_with_id(items, id, k));
    } else {
        let j = choose|j: int| 0 <= j < k && items[j].id == id;
        lemma_first_exists_from(items, id, j);
    }
}

/// `first_with_id` picks a genuine first match whenever the id is live.
pub proof fn lemma_first_with_id_valid(items: Seq<ItemModel>, id: usize)
    requires
        has_id(items, id),
    ensures
        is_first_with_id(items, id, first_with_id(items, id)),
{
    let k = choose|i: int| 0 <= i < items.len() && items[i].id == id;
    lemma_first_exists_from(items, id, k);
}

/// The first match is unique, so `first_with_id` equals any witness of
/// `is_first_with_id`.
pub proof fn lemma_first_with_id_unique(items: Seq<ItemModel>, id: usize, i: int)
    requires
        is_first_with_id(items, id, i),
    ensures
        first_with_id(items, id) == i,
{
    assert(has_id(items, id));
    lemma_first_with_id_valid(items, id);
    let i2 = first_with_id(items, id);
    if i < i2 {
        assert(items[i].id == id);
        assert(false);
    }
    if i2 < i {
        assert(items[i2].id == id);
        assert(false);
    }
}

/// The active subsequence is never longer than the list itself.
pub proof fn lemma_active_len(items: Seq<ItemModel>)
    ensures
        active_of(items).len() <= items.len(),
{
    items.lemma_filter_len(|it: ItemModel| !it.completed);
}

/// How the active subsequence grows when one item is appended.
pub proof fn lemma_active_push(items: Seq<ItemModel>, it: ItemModel)
    ensures
        active_of(items.push(it)) == if !it.completed {
            active_of(items).push(it)
        } else {
            active_of(items)
        },
{
    reveal(Seq::filter);
    assert(items.push(it).drop_last() =~= items);
    assert(items.push(it).last() == it);
}

} // verus!
