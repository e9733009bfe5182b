//! Laws of the store's transitions, stated over the model and proved once
//! for every state: adding only appends, toggling twice restores the state,
//! removal shrinks the list by exactly one, marking all overwrites every
//! flag, and an empty list counts as all-complete.

use vstd::prelude::*;

verus! {

use crate::model::{
    CommandModel, ItemModel, StoreModel, active_of, all_complete_of, first_with_id, has_id,
    is_first_with_id, lemma_first_with_id_unique, lemma_first_with_id_valid, step, toggled,
};

/// The state after staging and adding each text of `texts` in order, oldest
/// first: one `SetDraft` followed by one `Add` per text.
pub open spec fn after_adds(s: StoreModel, texts: Seq<Seq<char>>) -> StoreModel
    decreases texts.len(),
{
    if texts.len() == 0 {
        s
    } else {
        step(step(after_adds(s, texts.drop_last()), CommandModel::SetDraft(texts.last())),
            CommandModel::Add)
    }
}

/// Adding is append-only: staging and adding `texts` leaves every prior item
/// untouched and appends one fresh, uncompleted item per text, in order; the
/// draft is empty after every add, so in particular at the end.
pub proof fn lemma_add_append_only(s: StoreModel, texts: Seq<Seq<char>>)
    ensures
        after_adds(s, texts).items.len() == s.items.len() + texts.len(),
        forall|k: int| 0 <= k < s.items.len() ==> after_adds(s, texts).items[k] == s.items[k],
        forall|k: int| 0 <= k < texts.len() ==> {
            let it = after_adds(s, texts).items[s.items.len() + k];
            &&& it.text == #[trigger] texts[k]
            &&& !it.completed
            &&& it.id == ((s.items.len() + k + 1) as usize)
        },
        texts.len() > 0 ==> after_adds(s, texts).draft == Seq::<char>::empty(),
        texts.len() == 0 ==> after_adds(s, texts) == s,
    decreases texts.len(),
{
    if texts.len() > 0 {
        let prefix = texts.drop_last();
        lemma_add_append_only(s, prefix);
        let m = after_adds(s, texts);
        assert forall|k: int| 0 <= k < texts.len() implies {
            let it = m.items[s.items.len() + k];
            &&& it.text == #[trigger] texts[k]
            &&& !it.completed
            &&& it.id == ((s.items.len() + k + 1) as usize)
        } by {
            if k < prefix.len() {
                assert(prefix[k] == texts[k]);
                assert(m.items[s.items.len() + k] == after_adds(s, prefix).items[s.items.len()
                    + k]);
            } else {
                assert(k == texts.len() - 1);
                assert(texts.last() == texts[k]);
            }
        };
    }
}

/// From an empty store, the resulting item texts are exactly `texts` in
/// order and the draft is empty.
pub proof fn lemma_add_append_only_from_empty(texts: Seq<Seq<char>>)
    ensures
        after_adds(crate::model::empty_store(), texts).items.map_values(
            (|it: ItemModel| it.text),
        ) =~= texts,
        after_adds(crate::model::empty_store(), texts).draft == Seq::<char>::empty(),
{
    lemma_add_append_only(crate::model::empty_store(), texts);
}

/// Toggling the same id twice in a row restores the state exactly: on a live
/// id the flag flips back, on an unknown id both toggles were no-ops.
pub proof fn lemma_toggle_twice_restores(s: StoreModel, id: usize)
    ensures
        step(step(s, CommandModel::ToggleCompleted(id)), CommandModel::ToggleCompleted(id)) == s,
{
    let c = CommandModel::ToggleCompleted(id);
    if has_id(s.items, id) {
        lemma_first_with_id_valid(s.items, id);
        let i = first_with_id(s.items, id);
        let s1 = step(s, c);
        assert(is_first_with_id(s1.items, id, i));
        assert(has_id(s1.items, id));
        lemma_first_with_id_unique(s1.items, id, i);
        assert(toggled(toggled(s.items[i])) == s.items[i]);
        assert(step(s1, c).items =~= s.items);
        assert(step(s1, c) =~~= s);
    } else {
        assert(step(step(s, c), c) == s);
    }
}

/// Removing a live id shrinks the list by exactly one, every other item
/// keeping its fields (those before the deleted position in place, those
/// after shifted down by one); removing an unknown id changes nothing.
pub proof fn lemma_remove_shrinks_by_one(s: StoreModel, id: usize)
    ensures
        has_id(s.items, id) ==> {
            let i = first_with_id(s.items, id);
            let m = step(s, CommandModel::Remove(id));
            &&& m.items.len() == s.items.len() - 1
            &&& forall|k: int| 0 <= k < i ==> m.items[k] == s.items[k]
            &&& forall|k: int| i <= k < m.items.len() ==> m.items[k] == s.items[k + 1]
            &&& m.draft == s.draft
        },
        !has_id(s.items, id) ==> step(s, CommandModel::Remove(id)) == s,
{
    if has_id(s.items, id) {
        lemma_first_with_id_valid(s.items, id);
    }
}

/// Marking all is a total overwrite: every item's flag becomes exactly the
/// given one, whatever it was before, with ids and texts untouched.
pub proof fn lemma_mark_all_overwrites(s: StoreModel, flag: bool)
    ensures
        ({
            let m = step(s, CommandModel::MarkAllCompleted(flag));
            &&& m.items.len() == s.items.len()
            &&& forall|k: int| 0 <= k < s.items.len() ==> {
                let it = #[trigger] m.items[k];
                &&& it.completed == flag
                &&& it.id == s.items[k].id
                &&& it.text == s.items[k].text
            }
            &&& m.draft == s.draft
        }),
{
}

/// The empty list counts as all-complete: with no items there is nothing
/// outstanding.
pub proof fn lemma_all_complete_on_empty()
    ensures
        all_complete_of(Seq::<ItemModel>::empty()),
{
    reveal(Seq::filter);
    assert(active_of(Seq::<ItemModel>::empty()).len() == 0);
}

} // verus!
