use todo_store::store::{Command, TodoStore};

fn store_with(texts: &[&str]) -> TodoStore {
    let mut s = TodoStore::new();
    for t in texts {
        s.set_draft(t.to_string());
        s.add();
    }
    s
}

#[test]
fn new_store_is_empty() {
    let s = TodoStore::new();
    assert_eq!(s.items.len(), 0);
    assert_eq!(s.draft, "");
}

#[test]
fn add_is_append_only() {
    let mut s = TodoStore::new();
    let texts = ["t1", "t2", "t3"];
    for (n, t) in texts.iter().enumerate() {
        s.set_draft(t.to_string());
        let changed = s.add();
        assert!(changed);
        assert_eq!(s.draft, "", "draft is cleared after each add");
        assert_eq!(s.items.len(), n + 1);
    }
    for (n, t) in texts.iter().enumerate() {
        assert_eq!(s.items[n].text, *t);
        assert_eq!(s.items[n].id, n + 1);
        assert!(!s.items[n].completed);
    }
}

#[test]
fn add_takes_empty_draft_verbatim() {
    let mut s = TodoStore::new();
    s.add();
    assert_eq!(s.items.len(), 1);
    assert_eq!(s.items[0].text, "");
    assert_eq!(s.items[0].id, 1);
}

#[test]
fn draft_echo() {
    let mut s = TodoStore::new();
    for x in ["x", "", "   ", "\t \n", "what needs to be done"] {
        let changed = s.set_draft(x.to_string());
        assert!(changed);
        assert_eq!(s.draft, x);
    }
}

#[test]
fn toggle_twice_restores_flag() {
    let mut s = store_with(&["a", "b"]);
    assert!(!s.items[0].completed);
    assert!(s.toggle_completed(1));
    assert!(s.items[0].completed);
    assert!(s.toggle_completed(1));
    assert!(!s.items[0].completed);
    assert_eq!(s.items[1].completed, false, "other item untouched");
}

#[test]
fn toggle_unknown_id_is_noop() {
    let mut s = store_with(&["a", "b"]);
    s.toggle_completed(1);
    let before: Vec<(usize, String, bool)> =
        s.items.iter().map(|i| (i.id, i.text.clone(), i.completed)).collect();
    let draft_before = s.draft.clone();
    let changed = s.toggle_completed(99);
    assert!(!changed);
    let after: Vec<(usize, String, bool)> =
        s.items.iter().map(|i| (i.id, i.text.clone(), i.completed)).collect();
    assert_eq!(before, after);
    assert_eq!(draft_before, s.draft);
}

#[test]
fn remove_shrinks_by_exactly_one() {
    let mut s = store_with(&["a", "b", "c"]);
    s.toggle_completed(3);
    let changed = s.remove(2);
    assert!(changed);
    assert_eq!(s.items.len(), 2);
    assert_eq!(s.items[0].id, 1);
    assert_eq!(s.items[0].text, "a");
    assert!(!s.items[0].completed);
    assert_eq!(s.items[1].id, 3);
    assert_eq!(s.items[1].text, "c");
    assert!(s.items[1].completed);
}

#[test]
fn remove_unknown_id_is_noop() {
    let mut s = store_with(&["a", "b"]);
    let changed = s.remove(7);
    assert!(!changed);
    assert_eq!(s.items.len(), 2);
}

#[test]
fn mark_all_completed_overwrites_totally() {
    let mut s = store_with(&["a", "b", "c"]);
    s.toggle_completed(2);
    let changed = s.mark_all_completed(true);
    assert!(changed, "always reports a change");
    assert!(s.items.iter().all(|i| i.completed));
    let changed = s.mark_all_completed(false);
    assert!(changed);
    assert!(s.items.iter().all(|i| !i.completed));
    assert_eq!(s.items.len(), 3);
    assert_eq!(s.items[1].text, "b");
}

#[test]
fn mark_all_reports_change_even_when_state_collapses() {
    let mut s = store_with(&["a"]);
    assert!(s.mark_all_completed(false), "flags already false, still reported");
    assert!(s.mark_all_completed(true));
    assert!(s.mark_all_completed(true), "second overwrite with same flag still reported");
}

#[test]
fn all_complete_on_empty_list() {
    let s = TodoStore::new();
    assert!(s.all_complete());
    assert_eq!(s.active_count(), 0);
    assert!(!s.has_completed());
}

#[test]
fn end_to_end_scenario() {
    let mut s = TodoStore::new();
    s.set_draft("buy milk".to_string());
    s.add();
    assert_eq!(s.items.len(), 1);
    assert_eq!(s.items[0].id, 1);
    assert_eq!(s.items[0].text, "buy milk");
    assert!(!s.items[0].completed);
    assert_eq!(s.draft, "");
    assert_eq!(s.active_count(), 1);

    s.set_draft("walk dog".to_string());
    s.add();
    assert_eq!(s.items.len(), 2);
    assert_eq!(s.items[1].id, 2);
    assert_eq!(s.items[1].text, "walk dog");
    assert!(!s.items[1].completed);
    assert_eq!(s.active_count(), 2);

    s.toggle_completed(1);
    assert_eq!(s.active_count(), 1);
    assert!(s.has_completed());

    s.remove(2);
    assert_eq!(s.items.len(), 1);
    assert_eq!(s.items[0].id, 1);
    assert_eq!(s.items[0].text, "buy milk");
    assert!(s.items[0].completed);
    assert_eq!(s.active_count(), 0);
    assert!(s.all_complete());
}

#[test]
fn clear_completed_scenario() {
    let mut s = store_with(&["first", "second"]);
    s.toggle_completed(1);
    assert!(s.items[0].completed);
    let changed = s.clear_completed();
    assert!(changed);
    assert_eq!(s.items.len(), 1);
    assert_eq!(s.items[0].id, 2);
    assert_eq!(s.items[0].text, "second");
    assert!(!s.items[0].completed);
}

#[test]
fn clear_completed_on_all_active_reports_change() {
    let mut s = store_with(&["a", "b"]);
    let changed = s.clear_completed();
    assert!(changed, "reported even though nothing was deleted");
    assert_eq!(s.items.len(), 2);
}

#[test]
fn apply_dispatches_every_command() {
    let mut s = TodoStore::new();
    assert!(s.apply(Command::SetDraft("task".to_string())));
    assert!(s.apply(Command::Add));
    assert_eq!(s.items.len(), 1);
    assert_eq!(s.items[0].text, "task");
    assert!(s.apply(Command::ToggleCompleted(1)));
    assert!(s.items[0].completed);
    assert!(!s.apply(Command::ToggleCompleted(42)));
    assert!(s.apply(Command::MarkAllCompleted(false)));
    assert!(!s.items[0].completed);
    assert!(!s.apply(Command::Remove(42)));
    assert!(s.apply(Command::Remove(1)));
    assert_eq!(s.items.len(), 0);
    assert!(s.apply(Command::ClearCompleted));
}

#[test]
fn id_reuse_after_remove_hits_first_match() {
    // The count-based id policy hands an already-live id out again: with
    // three items, removing the first and adding a new one assigns id 3
    // twice. Toggle and remove then act on the first item carrying the id.
    let mut s = store_with(&["a", "b", "c"]);
    s.remove(1);
    s.set_draft("d".to_string());
    s.add();
    assert_eq!(s.items.len(), 3);
    assert_eq!(s.items[1].id, 3);
    assert_eq!(s.items[2].id, 3, "id collides with a live item");
    s.toggle_completed(3);
    assert!(s.items[1].completed, "first item with the id flips");
    assert!(!s.items[2].completed);
    s.remove(3);
    assert_eq!(s.items.len(), 2);
    assert_eq!(s.items[1].text, "d");
}
