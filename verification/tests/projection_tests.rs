use todo_store::store::TodoStore;

fn store_with(texts: &[&str]) -> TodoStore {
    let mut s = TodoStore::new();
    for t in texts {
        s.set_draft(t.to_string());
        s.add();
    }
    s
}

#[test]
fn active_items_keeps_order_and_fields() {
    let mut s = store_with(&["a", "b", "c", "d"]);
    s.toggle_completed(2);
    s.toggle_completed(4);
    let active = s.active_items();
    assert_eq!(active.len(), 2);
    assert_eq!(active[0].id, 1);
    assert_eq!(active[0].text, "a");
    assert_eq!(active[1].id, 3);
    assert_eq!(active[1].text, "c");
    assert!(active.iter().all(|i| !i.completed));
}

#[test]
fn derived_flags_follow_partition() {
    let mut s = store_with(&["a", "b"]);
    assert_eq!(s.active_count(), 2);
    assert!(!s.has_completed());
    assert!(!s.all_complete());

    s.toggle_completed(1);
    assert_eq!(s.active_count(), 1);
    assert!(s.has_completed());
    assert!(!s.all_complete());

    s.toggle_completed(2);
    assert_eq!(s.active_count(), 0);
    assert!(s.has_completed());
    assert!(s.all_complete());
}

#[test]
fn projection_is_a_pure_read() {
    let mut s = store_with(&["a", "b", "c"]);
    s.toggle_completed(3);
    let p1 = s.project();
    let p2 = s.project();
    assert_eq!(p1.outstanding, 2);
    assert_eq!(p1.outstanding, p2.outstanding);
    assert_eq!(p1.has_completed, p2.has_completed);
    assert_eq!(p1.all_complete, p2.all_complete);
    assert_eq!(p1.active.len(), p2.active.len());
    for (x, y) in p1.active.iter().zip(p2.active.iter()) {
        assert_eq!(x.id, y.id);
        assert_eq!(x.text, y.text);
        assert_eq!(x.completed, y.completed);
    }
    assert!(p1.has_completed);
    assert!(!p1.all_complete);
}

#[test]
fn projection_after_mark_all() {
    let mut s = store_with(&["a", "b"]);
    s.mark_all_completed(true);
    let p = s.project();
    assert_eq!(p.outstanding, 0);
    assert!(p.has_completed);
    assert!(p.all_complete);
    assert_eq!(p.active.len(), 0);
}
