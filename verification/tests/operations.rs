use todo_store::TaskStore;

#[test]
fn create_sets_title_and_flag() {
    let mut store = TaskStore::new();
    let t = store.create("Buy milk".to_string());
    assert_eq!(t.title, "Buy milk");
    assert!(!t.completed);
    assert_eq!(t.id.len(), 36);
}

#[test]
fn create_then_get_returns_equal_task() {
    let mut store = TaskStore::new();
    let t = store.create("X".to_string());
    let got = store.get(&t.id).expect("the created task must be found");
    assert_eq!(got.id, t.id);
    assert_eq!(got.title, t.title);
    assert_eq!(got.completed, t.completed);
}

#[test]
fn created_ids_are_distinct() {
    let mut store = TaskStore::new();
    let a = store.create("first".to_string());
    let b = store.create("second".to_string());
    assert_ne!(a.id, b.id);
}

#[test]
fn get_missing_id_is_none() {
    let mut store = TaskStore::new();
    let _ = store.create("something".to_string());
    assert!(store.get(&"no-such-id".to_string()).is_none());
}

#[test]
fn toggle_flips_and_toggle_twice_restores() {
    let mut store = TaskStore::new();
    let t = store.create("flip me".to_string());
    let once = store.toggle(&t.id).expect("task exists");
    assert!(once.completed);
    assert_eq!(once.id, t.id);
    assert_eq!(once.title, t.title);
    let twice = store.toggle(&t.id).expect("task still exists");
    assert!(!twice.completed);
    let current = store.get(&t.id).expect("task still exists");
    assert_eq!(current.completed, t.completed);
}

#[test]
fn toggle_missing_id_is_none_and_changes_nothing() {
    let mut store = TaskStore::new();
    let t = store.create("alone".to_string());
    assert!(store.toggle(&"absent".to_string()).is_none());
    let tasks = store.list();
    assert_eq!(tasks.len(), 1);
    assert_eq!(tasks[0].id, t.id);
    assert!(!tasks[0].completed);
}

#[test]
fn delete_true_once_then_false() {
    let mut store = TaskStore::new();
    let t = store.create("short-lived".to_string());
    assert!(store.delete(&t.id));
    assert!(!store.delete(&t.id));
    assert!(!store.delete(&t.id));
    assert!(store.get(&t.id).is_none());
}

#[test]
fn delete_missing_id_is_false() {
    let mut store = TaskStore::new();
    assert!(!store.delete(&"never-created".to_string()));
}

#[test]
fn list_length_tracks_creates_minus_deletes() {
    let mut store = TaskStore::new();
    let a = store.create("a".to_string());
    let _b = store.create("b".to_string());
    let c = store.create("c".to_string());
    assert_eq!(store.list().len(), 3);
    assert!(store.delete(&a.id));
    assert_eq!(store.list().len(), 2);
    assert!(!store.delete(&a.id));
    assert_eq!(store.list().len(), 2);
    assert!(store.delete(&c.id));
    assert_eq!(store.list().len(), 1);
    let d = store.create("d".to_string());
    assert_eq!(store.list().len(), 2);
    assert!(store.delete(&d.id));
    assert_eq!(store.list().len(), 1);
}

#[test]
fn list_keeps_insertion_order() {
    let mut store = TaskStore::new();
    let a = store.create("one".to_string());
    let b = store.create("two".to_string());
    let c = store.create("three".to_string());
    let tasks = store.list();
    assert_eq!(tasks.len(), 3);
    assert_eq!(tasks[0].id, a.id);
    assert_eq!(tasks[1].id, b.id);
    assert_eq!(tasks[2].id, c.id);
    assert!(store.delete(&b.id));
    let tasks = store.list();
    assert_eq!(tasks.len(), 2);
    assert_eq!(tasks[0].id, a.id);
    assert_eq!(tasks[1].id, c.id);
}

#[test]
fn list_returns_a_snapshot_copy() {
    let mut store = TaskStore::new();
    let t = store.create("snapshot".to_string());
    let before = store.list();
    let _ = store.toggle(&t.id);
    assert!(!before[0].completed);
    let after = store.list();
    assert!(after[0].completed);
}
