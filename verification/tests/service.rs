use todo_store::SharedStore;

#[test]
fn scenario_seed_create_toggle_delete() {
    // Start with the seed task "Buy milk", not completed.
    let store = SharedStore::new();
    let milk = store
        .create_todo("Buy milk".to_string())
        .expect("create always succeeds");
    assert_eq!(milk.title, "Buy milk");
    assert!(!milk.completed);

    // create("Eggs") returns a fresh, not yet completed task.
    let eggs = store
        .create_todo("Eggs".to_string())
        .expect("create always succeeds");
    assert_eq!(eggs.title, "Eggs");
    assert!(!eggs.completed);
    assert_ne!(eggs.id, milk.id);

    // todos() now lists both tasks.
    let tasks = store.todos();
    assert_eq!(tasks.len(), 2);

    // Toggling the seed task marks it completed.
    let toggled = store
        .toggle_todo(&milk.id)
        .expect("toggle always succeeds")
        .expect("the seed task exists");
    assert_eq!(toggled.id, milk.id);
    assert!(toggled.completed);

    // Deleting "Eggs" reports a removal; the id is then gone.
    let removed = store.delete_todo(&eggs.id).expect("delete always succeeds");
    assert!(removed);
    assert!(store.todo(&eggs.id).is_none());
}

#[test]
fn read_group_reports_missing_ids_as_absent() {
    let store = SharedStore::new();
    assert!(store.todo(&"missing".to_string()).is_none());
    let toggled = store
        .toggle_todo(&"missing".to_string())
        .expect("toggle always succeeds");
    assert!(toggled.is_none());
    let removed = store
        .delete_todo(&"missing".to_string())
        .expect("delete always succeeds");
    assert!(!removed);
}

#[test]
fn write_group_never_reports_failure() {
    let store = SharedStore::new();
    assert!(store.create_todo(String::new()).is_ok());
    assert!(store.toggle_todo(&String::new()).is_ok());
    assert!(store.delete_todo(&String::new()).is_ok());
}

#[test]
fn shared_store_serializes_interleaved_operations() {
    let store = SharedStore::new();
    let mut ids = Vec::new();
    for k in 0..10 {
        let t = store
            .create_todo(format!("task {}", k))
            .expect("create always succeeds");
        ids.push(t.id);
    }
    assert_eq!(store.todos().len(), 10);
    for id in ids.iter().take(5) {
        assert!(store.delete_todo(id).expect("delete always succeeds"));
    }
    assert_eq!(store.todos().len(), 5);
    for id in ids.iter().take(5) {
        assert!(!store.delete_todo(id).expect("delete always succeeds"));
        assert!(store.todo(id).is_none());
    }
    for id in ids.iter().skip(5) {
        let t = store
            .toggle_todo(id)
            .expect("toggle always succeeds")
            .expect("task exists");
        assert!(t.completed);
    }
    assert_eq!(store.todos().len(), 5);
}
