use todolist::entry::ToDoListEntry;
use todolist::store::ToDoList;

fn assert_entry(e: &ToDoListEntry, id: i32, date: i64, title: &str) {
    assert_eq!(e.id, id);
    assert_eq!(e.date, date);
    assert_eq!(e.title, title);
}

#[test]
fn new_store_is_empty() {
    let store = ToDoList::new();
    assert_eq!(store.list().len(), 0);
}

#[test]
fn create_appends_one_entry_with_given_fields() {
    let mut store = ToDoList::new();
    let out = store.create("write report".to_string(), 42);
    assert_eq!(out.len(), 1);
    assert_entry(&out[0], 1, 42, "write report");
}

#[test]
fn create_assigns_distinct_increasing_ids() {
    let mut store = ToDoList::new();
    store.create("a".to_string(), 1);
    store.create("b".to_string(), 2);
    let out = store.create("c".to_string(), 3);
    assert_eq!(out.len(), 3);
    assert_entry(&out[0], 1, 1, "a");
    assert_entry(&out[1], 2, 2, "b");
    assert_entry(&out[2], 3, 3, "c");
    for i in 0..out.len() {
        for j in 0..out.len() {
            if i != j {
                assert_ne!(out[i].id, out[j].id);
            }
        }
    }
}

#[test]
fn update_changes_only_the_matching_title() {
    let mut store = ToDoList::new();
    store.create("a".to_string(), 10);
    store.create("b".to_string(), 20);
    let out = store.update(1, "a2".to_string());
    assert_eq!(out.len(), 2);
    assert_entry(&out[0], 1, 10, "a2");
    assert_entry(&out[1], 2, 20, "b");
}

#[test]
fn update_missing_id_is_a_silent_no_op() {
    let mut store = ToDoList::new();
    store.create("a".to_string(), 10);
    let out = store.update(99, "ghost".to_string());
    assert_eq!(out.len(), 1);
    assert_entry(&out[0], 1, 10, "a");
}

#[test]
fn delete_removes_exactly_the_matching_entry() {
    let mut store = ToDoList::new();
    store.create("a".to_string(), 10);
    store.create("b".to_string(), 20);
    store.create("c".to_string(), 30);
    let out = store.delete(2);
    assert_eq!(out.len(), 2);
    assert_entry(&out[0], 1, 10, "a");
    assert_entry(&out[1], 3, 30, "c");
}

#[test]
fn delete_missing_id_is_a_silent_no_op() {
    let mut store = ToDoList::new();
    store.create("a".to_string(), 10);
    let out = store.delete(7);
    assert_eq!(out.len(), 1);
    assert_entry(&out[0], 1, 10, "a");
}

#[test]
fn delete_twice_gives_the_same_collection() {
    let mut store = ToDoList::new();
    store.create("a".to_string(), 10);
    store.create("b".to_string(), 20);
    let once = store.delete(1);
    let twice = store.delete(1);
    assert_eq!(once.len(), twice.len());
    for (x, y) in once.iter().zip(twice.iter()) {
        assert_eq!(x.id, y.id);
        assert_eq!(x.date, y.date);
        assert_eq!(x.title, y.title);
    }
    assert_eq!(twice.len(), 1);
    assert_entry(&twice[0], 2, 20, "b");
}

#[test]
fn list_reflects_the_latest_mutation_and_does_not_mutate() {
    let mut store = ToDoList::new();
    store.create("a".to_string(), 10);
    store.create("b".to_string(), 20);
    store.delete(1);
    let first = store.list();
    let second = store.list();
    assert_eq!(first.len(), 1);
    assert_eq!(second.len(), 1);
    assert_entry(&first[0], 2, 20, "b");
    assert_entry(&second[0], 2, 20, "b");
}

#[test]
fn max_entry_id_tracks_the_largest_id() {
    let mut store = ToDoList::new();
    assert_eq!(store.max_entry_id(), 0);
    store.create("a".to_string(), 10);
    store.create("b".to_string(), 20);
    assert_eq!(store.max_entry_id(), 2);
    store.delete(2);
    assert_eq!(store.max_entry_id(), 1);
}

#[test]
fn end_to_end_crud_scenario() {
    let mut store = ToDoList::new();

    let out = store.create("buy milk".to_string(), 100);
    assert_eq!(out.len(), 1);
    assert_entry(&out[0], 1, 100, "buy milk");

    let out = store.create("call bob".to_string(), 200);
    assert_eq!(out.len(), 2);
    assert_entry(&out[0], 1, 100, "buy milk");
    assert_entry(&out[1], 2, 200, "call bob");

    let out = store.update(1, "buy oat milk".to_string());
    assert_eq!(out.len(), 2);
    assert_entry(&out[0], 1, 100, "buy oat milk");
    assert_entry(&out[1], 2, 200, "call bob");

    let out = store.delete(1);
    assert_eq!(out.len(), 1);
    assert_entry(&out[0], 2, 200, "call bob");
}

#[test]
fn deleting_the_highest_id_frees_it_for_reuse() {
    let mut store = ToDoList::new();
    store.create("a".to_string(), 10);
    store.create("b".to_string(), 20);
    store.delete(2);
    let out = store.create("c".to_string(), 30);
    assert_eq!(out.len(), 2);
    assert_entry(&out[0], 1, 10, "a");
    assert_entry(&out[1], 2, 30, "c");
}
