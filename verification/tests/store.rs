use tasklist::{Task, TaskStore};

fn store_of(entries: &[(u32, &str, bool)]) -> TaskStore {
    let mut tasks = Vec::new();
    for (id, description, completed) in entries {
        tasks.push(Task { id: *id, description: description.to_string(), completed: *completed });
    }
    TaskStore::from_tasks(tasks)
}

fn contents(store: &TaskStore) -> Vec<(u32, String, bool)> {
    store.tasks().iter().map(|t| (t.id, t.description.clone(), t.completed)).collect()
}

#[test]
fn new_store_is_empty() {
    let store = TaskStore::new();
    assert!(store.tasks().is_empty());
    assert_eq!(store.max_id(), 0);
}

#[test]
fn new_task_is_not_completed() {
    let task = Task::new(7, "water plants".to_string());
    assert_eq!(task.id, 7);
    assert_eq!(task.description, "water plants");
    assert!(!task.completed);
}

#[test]
fn from_tasks_keeps_order_and_fields() {
    let store = store_of(&[(5, "e", true), (2, "b", false), (9, "i", false)]);
    assert_eq!(
        contents(&store),
        vec![(5, "e".to_string(), true), (2, "b".to_string(), false), (9, "i".to_string(), false)]
    );
}

#[test]
fn max_id_is_the_greatest_id_wherever_it_stands() {
    assert_eq!(store_of(&[(5, "e", false), (2, "b", false)]).max_id(), 5);
    assert_eq!(store_of(&[(2, "b", false), (5, "e", false)]).max_id(), 5);
    assert_eq!(store_of(&[(3, "c", false), (8, "h", false), (1, "a", false)]).max_id(), 8);
    assert_eq!(store_of(&[(0, "zero", false)]).max_id(), 0);
}

#[test]
fn first_add_gets_id_one() {
    let mut store = TaskStore::new();
    assert_eq!(store.add("buy milk".to_string()), 1);
    assert_eq!(contents(&store), vec![(1, "buy milk".to_string(), false)]);
}

#[test]
fn adds_to_an_empty_store_count_up_from_one() {
    let mut store = TaskStore::new();
    for expected in 1..=25u32 {
        assert_eq!(store.add(format!("task {}", expected)), expected);
    }
    let ids: Vec<u32> = store.tasks().iter().map(|t| t.id).collect();
    assert_eq!(ids, (1..=25u32).collect::<Vec<u32>>());
    assert_eq!(store.tasks()[9].description, "task 10");
}

#[test]
fn add_appends_after_the_greatest_id() {
    let mut store = store_of(&[(4, "d", false), (10, "j", true), (6, "f", false)]);
    assert_eq!(store.add("new".to_string()), 11);
    assert_eq!(
        contents(&store),
        vec![
            (4, "d".to_string(), false),
            (10, "j".to_string(), true),
            (6, "f".to_string(), false),
            (11, "new".to_string(), false)
        ]
    );
}

#[test]
fn add_accepts_an_empty_description() {
    let mut store = TaskStore::new();
    assert_eq!(store.add(String::new()), 1);
    assert_eq!(contents(&store), vec![(1, String::new(), false)]);
}

#[test]
fn add_reaches_the_last_id() {
    let mut store = store_of(&[(u32::MAX - 1, "almost", false)]);
    assert_eq!(store.add("last".to_string()), u32::MAX);
    assert_eq!(store.max_id(), u32::MAX);
}

#[test]
fn id_is_not_reused_while_a_higher_one_remains() {
    let mut store = TaskStore::new();
    store.add("a".to_string());
    store.add("b".to_string());
    store.add("c".to_string());
    assert!(store.delete(2));
    assert_eq!(store.add("d".to_string()), 4);
    assert_eq!(
        contents(&store),
        vec![(1, "a".to_string(), false), (3, "c".to_string(), false), (4, "d".to_string(), false)]
    );
}

#[test]
fn id_of_a_deleted_last_task_is_given_again() {
    let mut store = TaskStore::new();
    store.add("a".to_string());
    store.add("b".to_string());
    assert!(store.delete(2));
    assert_eq!(store.add("c".to_string()), 2);
}

#[test]
fn numbering_restarts_when_all_tasks_are_deleted() {
    let mut store = TaskStore::new();
    store.add("a".to_string());
    store.add("b".to_string());
    assert!(store.delete(1));
    assert!(store.delete(2));
    assert!(store.tasks().is_empty());
    assert_eq!(store.add("c".to_string()), 1);
}

#[test]
fn delete_removes_only_the_task_with_that_id() {
    let mut store = store_of(&[(1, "a", false), (2, "b", true), (3, "c", false)]);
    assert!(store.delete(2));
    assert_eq!(contents(&store), vec![(1, "a".to_string(), false), (3, "c".to_string(), false)]);
}

#[test]
fn delete_of_first_and_last_keeps_the_rest_in_order() {
    let mut store = store_of(&[(1, "a", false), (2, "b", true), (3, "c", false), (4, "d", false)]);
    assert!(store.delete(1));
    assert!(store.delete(4));
    assert_eq!(contents(&store), vec![(2, "b".to_string(), true), (3, "c".to_string(), false)]);
}

#[test]
fn delete_of_unknown_id_changes_nothing() {
    let mut store = store_of(&[(1, "a", false), (2, "b", true), (3, "c", false)]);
    let before = contents(&store);
    assert!(!store.delete(7));
    assert_eq!(contents(&store), before);
}

#[test]
fn delete_on_empty_store_finds_nothing() {
    let mut store = TaskStore::new();
    assert!(!store.delete(1));
    assert!(store.tasks().is_empty());
}

#[test]
fn delete_removes_every_task_that_carries_the_id() {
    let mut store = store_of(&[(2, "x", false), (1, "a", false), (2, "y", true), (3, "c", false), (2, "z", false)]);
    assert!(store.delete(2));
    assert_eq!(contents(&store), vec![(1, "a".to_string(), false), (3, "c".to_string(), false)]);
}

#[test]
fn delete_twice_finds_the_id_only_once() {
    let mut store = store_of(&[(1, "a", false), (2, "b", false)]);
    assert!(store.delete(1));
    assert!(!store.delete(1));
    assert_eq!(contents(&store), vec![(2, "b".to_string(), false)]);
}
