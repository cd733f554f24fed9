use tasklist::render::{
    added_message, decimal_string, deleted_message, format_task, not_found_message,
};
use tasklist::{Task, TaskStore};

#[test]
fn decimal_of_single_digits() {
    let expected = ["0", "1", "2", "3", "4", "5", "6", "7", "8", "9"];
    for (n, text) in expected.iter().enumerate() {
        assert_eq!(decimal_string(n as u32), *text);
    }
}

#[test]
fn decimal_of_longer_numbers() {
    assert_eq!(decimal_string(10), "10");
    assert_eq!(decimal_string(42), "42");
    assert_eq!(decimal_string(100), "100");
    assert_eq!(decimal_string(1009), "1009");
    assert_eq!(decimal_string(987_654_321), "987654321");
    assert_eq!(decimal_string(u32::MAX), "4294967295");
}

#[test]
fn decimal_agrees_with_the_standard_rendering() {
    let mut n: u32 = 0;
    for step in 0..2000u32 {
        assert_eq!(decimal_string(n), n.to_string());
        n = n.wrapping_mul(31).wrapping_add(step * 7 + 1);
    }
}

#[test]
fn open_task_has_a_blank_checkbox() {
    let task = Task { id: 1, description: "buy milk".to_string(), completed: false };
    assert_eq!(format_task(&task), "[ ] 1 - buy milk");
}

#[test]
fn completed_task_has_a_checked_checkbox() {
    let task = Task { id: 12, description: "walk dog".to_string(), completed: true };
    assert_eq!(format_task(&task), "[x] 12 - walk dog");
}

#[test]
fn task_line_keeps_the_description_as_it_is() {
    let task = Task { id: 3, description: " - [x] caf\u{e9} \u{1f600} ".to_string(), completed: false };
    assert_eq!(format_task(&task), "[ ] 3 -  - [x] caf\u{e9} \u{1f600} ");
    let empty = Task { id: 4, description: String::new(), completed: false };
    assert_eq!(format_task(&empty), "[ ] 4 - ");
}

#[test]
fn messages_name_the_id() {
    assert_eq!(added_message(1), "Added task with id 1");
    assert_eq!(added_message(250), "Added task with id 250");
    assert_eq!(deleted_message(17), "Deleted task with id 17");
    assert_eq!(not_found_message(3), "Task with id 3 not found.");
    assert_eq!(not_found_message(0), "Task with id 0 not found.");
}

#[test]
fn listing_an_empty_store_says_that_there_are_no_tasks() {
    let store = TaskStore::new();
    assert_eq!(store.list(), vec!["No tasks yet.".to_string()]);
}

#[test]
fn listing_shows_one_line_per_task_in_store_order() {
    let store = TaskStore::from_tasks(vec![
        Task { id: 3, description: "c".to_string(), completed: false },
        Task { id: 1, description: "a".to_string(), completed: true },
        Task { id: 20, description: "t".to_string(), completed: false },
    ]);
    assert_eq!(
        store.list(),
        vec!["[ ] 3 - c".to_string(), "[x] 1 - a".to_string(), "[ ] 20 - t".to_string()]
    );
}
