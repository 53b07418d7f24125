//! The documents this crate writes are plain JSON: an independent JSON
//! parser must read them back with the same field values.

use serde_json::Value;
use todo_app_rust::codec::encode_tasks;
use todo_app_rust::task::Task;

fn check_against_serde(tasks: Vec<Task>) {
    let text = encode_tasks(&tasks);
    let parsed: Value = serde_json::from_str(&text).expect("the document must be valid JSON");
    let arr = parsed.as_array().expect("the document must be a JSON array");
    assert_eq!(arr.len(), tasks.len());
    for (obj, t) in arr.iter().zip(tasks.iter()) {
        let name = obj.get("name").and_then(Value::as_str).expect("a name string");
        let completed = obj.get("completed").and_then(Value::as_bool).expect("a completed flag");
        assert_eq!(name, t.name);
        assert_eq!(completed, t.completed);
        assert_eq!(obj.as_object().map(|m| m.len()), Some(2));
    }
}

#[test]
fn plain_names_are_valid_json() {
    check_against_serde(vec![
        Task { name: "buy milk".to_string(), completed: false },
        Task { name: "pay rent".to_string(), completed: true },
        Task { name: "".to_string(), completed: false },
    ]);
}

#[test]
fn escaped_names_are_valid_json() {
    check_against_serde(vec![
        Task { name: "say \"hi\"".to_string(), completed: false },
        Task { name: "a\\b\\\\c".to_string(), completed: true },
        Task { name: "line\nbreak\ttab\rret".to_string(), completed: false },
        Task { name: "caf\u{e9} \u{1f600}".to_string(), completed: true },
    ]);
}

#[test]
fn empty_list_is_valid_json() {
    let tasks: Vec<Task> = Vec::new();
    let text = encode_tasks(&tasks);
    let parsed: Value = serde_json::from_str(&text).expect("the document must be valid JSON");
    assert_eq!(parsed.as_array().map(|a| a.len()), Some(0));
}
