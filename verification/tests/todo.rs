use todo_app_rust::codec::{decode_tasks, encode_tasks, LoadOutcome};
use todo_app_rust::num::{parse_line_number, parse_menu_number, NumParseError};
use todo_app_rust::ops::{
    add_task, complete_task, delete_task, list_tasks, menu_choice, store_path, ListOutcome,
    MenuAction, MenuOutcome, MutateOutcome, SaveOutcome,
};
use todo_app_rust::task::Task;

fn task(name: &str, completed: bool) -> Task {
    Task { name: name.to_string(), completed }
}

fn decoded(text: &str) -> Vec<Task> {
    match decode_tasks(text) {
        LoadOutcome::Loaded(v) => v,
        _ => panic!("expected a loaded task list"),
    }
}

// --- the codec ---

#[test]
fn encode_matches_expected_text() {
    let tasks = vec![task("buy milk", false)];
    assert_eq!(encode_tasks(&tasks), "[{\"name\":\"buy milk\",\"completed\":false}]");
}

#[test]
fn encode_empty_list_is_empty_array() {
    let tasks: Vec<Task> = Vec::new();
    assert_eq!(encode_tasks(&tasks), "[]");
}

#[test]
fn round_trip_returns_equal_sequence() {
    let tasks = vec![task("buy milk", false), task("pay rent", true), task("", false)];
    let text = encode_tasks(&tasks);
    let back = decoded(&text);
    assert_eq!(back.len(), 3);
    for (a, b) in tasks.iter().zip(back.iter()) {
        assert_eq!(a.name, b.name);
        assert_eq!(a.completed, b.completed);
    }
}

#[test]
fn round_trip_keeps_escaped_characters() {
    let tasks = vec![
        task("say \"hi\"", false),
        task("back\\slash", true),
        task("line\nbreak\ttab\rret", false),
        task("caf\u{e9} \u{1f600}", true),
    ];
    let text = encode_tasks(&tasks);
    let back = decoded(&text);
    assert_eq!(back.len(), 4);
    for (a, b) in tasks.iter().zip(back.iter()) {
        assert_eq!(a.name, b.name);
        assert_eq!(a.completed, b.completed);
    }
}

#[test]
fn empty_text_is_the_empty_store() {
    assert!(matches!(decode_tasks(""), LoadOutcome::EmptyStore));
}

#[test]
fn empty_array_loads_zero_tasks() {
    assert!(decoded("[]").is_empty());
}

#[test]
fn corrupt_text_is_reported() {
    assert!(matches!(decode_tasks("not json"), LoadOutcome::Corrupt));
    assert!(matches!(decode_tasks("{\"name\":\"a\",\"completed\":false}"), LoadOutcome::Corrupt));
    assert!(matches!(decode_tasks("[{\"name\":\"a\",\"completed\":false}"), LoadOutcome::Corrupt));
    assert!(matches!(decode_tasks("[{\"name\":\"a\",\"completed\":2}]"), LoadOutcome::Corrupt));
    assert!(matches!(decode_tasks("[ ]"), LoadOutcome::Corrupt));
}

// --- number parsing ---

#[test]
fn line_numbers_parse_like_std() {
    assert_eq!(parse_line_number("7"), Ok(7));
    assert_eq!(parse_line_number(" 42\n"), Ok(42));
    assert_eq!(parse_line_number("+3"), Ok(3));
    assert_eq!(parse_line_number("0"), Ok(0));
    assert_eq!(parse_line_number(""), Err(NumParseError::Empty));
    assert_eq!(parse_line_number("  \n"), Err(NumParseError::Empty));
    assert_eq!(parse_line_number("abc"), Err(NumParseError::InvalidDigit));
    assert_eq!(parse_line_number("-1"), Err(NumParseError::InvalidDigit));
    assert_eq!(parse_line_number("1.5"), Err(NumParseError::InvalidDigit));
    assert_eq!(parse_line_number("+"), Err(NumParseError::InvalidDigit));
    assert_eq!(
        parse_line_number("99999999999999999999999999"),
        Err(NumParseError::TooLarge)
    );
}

#[test]
fn menu_numbers_parse_like_std() {
    assert_eq!(parse_menu_number("4"), Ok(4));
    assert_eq!(parse_menu_number("-3"), Ok(-3));
    assert_eq!(parse_menu_number("+2"), Ok(2));
    assert_eq!(parse_menu_number("2147483647"), Ok(2147483647));
    assert_eq!(parse_menu_number("-2147483648"), Ok(-2147483648));
    assert_eq!(parse_menu_number("2147483648"), Err(NumParseError::TooLarge));
    assert_eq!(parse_menu_number("-2147483649"), Err(NumParseError::TooSmall));
    assert_eq!(parse_menu_number("-"), Err(NumParseError::InvalidDigit));
    assert_eq!(parse_menu_number("two"), Err(NumParseError::InvalidDigit));
}

// --- the list operation ---

#[test]
fn listing_prints_number_name_and_status() {
    let text = "[{\"name\":\"buy milk\",\"completed\":false},{\"name\":\"pay rent\",\"completed\":true}]";
    match list_tasks(text) {
        ListOutcome::Listing(lines) => {
            assert_eq!(lines, vec!["1) buy milk: Not completed", "2) pay rent: Completed"]);
        },
        _ => panic!("expected a listing"),
    }
}

#[test]
fn listing_numbers_grow_past_nine() {
    let tasks: Vec<Task> = (0..12).map(|i| task(&format!("t{}", i), false)).collect();
    let text = encode_tasks(&tasks);
    match list_tasks(&text) {
        ListOutcome::Listing(lines) => {
            assert_eq!(lines.len(), 12);
            assert_eq!(lines[9], "10) t9: Not completed");
            assert_eq!(lines[11], "12) t11: Not completed");
        },
        _ => panic!("expected a listing"),
    }
}

#[test]
fn listing_empty_store_has_no_lines() {
    assert!(matches!(list_tasks(""), ListOutcome::NoTasksYet));
    assert!(matches!(list_tasks("nonsense"), ListOutcome::Corrupt));
}

// --- the add operation ---

#[test]
fn add_appends_a_fresh_task_last() {
    let text = encode_tasks(&vec![task("a", true), task("b", false)]);
    match add_task(&text, " pay bills \n") {
        SaveOutcome::Saved(doc) => {
            let v = decoded(&doc);
            assert_eq!(v.len(), 3);
            assert_eq!(v[0].name, "a");
            assert_eq!(v[1].name, "b");
            assert_eq!(v[2].name, "pay bills");
            assert!(!v[2].completed);
            assert!(v[0].completed);
        },
        _ => panic!("expected a saved document"),
    }
}

#[test]
fn add_to_empty_store_makes_one_task() {
    match add_task("", "first\n") {
        SaveOutcome::Saved(doc) => {
            assert_eq!(doc, "[{\"name\":\"first\",\"completed\":false}]");
        },
        _ => panic!("expected a saved document"),
    }
}

#[test]
fn add_accepts_an_empty_name() {
    match add_task("", "\n") {
        SaveOutcome::Saved(doc) => {
            assert_eq!(doc, "[{\"name\":\"\",\"completed\":false}]");
        },
        _ => panic!("expected a saved document"),
    }
}

#[test]
fn add_aborts_on_corrupt_store() {
    assert!(matches!(add_task("nonsense", "x"), SaveOutcome::Corrupt));
}

// --- the toggle operation ---

#[test]
fn toggle_flips_exactly_one_task() {
    let text = "[{\"name\":\"buy milk\",\"completed\":false},{\"name\":\"pay rent\",\"completed\":true}]";
    match complete_task(text, "1") {
        MutateOutcome::Saved(doc) => {
            assert_eq!(
                doc,
                "[{\"name\":\"buy milk\",\"completed\":true},{\"name\":\"pay rent\",\"completed\":true}]"
            );
        },
        _ => panic!("expected a saved document"),
    }
}

#[test]
fn toggle_twice_restores_the_list() {
    let text = encode_tasks(&vec![task("a", false), task("b", true), task("c", false)]);
    let once = match complete_task(&text, "2") {
        MutateOutcome::Saved(doc) => doc,
        _ => panic!("expected a saved document"),
    };
    assert_ne!(once, text);
    let twice = match complete_task(&once, "2") {
        MutateOutcome::Saved(doc) => doc,
        _ => panic!("expected a saved document"),
    };
    assert_eq!(twice, text);
}

#[test]
fn toggle_rejects_out_of_range_numbers() {
    let text = encode_tasks(&vec![task("a", false), task("b", true)]);
    assert!(matches!(complete_task(&text, "0"), MutateOutcome::OutOfRange));
    assert!(matches!(complete_task(&text, "3"), MutateOutcome::OutOfRange));
    assert!(matches!(complete_task(&text, "2"), MutateOutcome::Saved(_)));
}

#[test]
fn toggle_reports_bad_numbers_and_bad_stores() {
    let text = encode_tasks(&vec![task("a", false)]);
    assert!(matches!(
        complete_task(&text, "abc"),
        MutateOutcome::BadNumber(NumParseError::InvalidDigit)
    ));
    assert!(matches!(
        complete_task(&text, "\n"),
        MutateOutcome::BadNumber(NumParseError::Empty)
    ));
    assert!(matches!(complete_task("", "1"), MutateOutcome::EmptyStore));
    assert!(matches!(complete_task("nonsense", "1"), MutateOutcome::Corrupt));
}

// --- the delete operation ---

#[test]
fn delete_removes_exactly_one_and_keeps_order() {
    let text = encode_tasks(&vec![task("a", false), task("b", true), task("c", false)]);
    match delete_task(&text, "2") {
        MutateOutcome::Saved(doc) => {
            let v = decoded(&doc);
            assert_eq!(v.len(), 2);
            assert_eq!(v[0].name, "a");
            assert_eq!(v[1].name, "c");
        },
        _ => panic!("expected a saved document"),
    }
}

#[test]
fn delete_rejects_out_of_range_numbers() {
    let text = encode_tasks(&vec![task("a", false)]);
    assert!(matches!(delete_task(&text, "0"), MutateOutcome::OutOfRange));
    assert!(matches!(delete_task(&text, "2"), MutateOutcome::OutOfRange));
    assert!(matches!(delete_task("", "1"), MutateOutcome::EmptyStore));
    assert!(matches!(
        delete_task(&text, "x"),
        MutateOutcome::BadNumber(NumParseError::InvalidDigit)
    ));
}

#[test]
fn delete_last_task_leaves_the_empty_array() {
    let text = encode_tasks(&vec![task("only", true)]);
    match delete_task(&text, "1") {
        MutateOutcome::Saved(doc) => assert_eq!(doc, "[]"),
        _ => panic!("expected a saved document"),
    }
}

// --- the worked scenario ---

#[test]
fn toggle_then_delete_scenario() {
    let start = "[{\"name\":\"buy milk\",\"completed\":false},{\"name\":\"pay rent\",\"completed\":true}]";
    let after_toggle = match complete_task(start, "1") {
        MutateOutcome::Saved(doc) => doc,
        _ => panic!("expected a saved document"),
    };
    assert_eq!(
        after_toggle,
        "[{\"name\":\"buy milk\",\"completed\":true},{\"name\":\"pay rent\",\"completed\":true}]"
    );
    let after_delete = match delete_task(&after_toggle, "2") {
        MutateOutcome::Saved(doc) => doc,
        _ => panic!("expected a saved document"),
    };
    assert_eq!(after_delete, "[{\"name\":\"buy milk\",\"completed\":true}]");
}

// --- the menu shell helpers ---

#[test]
fn menu_choices_map_to_actions() {
    assert!(matches!(menu_choice("0\n"), MenuOutcome::Action(MenuAction::ListTasks)));
    assert!(matches!(menu_choice("1"), MenuOutcome::Action(MenuAction::AddTask)));
    assert!(matches!(menu_choice("2"), MenuOutcome::Action(MenuAction::CompleteTask)));
    assert!(matches!(menu_choice("3"), MenuOutcome::Action(MenuAction::DeleteTask)));
    assert!(matches!(menu_choice("4"), MenuOutcome::Action(MenuAction::Exit)));
    assert!(matches!(menu_choice("5"), MenuOutcome::OutOfRange));
    assert!(matches!(menu_choice("-1"), MenuOutcome::OutOfRange));
    assert!(matches!(
        menu_choice("x"),
        MenuOutcome::BadNumber(NumParseError::InvalidDigit)
    ));
}

#[test]
fn store_path_appends_the_suffix() {
    assert_eq!(store_path(None), "tasks.json");
    assert_eq!(store_path(Some("mylist")), "mylist.json");
}
