use todo_tasks::intake::{int_of_str, intake};
use todo_tasks::model::{NewTask, Status, Task};
use todo_tasks::render::{int_to_string, render_list, render_task_lines};
use todo_tasks::text::{chars_to_string, str_eq, string_to_chars};

fn fields(pairs: &[(&str, &str)]) -> Vec<(String, String)> {
    pairs.iter().map(|(k, v)| (k.to_string(), v.to_string())).collect()
}

#[test]
fn intake_maps_all_fields() {
    let d = intake(&fields(&[
        ("title", "T"),
        ("description", "D"),
        ("due_date", "2024-03-04"),
        ("priority", "3"),
        ("status", "Done"),
    ]))
    .unwrap();
    let expected = NewTask {
        title: "T".to_string(),
        description: Some("D".to_string()),
        due_date: Some("2024-03-04".to_string()),
        status: Status::Done,
        priority: Some(3),
    };
    assert_eq!(d, expected);
}

#[test]
fn intake_without_title_yields_nothing() {
    assert_eq!(intake(&fields(&[("description", "D")])), None);
    assert_eq!(intake(&fields(&[])), None);
}

#[test]
fn intake_empty_title_still_counts_as_present() {
    let d = intake(&fields(&[("title", "")])).unwrap();
    assert_eq!(d.title, "");
}

#[test]
fn int_of_str_exact_cases() {
    assert_eq!(int_of_str("0"), Some(0));
    assert_eq!(int_of_str("42"), Some(42));
    assert_eq!(int_of_str("-42"), Some(-42));
    assert_eq!(int_of_str("2147483647"), Some(i32::MAX));
    assert_eq!(int_of_str("-2147483648"), Some(i32::MIN));
    assert_eq!(int_of_str("2147483648"), None);
    assert_eq!(int_of_str(""), None);
    assert_eq!(int_of_str("-"), None);
    assert_eq!(int_of_str("12x"), None);
    assert_eq!(int_of_str("x12"), None);
    assert_eq!(int_of_str("high"), None);
}

#[test]
fn int_to_string_exact_cases() {
    assert_eq!(int_to_string(0), "0");
    assert_eq!(int_to_string(907), "907");
    assert_eq!(int_to_string(-42), "-42");
    assert_eq!(int_to_string(i32::MIN), "-2147483648");
}

#[test]
fn status_identifier_strings() {
    assert_eq!(Status::Todo.as_str(), "Todo");
    assert_eq!(Status::InProgress.as_str(), "InProgress");
    assert_eq!(Status::Done.as_str(), "Done");
    assert_eq!(Status::Closed.as_str(), "Closed");
}

#[test]
fn render_shows_the_seven_fields_in_order() {
    let t = Task {
        id: 1,
        title: "T".to_string(),
        description: Some("D".to_string()),
        due_date: None,
        status: Status::InProgress,
        priority: Some(-2),
        created_at: "C".to_string(),
        updated_at: "U".to_string(),
    };
    let lines = render_task_lines(&t);
    assert_eq!(lines, vec!["T", "D", "None", "InProgress", "-2", "C", "U"]);
}

#[test]
fn render_list_keeps_collection_order() {
    let mk = |id: i32, title: &str| Task {
        id,
        title: title.to_string(),
        description: None,
        due_date: None,
        status: Status::Todo,
        priority: None,
        created_at: "C".to_string(),
        updated_at: "U".to_string(),
    };
    let rendered = render_list(&vec![mk(1, "one"), mk(2, "two")]);
    assert_eq!(rendered.len(), 2);
    assert_eq!(rendered[0][0], "one");
    assert_eq!(rendered[0][4], "None");
    assert_eq!(rendered[1][0], "two");
}

#[test]
fn text_conversions_round_trip() {
    let chars = string_to_chars("abc \u{3042} \n");
    assert_eq!(chars, vec!['a', 'b', 'c', ' ', '\u{3042}', ' ', '\n']);
    assert_eq!(chars_to_string(&chars), "abc \u{3042} \n");
    assert_eq!(chars_to_string(&vec![]), "");
}

#[test]
fn str_eq_compares_characters() {
    assert!(str_eq("", ""));
    assert!(str_eq("abc", "abc"));
    assert!(!str_eq("abc", "abd"));
    assert!(!str_eq("abc", "ab"));
}
