use todo_tasks::model::{Status, Task};
use todo_tasks::storage::{load_all, save_all, storage_key};

fn task(id: i32, title: &str) -> Task {
    Task {
        id,
        title: title.to_string(),
        description: None,
        due_date: None,
        status: Status::Todo,
        priority: Some(0),
        created_at: "2024-01-01T00:00:00+00:00".to_string(),
        updated_at: "2024-01-01T00:00:00+00:00".to_string(),
    }
}

#[test]
fn key_is_fixed() {
    assert_eq!(storage_key(), "todo_tasks");
}

#[test]
fn empty_collection_saves_as_empty_array() {
    assert_eq!(save_all(&vec![]), "[]");
}

#[test]
fn one_task_saves_to_the_exact_wire_text() {
    let t = Task {
        id: 1,
        title: "a".to_string(),
        description: None,
        due_date: None,
        status: Status::Todo,
        priority: Some(0),
        created_at: "C".to_string(),
        updated_at: "U".to_string(),
    };
    assert_eq!(
        save_all(&vec![t]),
        "[{\"id\":1,\"title\":\"a\",\"description\":null,\"dueDate\":null,\
         \"status\":\"Todo\",\"priority\":0,\"createdAt\":\"C\",\"updatedAt\":\"U\"}]"
    );
}

#[test]
fn round_trip_preserves_everything() {
    let a = Task {
        id: 1,
        title: "plain".to_string(),
        description: Some("some words".to_string()),
        due_date: Some("2024-06-30".to_string()),
        status: Status::InProgress,
        priority: Some(-5),
        created_at: "2024-01-01T10:20:30.123456+00:00".to_string(),
        updated_at: "2024-01-01T10:20:30.123456+00:00".to_string(),
    };
    let b = Task {
        id: 2,
        title: "with \"quotes\" and \\slashes\\ and\nnewlines\tand tabs".to_string(),
        description: None,
        due_date: None,
        status: Status::Closed,
        priority: None,
        created_at: "C".to_string(),
        updated_at: "U".to_string(),
    };
    let tasks = vec![a, b];
    let blob = save_all(&tasks);
    let loaded = load_all(Some(blob.as_str()));
    assert_eq!(loaded, tasks);
}

#[test]
fn round_trip_of_empty_collection() {
    let blob = save_all(&vec![]);
    assert_eq!(load_all(Some(blob.as_str())), vec![]);
}

#[test]
fn absent_value_loads_as_empty() {
    assert_eq!(load_all(None), vec![]);
}

#[test]
fn corrupt_values_load_as_empty() {
    for corrupt in [
        "",
        "not json at all",
        "{\"id\":1}",
        "[{\"id\":}]",
        "[{\"id\":1,\"title\":\"a\"}]",
        "nullnull",
        "[",
        "]",
    ] {
        assert_eq!(load_all(Some(corrupt)), vec![], "stored: {corrupt:?}");
    }
}

#[test]
fn trailing_garbage_loads_as_empty() {
    let mut blob = save_all(&vec![task(1, "a")]);
    blob.push(' ');
    assert_eq!(load_all(Some(blob.as_str())), vec![]);
}

#[test]
fn canonical_text_written_by_hand_loads() {
    let text = "[{\"id\":7,\"title\":\"t\",\"description\":\"d\",\"dueDate\":\"2024-02-02\",\
        \"status\":\"Done\",\"priority\":-12,\"createdAt\":\"C\",\"updatedAt\":\"U\"}]";
    let loaded = load_all(Some(text));
    assert_eq!(loaded.len(), 1);
    let t = &loaded[0];
    assert_eq!(t.id, 7);
    assert_eq!(t.title, "t");
    assert_eq!(t.description, Some("d".to_string()));
    assert_eq!(t.due_date, Some("2024-02-02".to_string()));
    assert_eq!(t.status, Status::Done);
    assert_eq!(t.priority, Some(-12));
    assert_eq!(t.created_at, "C");
    assert_eq!(t.updated_at, "U");
}

#[test]
fn escaped_text_loads_back_unescaped() {
    let text = "[{\"id\":1,\"title\":\"say \\\"hi\\\"\\n\",\"description\":null,\
        \"dueDate\":null,\"status\":\"Todo\",\"priority\":null,\
        \"createdAt\":\"C\",\"updatedAt\":\"U\"}]";
    let loaded = load_all(Some(text));
    assert_eq!(loaded.len(), 1);
    assert_eq!(loaded[0].title, "say \"hi\"\n");
    assert_eq!(loaded[0].priority, None);
}

#[test]
fn id_out_of_machine_range_is_corrupt() {
    let text = "[{\"id\":99999999999,\"title\":\"t\",\"description\":null,\"dueDate\":null,\
        \"status\":\"Todo\",\"priority\":0,\"createdAt\":\"C\",\"updatedAt\":\"U\"}]";
    assert_eq!(load_all(Some(text)), vec![]);
}
