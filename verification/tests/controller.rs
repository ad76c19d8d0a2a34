use todo_tasks::controller::TaskList;
use todo_tasks::model::{NewTask, Status};

fn fields(pairs: &[(&str, &str)]) -> Vec<(String, String)> {
    pairs.iter().map(|(k, v)| (k.to_string(), v.to_string())).collect()
}

#[test]
fn create_increments_length_in_order() {
    let mut list = TaskList::new();
    assert_eq!(list.len(), 0);
    for title in ["first", "second", "third"] {
        let created = list.submit(&fields(&[("title", title)]));
        assert!(created.is_some());
    }
    assert_eq!(list.len(), 3);
    assert_eq!(list.tasks[0].title, "first");
    assert_eq!(list.tasks[1].title, "second");
    assert_eq!(list.tasks[2].title, "third");
}

#[test]
fn id_is_one_plus_length_at_creation() {
    let mut list = TaskList::new();
    for k in 1..=5 {
        let t = list.submit(&fields(&[("title", "t")])).unwrap();
        assert_eq!(t.id, k);
    }
    for (k, t) in list.tasks.iter().enumerate() {
        assert_eq!(t.id as usize, k + 1);
    }
}

#[test]
fn default_status_is_todo() {
    let mut list = TaskList::new();
    let t = list.submit(&fields(&[("title", "no status given")])).unwrap();
    assert_eq!(t.status, Status::Todo);
}

#[test]
fn explicit_status_is_kept() {
    let mut list = TaskList::new();
    let t = list.submit(&fields(&[("title", "x"), ("status", "InProgress")])).unwrap();
    assert_eq!(t.status, Status::InProgress);
    let t = list.submit(&fields(&[("title", "y"), ("status", "Done")])).unwrap();
    assert_eq!(t.status, Status::Done);
    let t = list.submit(&fields(&[("title", "z"), ("status", "Closed")])).unwrap();
    assert_eq!(t.status, Status::Closed);
}

#[test]
fn default_priority_is_zero() {
    let mut list = TaskList::new();
    let t = list.submit(&fields(&[("title", "no priority")])).unwrap();
    assert_eq!(t.priority, Some(0));
}

#[test]
fn missing_title_is_a_noop() {
    let mut list = TaskList::new();
    list.submit(&fields(&[("title", "kept")]));
    let r = list.submit(&fields(&[("description", "no title here")]));
    assert!(r.is_none());
    assert_eq!(list.len(), 1);
    assert_eq!(list.tasks[0].title, "kept");
}

#[test]
fn malformed_status_is_a_noop() {
    let mut list = TaskList::new();
    let r = list.submit(&fields(&[("title", "x"), ("status", "NotAStatus")]));
    assert!(r.is_none());
    assert_eq!(list.len(), 0);
}

#[test]
fn unparsable_priority_counts_as_absent() {
    let mut list = TaskList::new();
    let t = list.submit(&fields(&[("title", "x"), ("priority", "high")])).unwrap();
    assert_eq!(t.priority, Some(0));
    let t = list.submit(&fields(&[("title", "y"), ("priority", "7")])).unwrap();
    assert_eq!(t.priority, Some(7));
    let t = list.submit(&fields(&[("title", "z"), ("priority", "-3")])).unwrap();
    assert_eq!(t.priority, Some(-3));
}

#[test]
fn timestamps_are_equal_and_rfc3339() {
    let before = chrono::Utc::now();
    let mut list = TaskList::new();
    let t = list.submit(&fields(&[("title", "stamped")])).unwrap();
    assert_eq!(t.created_at, t.updated_at);
    let parsed = chrono::DateTime::parse_from_rfc3339(&t.created_at)
        .expect("created_at must be RFC 3339");
    assert!(parsed.with_timezone(&chrono::Utc) >= before);
}

#[test]
fn pending_draft_resets_after_add() {
    let mut list = TaskList::new();
    list.submit(&fields(&[("title", "anything")]));
    assert_eq!(list.pending, NewTask::default());
}

#[test]
fn example_scenario_buy_milk() {
    let mut list = TaskList::new();
    let t = list
        .submit(&fields(&[("title", "Buy milk"), ("due_date", "2024-01-01")]))
        .unwrap();
    assert_eq!(t.id, 1);
    assert_eq!(t.title, "Buy milk");
    assert_eq!(t.description, None);
    assert_eq!(t.due_date, Some("2024-01-01".to_string()));
    assert_eq!(t.status, Status::Todo);
    assert_eq!(t.priority, Some(0));
}

#[test]
fn add_takes_draft_fields_over() {
    let mut list = TaskList::new();
    let draft = NewTask {
        title: "drafted".to_string(),
        description: Some("words".to_string()),
        due_date: None,
        status: Status::Done,
        priority: Some(9),
    };
    let t = list.add(draft);
    assert_eq!(t.id, 1);
    assert_eq!(t.title, "drafted");
    assert_eq!(t.description, Some("words".to_string()));
    assert_eq!(t.due_date, None);
    assert_eq!(t.status, Status::Done);
    assert_eq!(t.priority, Some(9));
    assert_eq!(list.len(), 1);
}
