use eztodo_core::todo::{Todo, save_todos, load_todos};
use eztodo_core::plan::{Plan, save_plans, load_plans};
use eztodo_core::date::{parse_date, same_week, Date};

fn sample_todo() -> Todo {
    Todo {
        id: "1".into(),
        title: "t".into(),
        description: "d".into(),
        completed: false,
        important: false,
        due_date: None,
        created_at: "2025-01-01".into(),
        completed_at: None,
        priority: "medium".into(),
        category: "cat".into(),
        from_plan_id: None,
    }
}

#[test]
fn load_save_roundtrip() {
    let a = sample_todo();
    let mut v = Vec::new();
    v.push(a.clone());
    let text = save_todos(&v);
    let out = load_todos(text.as_str());
    assert_eq!(out.len(), 1);
    assert_eq!(out[0].id, "1");
}

#[test]
fn roundtrip_empty_collection() {
    let v: Vec<Todo> = Vec::new();
    let text = save_todos(&v);
    assert_eq!(text, "[]");
    let out = load_todos(text.as_str());
    assert_eq!(out.len(), 0);
}

#[test]
fn roundtrip_keeps_every_field() {
    let mut a = sample_todo();
    a.title = "say \"hi\" \\ there".into();
    a.description = "line one".into();
    a.completed = true;
    a.important = true;
    a.due_date = Some("2025-03-04".into());
    a.completed_at = Some("2025-01-03".into());
    a.from_plan_id = Some("plan-7".into());
    let b = sample_todo();
    let v = vec![a, b];
    let text = save_todos(&v);
    let out = load_todos(text.as_str());
    assert_eq!(out.len(), 2);
    assert_eq!(out[0].title, "say \"hi\" \\ there");
    assert_eq!(out[0].completed, true);
    assert_eq!(out[0].important, true);
    assert_eq!(out[0].due_date, Some("2025-03-04".to_string()));
    assert_eq!(out[0].completed_at, Some("2025-01-03".to_string()));
    assert_eq!(out[0].from_plan_id, Some("plan-7".to_string()));
    assert_eq!(out[1].due_date, None);
    assert_eq!(out[1].completed_at, None);
    assert_eq!(out[1].from_plan_id, None);
}

#[test]
fn malformed_text_loads_as_empty() {
    assert_eq!(load_todos("not json").len(), 0);
    assert_eq!(load_todos("").len(), 0);
    assert_eq!(load_todos("[{\"id\":\"1\"}]").len(), 0);
    assert_eq!(load_todos("[]trailing").len(), 0);
}

fn sample_plan() -> Plan {
    Plan {
        id: "plan-1".into(),
        title: "run".into(),
        description: "morning run".into(),
        repeat_cycle: "daily".into(),
        plan_days: vec![1, 3, 5],
        start_time: "07:00".into(),
        end_time: "08:00".into(),
        repeat_count: None,
        current_count: 3,
        cycle_target_count: 5,
        total_completed_count: 42,
        last_reset_date: "2025-01-01".into(),
        created_at: "2024-12-01".into(),
        category: "health".into(),
        active: true,
        important: false,
    }
}

#[test]
fn plan_roundtrip_keeps_every_field() {
    let mut a = sample_plan();
    a.repeat_count = Some(10);
    a.current_count = -2;
    let b = sample_plan();
    let v = vec![a, b];
    let text = save_plans(&v);
    let out = load_plans(text.as_str());
    assert_eq!(out.len(), 2);
    assert_eq!(out[0].repeat_count, Some(10));
    assert_eq!(out[0].current_count, -2);
    assert_eq!(out[0].plan_days, vec![1, 3, 5]);
    assert_eq!(out[0].total_completed_count, 42);
    assert_eq!(out[1].repeat_count, None);
    assert_eq!(out[1].last_reset_date, "2025-01-01");
    assert_eq!(out[1].active, true);
}

#[test]
fn plan_roundtrip_empty_days() {
    let mut a = sample_plan();
    a.plan_days = Vec::new();
    let text = save_plans(&vec![a]);
    let out = load_plans(text.as_str());
    assert_eq!(out.len(), 1);
    assert_eq!(out[0].plan_days.len(), 0);
}

#[test]
fn date_parsing_accepts_calendar_dates() {
    assert_eq!(parse_date("2025-01-31"), Some(Date { y: 2025, m: 1, d: 31 }));
    assert_eq!(parse_date("2024-02-29"), Some(Date { y: 2024, m: 2, d: 29 }));
    assert_eq!(parse_date("2025-1-2"), Some(Date { y: 2025, m: 1, d: 2 }));
}

#[test]
fn date_parsing_rejects_malformed_input() {
    assert_eq!(parse_date("2025-02-29"), None);
    assert_eq!(parse_date("2025-13-01"), None);
    assert_eq!(parse_date("2025-00-10"), None);
    assert_eq!(parse_date("2025-04-31"), None);
    assert_eq!(parse_date("not-a-date"), None);
    assert_eq!(parse_date(""), None);
    assert_eq!(parse_date("2025-01"), None);
    assert_eq!(parse_date("2025-01-01-01"), None);
    assert_eq!(parse_date("10000-01-01"), None);
}

#[test]
fn week_boundaries_start_on_monday() {
    let sunday = parse_date("2025-01-05").unwrap();
    let monday = parse_date("2025-01-06").unwrap();
    let friday = parse_date("2025-01-10").unwrap();
    assert!(!same_week(sunday, monday));
    assert!(same_week(monday, friday));
    assert!(same_week(monday, monday));
}
