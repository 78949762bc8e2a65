use eztodo_core::store::{
    AppState, PlanState, todo_create, todo_list, todo_get, todo_update, todo_delete, plan_create,
    plan_list, plan_update, plan_delete, plan_refresh,
};
use eztodo_core::todo::{Todo, TodoCreateInput};
use eztodo_core::plan::Plan;
use eztodo_core::errors::StoreError;
use eztodo_core::history::history_list;
use eztodo_core::atomic::FileState;

fn input(title: &str) -> TodoCreateInput {
    TodoCreateInput {
        title: title.into(),
        description: None,
        important: None,
        due_date: None,
        priority: None,
        category: None,
        from_plan_id: None,
    }
}

fn fresh_store() -> AppState {
    AppState::new("todos.json".into(), Vec::new())
}

#[test]
fn create_fills_defaults() {
    let mut st = fresh_store();
    let t = todo_create(&mut st, input("write"), 1000, "2025-01-01".into()).unwrap();
    assert_eq!(t.title, "write");
    assert_eq!(t.description, "");
    assert_eq!(t.completed, false);
    assert_eq!(t.important, false);
    assert_eq!(t.due_date, None);
    assert_eq!(t.created_at, "2025-01-01");
    assert_eq!(t.completed_at, None);
    assert_eq!(t.priority, "medium");
    assert_eq!(t.category, "");
    assert_eq!(t.from_plan_id, None);
    assert_eq!(todo_list(&st).len(), 1);
}

#[test]
fn create_rejects_blank_title() {
    let mut st = fresh_store();
    let r = todo_create(&mut st, input("   \t "), 1000, "2025-01-01".into());
    assert_eq!(r.err(), Some(StoreError::InvalidInput));
    assert_eq!(todo_list(&st).len(), 0);
    assert_eq!(StoreError::InvalidInput.code(), "BAD_INPUT");
}

#[test]
fn rapid_creation_yields_distinct_ids() {
    let mut st = fresh_store();
    let mut ids = Vec::new();
    for _ in 0..25 {
        let t = todo_create(&mut st, input("x"), 777, "2025-01-01".into()).unwrap();
        ids.push(t.id);
    }
    for i in 0..ids.len() {
        for j in 0..i {
            assert_ne!(ids[i], ids[j]);
        }
    }
    assert_eq!(todo_list(&st).len(), 25);
}

#[test]
fn created_id_avoids_loaded_ids() {
    let mut seed = Vec::new();
    let mut preset = sample_todo();
    preset.id = "900000".into();
    seed.push(preset);
    let mut st = AppState::new("todos.json".into(), seed);
    let t = todo_create(&mut st, input("x"), 5, "2025-01-01".into()).unwrap();
    assert_ne!(t.id, "900000");
    assert_eq!(t.id, "900001");
}

fn sample_todo() -> Todo {
    Todo {
        id: "1".into(),
        title: "t".into(),
        description: "d".into(),
        completed: false,
        important: false,
        due_date: None,
        created_at: "2025-01-01".into(),
        completed_at: None,
        priority: "medium".into(),
        category: "cat".into(),
        from_plan_id: None,
    }
}

#[test]
fn update_then_get_returns_exactly_the_update() {
    let mut st = fresh_store();
    let t = todo_create(&mut st, input("before"), 1, "2025-01-01".into()).unwrap();
    let len0 = todo_list(&st).len();
    let mut changed = t.clone();
    changed.title = "after".into();
    changed.completed = true;
    changed.completed_at = Some("2025-01-02".into());
    let back = todo_update(&mut st, changed.clone()).unwrap();
    assert_eq!(back.title, "after");
    let got = todo_get(&st, &changed.id).unwrap();
    assert_eq!(got.title, "after");
    assert_eq!(got.completed, true);
    assert_eq!(got.completed_at, Some("2025-01-02".to_string()));
    assert_eq!(todo_list(&st).len(), len0);
}

#[test]
fn update_missing_is_not_found() {
    let mut st = fresh_store();
    let r = todo_update(&mut st, sample_todo());
    assert_eq!(r.err(), Some(StoreError::NotFound));
    assert_eq!(StoreError::NotFound.code(), "NOT_FOUND");
}

#[test]
fn delete_missing_leaves_collection_unchanged() {
    let mut st = fresh_store();
    let a = todo_create(&mut st, input("keep"), 1, "2025-01-01".into()).unwrap();
    let r = todo_delete(&mut st, &"no-such-id".to_string());
    assert_eq!(r.err(), Some(StoreError::NotFound));
    let after = todo_list(&st);
    assert_eq!(after.len(), 1);
    assert_eq!(after[0].id, a.id);
    assert_eq!(after[0].title, "keep");
}

#[test]
fn delete_removes_only_the_matching_entity() {
    let mut st = fresh_store();
    let a = todo_create(&mut st, input("first"), 1, "2025-01-01".into()).unwrap();
    let b = todo_create(&mut st, input("second"), 2, "2025-01-01".into()).unwrap();
    assert_eq!(todo_delete(&mut st, &a.id), Ok(true));
    let after = todo_list(&st);
    assert_eq!(after.len(), 1);
    assert_eq!(after[0].id, b.id);
}

#[test]
fn get_missing_is_not_found() {
    let st = fresh_store();
    let r = todo_get(&st, &"42".to_string());
    assert_eq!(r.err(), Some(StoreError::NotFound));
}

fn plan_with(cycle: &str, last_reset: &str, current: i32) -> Plan {
    Plan {
        id: "plan-1".into(),
        title: "run".into(),
        description: "".into(),
        repeat_cycle: cycle.into(),
        plan_days: Vec::new(),
        start_time: "".into(),
        end_time: "".into(),
        repeat_count: None,
        current_count: current,
        cycle_target_count: 5,
        total_completed_count: 9,
        last_reset_date: last_reset.into(),
        created_at: "2024-12-01".into(),
        category: "".into(),
        active: true,
        important: false,
    }
}

#[test]
fn daily_cycle_resets_on_a_new_day_once() {
    let mut st = PlanState::new("plans.json".into(), vec![plan_with("daily", "2025-01-01", 3)]);
    let out = plan_refresh(&mut st, &"2025-01-02".to_string()).unwrap();
    assert_eq!(out.len(), 1);
    assert_eq!(out[0].current_count, 0);
    assert_eq!(out[0].last_reset_date, "2025-01-02");
    assert_eq!(out[0].total_completed_count, 9);
    let again = plan_refresh(&mut st, &"2025-01-02".to_string()).unwrap();
    assert_eq!(again[0].current_count, 0);
    assert_eq!(again[0].last_reset_date, "2025-01-02");
}

#[test]
fn weekly_cycle_resets_across_the_monday_boundary() {
    let mut st = PlanState::new("plans.json".into(), vec![plan_with("weekly", "2025-01-05", 4)]);
    let out = plan_refresh(&mut st, &"2025-01-06".to_string()).unwrap();
    assert_eq!(out[0].current_count, 0);
    assert_eq!(out[0].last_reset_date, "2025-01-06");
}

#[test]
fn weekly_cycle_holds_within_one_week() {
    let mut st = PlanState::new("plans.json".into(), vec![plan_with("weekly", "2025-01-06", 4)]);
    let out = plan_refresh(&mut st, &"2025-01-10".to_string()).unwrap();
    assert_eq!(out[0].current_count, 4);
    assert_eq!(out[0].last_reset_date, "2025-01-06");
}

#[test]
fn monthly_cycle_resets_on_month_change() {
    let mut st = PlanState::new("plans.json".into(), vec![plan_with("monthly", "2025-01-31", 2)]);
    let out = plan_refresh(&mut st, &"2025-02-01".to_string()).unwrap();
    assert_eq!(out[0].current_count, 0);
    assert_eq!(out[0].last_reset_date, "2025-02-01");
}

#[test]
fn monthly_cycle_holds_within_one_month() {
    let mut st = PlanState::new("plans.json".into(), vec![plan_with("monthly", "2025-01-31", 2)]);
    let out = plan_refresh(&mut st, &"2025-01-15".to_string()).unwrap();
    assert_eq!(out[0].current_count, 2);
    assert_eq!(out[0].last_reset_date, "2025-01-31");
}

#[test]
fn unknown_cycle_and_malformed_dates_never_reset() {
    let mut st = PlanState::new(
        "plans.json".into(),
        vec![plan_with("yearly", "2025-01-01", 7), plan_with("daily", "garbage", 7)],
    );
    let out = plan_refresh(&mut st, &"2025-06-01".to_string()).unwrap();
    assert_eq!(out[0].current_count, 7);
    assert_eq!(out[1].current_count, 7);
    assert_eq!(out[1].last_reset_date, "garbage");
}

#[test]
fn refresh_with_unparsable_today_fails() {
    let mut st = PlanState::new("plans.json".into(), vec![plan_with("daily", "2025-01-01", 3)]);
    let r = plan_refresh(&mut st, &"today".to_string());
    assert_eq!(r.err(), Some(StoreError::DateParseError));
    assert_eq!(plan_list(&st)[0].current_count, 3);
    assert_eq!(StoreError::DateParseError.code(), "DATE_PARSE");
}

#[test]
fn plan_ids_carry_the_plan_prefix_and_differ() {
    let mut st = PlanState::new("plans.json".into(), Vec::new());
    let inp = eztodo_core::plan::PlanCreateInput {
        title: "read".into(),
        description: "".into(),
        repeat_cycle: "daily".into(),
        plan_days: vec![1],
        start_time: "".into(),
        end_time: "".into(),
        repeat_count: None,
        cycle_target_count: 1,
        category: "".into(),
        active: true,
        important: false,
    };
    let a = plan_create(&mut st, inp, 50, "2025-01-01".into()).unwrap();
    let inp2 = eztodo_core::plan::PlanCreateInput {
        title: "read".into(),
        description: "".into(),
        repeat_cycle: "daily".into(),
        plan_days: vec![1],
        start_time: "".into(),
        end_time: "".into(),
        repeat_count: None,
        cycle_target_count: 1,
        category: "".into(),
        active: true,
        important: false,
    };
    let b = plan_create(&mut st, inp2, 50, "2025-01-01".into()).unwrap();
    assert!(a.id.starts_with("plan-"));
    assert!(b.id.starts_with("plan-"));
    assert_ne!(a.id, b.id);
    assert_eq!(a.current_count, 0);
    assert_eq!(a.total_completed_count, 0);
    assert_eq!(a.last_reset_date, "2025-01-01");
    assert_eq!(a.created_at, "2025-01-01");
    let r = plan_update(&mut st, plan_with("daily", "2025-01-01", 1));
    assert_eq!(r.err(), Some(StoreError::NotFound));
    assert_eq!(plan_delete(&mut st, &a.id), Ok(true));
    assert_eq!(plan_list(&st).len(), 1);
}

#[test]
fn history_has_one_event_per_open_task() {
    let mut st = fresh_store();
    let t = todo_create(&mut st, input("write"), 1, "2025-01-01".into()).unwrap();
    let h = history_list(&st);
    assert_eq!(h.len(), 1);
    assert_eq!(h[0].type_, "todo_created");
    assert_eq!(h[0].id, format!("h-{}-created", t.id));
    assert_eq!(h[0].timestamp, "2025-01-01");
    assert_eq!(h[0].item_id, t.id);
    assert_eq!(h[0].item_type, "todo");
}

#[test]
fn history_adds_a_completion_event_in_order() {
    let mut st = fresh_store();
    let t = todo_create(&mut st, input("write"), 1, "2025-01-01".into()).unwrap();
    let mut done = t.clone();
    done.completed = true;
    done.completed_at = Some("2025-01-03".into());
    todo_update(&mut st, done).unwrap();
    let h = history_list(&st);
    assert_eq!(h.len(), 2);
    assert_eq!(h[0].type_, "todo_created");
    assert_eq!(h[0].id, format!("h-{}-created", t.id));
    assert_eq!(h[1].type_, "todo_completed");
    assert_eq!(h[1].id, format!("h-{}-completed", t.id));
    assert_eq!(h[1].timestamp, "2025-01-03");
}

#[test]
fn staged_write_keeps_old_content_until_commit() {
    let mut fs = FileState::empty();
    fs.stage("old".to_string());
    fs.commit();
    assert_eq!(fs.read_target(), &Some("old".to_string()));
    fs.stage("new".to_string());
    assert_eq!(fs.read_target(), &Some("old".to_string()));
    fs.commit();
    assert_eq!(fs.read_target(), &Some("new".to_string()));
}

#[test]
fn saved_store_text_reloads_into_the_same_collection() {
    let mut st = fresh_store();
    todo_create(&mut st, input("alpha"), 1, "2025-01-01".into()).unwrap();
    todo_create(&mut st, input("beta"), 2, "2025-01-02".into()).unwrap();
    let text = st.save_text();
    let reloaded = eztodo_core::todo::load_todos(text.as_str());
    let live = todo_list(&st);
    assert_eq!(reloaded.len(), live.len());
    for k in 0..live.len() {
        assert_eq!(reloaded[k].id, live[k].id);
        assert_eq!(reloaded[k].title, live[k].title);
        assert_eq!(reloaded[k].created_at, live[k].created_at);
    }
}
