use optitask::error::ServiceError;
use optitask::model::{
    CreateLabelPayload, CreateProjectPayload, CreateTaskPayload, UpdateLabelChangeset, UpdateLabelPayload,
    UpdateProjectChangeset, UpdateProjectPayload, UpdateTaskChangeset, UpdateTaskPayload,
};
use optitask::store::Store;
use optitask::tasks::TaskQueryParams;

const ALICE: u128 = 0xA11CE;
const BOB: u128 = 0xB0B;

fn project(name: &str) -> CreateProjectPayload {
    CreateProjectPayload { name: name.to_string(), color: Some("#ff0000".to_string()) }
}

fn task(title: &str) -> CreateTaskPayload {
    CreateTaskPayload { project_id: None, title: title.to_string(), description: None, status: None, due_date: None, order: None }
}

fn label(name: &str) -> CreateLabelPayload {
    CreateLabelPayload { name: name.to_string(), color: None }
}

fn is_not_found<T: std::fmt::Debug>(r: Result<T, ServiceError>) -> bool {
    matches!(r, Err(ServiceError::NotFound(_)))
}

#[test]
fn foreign_rows_read_as_missing() {
    let mut store = Store::new();
    store.create_project(ALICE, 1, project("Home"), 10).unwrap();
    store.create_label(ALICE, 2, label("urgent"), 10).unwrap();
    store.create_task(ALICE, 3, task("Paint"), 10).unwrap();

    assert!(is_not_found(store.get_project(BOB, 1)));
    assert!(is_not_found(store.get_project(BOB, 99)));
    assert!(is_not_found(store.get_label(BOB, 2)));
    assert!(is_not_found(store.get_task(BOB, 3)));

    let changes = UpdateProjectChangeset::from_payload(UpdateProjectPayload { name: Some("Mine".to_string()), color: None }, 20);
    assert!(is_not_found(store.update_project(BOB, 1, changes)));
    assert!(is_not_found(store.delete_project(BOB, 1)));
    assert!(is_not_found(store.delete_task(BOB, 3)));
    assert!(is_not_found(store.delete_label(BOB, 2)));
    assert!(is_not_found(store.toggle_task_completion(BOB, 3, 20)));

    let p = store.get_project(ALICE, 1).unwrap();
    assert_eq!(p.name, "Home");
    assert_eq!(p.updated_at, 10);
    assert!(store.list_projects(BOB).is_empty());
    assert_eq!(store.list_projects(ALICE).len(), 1);
}

#[test]
fn taken_identifiers_conflict() {
    let mut store = Store::new();
    store.create_project(ALICE, 1, project("Home"), 10).unwrap();
    assert!(matches!(store.create_project(BOB, 1, project("Other"), 11), Err(ServiceError::ConflictError(_))));
    assert_eq!(store.projects.len(), 1);
}

#[test]
fn absent_key_leaves_the_column_and_null_clears_it() {
    let mut store = Store::new();
    store.create_label(ALICE, 2, CreateLabelPayload { name: "work".to_string(), color: Some("blue".to_string()) }, 10).unwrap();

    let keep = UpdateLabelChangeset::from_payload(UpdateLabelPayload { name: None, color: None }, 20);
    let l = store.update_label(ALICE, 2, keep).unwrap();
    assert_eq!(l.name, "work");
    assert_eq!(l.color.as_deref(), Some("blue"));
    assert_eq!(l.updated_at, 20);

    let set = UpdateLabelChangeset::from_payload(UpdateLabelPayload { name: Some("x".to_string()), color: Some(Some("red".to_string())) }, 30);
    let l = store.update_label(ALICE, 2, set).unwrap();
    assert_eq!(l.name, "x");
    assert_eq!(l.color.as_deref(), Some("red"));

    let clear = UpdateLabelChangeset::from_payload(UpdateLabelPayload { name: None, color: Some(None) }, 40);
    let l = store.update_label(ALICE, 2, clear).unwrap();
    assert_eq!(l.color, None);
    assert_eq!(l.name, "x");
    assert_eq!(store.get_label(ALICE, 2).unwrap().updated_at, 40);
}

#[test]
fn task_update_touches_only_given_fields() {
    let mut store = Store::new();
    let created = store
        .create_task(ALICE, 3, CreateTaskPayload {
            project_id: Some(1),
            title: "Paint".to_string(),
            description: Some("walls".to_string()),
            status: None,
            due_date: None,
            order: Some(4),
        }, 10)
        .unwrap();
    assert_eq!(created.status, "pending");
    let payload = UpdateTaskPayload {
        project_id: Some(None),
        title: None,
        description: None,
        status: Some("doing".to_string()),
        due_date: None,
        order: Some(Some(7)),
    };
    let t = store.update_task(ALICE, 3, UpdateTaskChangeset::from_payload(payload, 20)).unwrap();
    assert_eq!(t.project_id, None);
    assert_eq!(t.title, "Paint");
    assert_eq!(t.description.as_deref(), Some("walls"));
    assert_eq!(t.status, "doing");
    assert_eq!(t.task_order, Some(7));
    assert_eq!(t.created_at, 10);
    assert_eq!(t.updated_at, 20);
}

#[test]
fn adding_a_label_twice_keeps_one_link() {
    let mut store = Store::new();
    store.create_task(ALICE, 3, task("Paint"), 10).unwrap();
    store.create_label(ALICE, 2, label("urgent"), 10).unwrap();
    assert_eq!(store.add_label_to_task(ALICE, 3, 2).unwrap(), true);
    assert_eq!(store.add_label_to_task(ALICE, 3, 2).unwrap(), false);
    assert_eq!(store.task_labels.len(), 1);
    let labels = store.list_labels_for_task(ALICE, 3).unwrap();
    assert_eq!(labels.len(), 1);
    assert_eq!(labels[0].name, "urgent");
    assert_eq!(store.get_task(ALICE, 3).unwrap().labels.len(), 1);
}

#[test]
fn links_need_both_rows_owned_by_the_caller() {
    let mut store = Store::new();
    store.create_task(ALICE, 3, task("Paint"), 10).unwrap();
    store.create_label(BOB, 2, label("bob's"), 10).unwrap();
    store.create_label(ALICE, 4, label("mine"), 10).unwrap();
    assert!(is_not_found(store.add_label_to_task(ALICE, 3, 2)));
    assert!(is_not_found(store.add_label_to_task(BOB, 3, 2)));
    assert!(is_not_found(store.list_labels_for_task(BOB, 3)));
    assert!(store.task_labels.is_empty());
    assert!(store.add_label_to_task(ALICE, 3, 4).unwrap());
}

#[test]
fn removing_a_link_twice_reports_not_found() {
    let mut store = Store::new();
    store.create_task(ALICE, 3, task("Paint"), 10).unwrap();
    store.create_label(ALICE, 2, label("urgent"), 10).unwrap();
    store.add_label_to_task(ALICE, 3, 2).unwrap();
    assert!(is_not_found(store.remove_label_from_task(BOB, 3, 2)));
    assert!(store.remove_label_from_task(ALICE, 3, 2).is_ok());
    assert!(is_not_found(store.remove_label_from_task(ALICE, 3, 2)));
    assert!(store.task_labels.is_empty());
}

#[test]
fn deleting_a_task_removes_its_links_first() {
    let mut store = Store::new();
    store.create_task(ALICE, 3, task("Paint"), 10).unwrap();
    store.create_task(ALICE, 5, task("Sand"), 10).unwrap();
    store.create_label(ALICE, 2, label("urgent"), 10).unwrap();
    store.add_label_to_task(ALICE, 3, 2).unwrap();
    store.add_label_to_task(ALICE, 5, 2).unwrap();
    store.delete_task(ALICE, 3).unwrap();
    assert_eq!(store.task_labels.len(), 1);
    assert_eq!(store.task_labels[0].task_id, 5);
    assert!(is_not_found(store.get_task(ALICE, 3)));
    assert!(is_not_found(store.delete_task(ALICE, 3)));
}

#[test]
fn toggling_flips_between_pending_and_completed() {
    let mut store = Store::new();
    store.create_task(ALICE, 3, task("Paint"), 10).unwrap();
    assert_eq!(store.toggle_task_completion(ALICE, 3, 11).unwrap().status, "completed");
    let t = store.toggle_task_completion(ALICE, 3, 12).unwrap();
    assert_eq!(t.status, "pending");
    assert_eq!(t.updated_at, 12);
    let mut other = task("Inspect");
    other.status = Some("blocked".to_string());
    store.create_task(ALICE, 4, other, 10).unwrap();
    assert_eq!(store.toggle_task_completion(ALICE, 4, 13).unwrap().status, "completed");
}

#[test]
fn task_listing_pages_newest_first() {
    let mut store = Store::new();
    for i in 0..25u128 {
        let mut t = task(&format!("t{}", i));
        t.status = Some(if i % 5 == 0 { "completed".to_string() } else { "pending".to_string() });
        store.create_task(ALICE, 100 + i, t, i as i64).unwrap();
    }
    store.create_task(BOB, 999, task("bob"), 0).unwrap();
    let q = TaskQueryParams { project_id: None, status: None, page: Some(3), per_page: Some(10) };
    let page = store.list_tasks(ALICE, &q);
    assert_eq!(page.total_items, 25);
    assert_eq!(page.total_pages, 3);
    assert_eq!(page.page, 3);
    assert_eq!(page.items.len(), 5);
    assert_eq!(page.items[0].title, "t4");
    assert_eq!(page.items[4].title, "t0");

    let first = store.list_tasks(ALICE, &TaskQueryParams { project_id: None, status: None, page: None, per_page: None });
    assert_eq!((first.page, first.per_page, first.items.len()), (1, 10, 10));
    assert_eq!(first.items[0].title, "t24");

    let done = store.list_tasks(ALICE, &TaskQueryParams { project_id: None, status: Some("completed".to_string()), page: Some(0), per_page: Some(-3) });
    assert_eq!((done.page, done.per_page), (1, 10));
    assert_eq!(done.total_items, 5);
    assert_eq!(done.total_pages, 1);
    assert!(done.items.iter().all(|t| t.status == "completed"));
}

#[test]
fn labels_are_listed_by_name() {
    let mut store = Store::new();
    store.create_task(ALICE, 3, task("Paint"), 10).unwrap();
    for (id, name) in [(20u128, "zeta"), (21, "Alpha"), (22, "beta"), (23, "alpha")] {
        store.create_label(ALICE, id, label(name), 10).unwrap();
        store.add_label_to_task(ALICE, 3, id).unwrap();
    }
    store.create_label(BOB, 30, label("aaa"), 10).unwrap();
    let names: Vec<String> = store.list_labels(ALICE).into_iter().map(|l| l.name).collect();
    assert_eq!(names, vec!["Alpha", "alpha", "beta", "zeta"]);
    let linked: Vec<String> = store.list_labels_for_task(ALICE, 3).unwrap().into_iter().map(|l| l.name).collect();
    assert_eq!(linked, vec!["Alpha", "alpha", "beta", "zeta"]);
}

#[test]
fn a_name_sorts_before_its_extensions() {
    assert!(optitask::text::text_le_exec("ab", "abc"));
    assert!(!optitask::text::text_le_exec("abc", "ab"));
    assert!(optitask::text::text_le_exec("", ""));
    assert!(optitask::text::text_le_exec("Zed", "apple"));
    assert!(optitask::text::text_le_exec("é", "ê"));
}

#[test]
fn task_listing_orders_by_creation_time_not_insertion() {
    let mut store = Store::new();
    store.create_task(ALICE, 1, task("old"), 100).unwrap();
    store.create_task(ALICE, 2, task("newest"), 300).unwrap();
    store.create_task(ALICE, 3, task("middle"), 200).unwrap();
    let page = store.list_tasks(ALICE, &TaskQueryParams { project_id: None, status: None, page: None, per_page: None });
    let titles: Vec<String> = page.items.into_iter().map(|t| t.title).collect();
    assert_eq!(titles, vec!["newest", "middle", "old"]);
}

#[test]
fn not_found_messages_say_nothing_of_the_row() {
    let mut store = Store::new();
    store.create_task(ALICE, 3, task("Secret plan"), 10).unwrap();
    let foreign = store.get_task(BOB, 3).unwrap_err();
    let absent = store.get_task(BOB, 4).unwrap_err();
    assert_eq!(foreign.user_message(), absent.user_message());
    assert_eq!(foreign.user_message(), "Task not found or not owned by user");
}
