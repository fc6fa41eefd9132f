use optitask::auth::{identity_from_header, AuthenticatedUser};
use optitask::error::ServiceError;
use optitask::paging::{paginate, PaginationParams};
use optitask::patch::{replace, Patch};

#[test]
fn statuses_follow_the_kind_of_failure() {
    assert_eq!(ServiceError::bad_request("x").status_code(), 400);
    assert_eq!(ServiceError::validation_error("x").status_code(), 400);
    assert_eq!(ServiceError::unauthorized("x").status_code(), 401);
    assert_eq!(ServiceError::not_found("x").status_code(), 404);
    assert_eq!(ServiceError::conflict("x").status_code(), 409);
    assert_eq!(ServiceError::internal_error("x").status_code(), 500);
    assert_eq!(ServiceError::DatabaseError("x".to_string()).status_code(), 500);
    assert_eq!(ServiceError::PoolError("x".to_string()).status_code(), 500);
}

#[test]
fn server_failures_hide_their_detail() {
    let e = ServiceError::internal_error("connection string leaked");
    assert!(e.is_server_error());
    assert_eq!(e.user_message(), "An internal server error occurred. Please try again later.");
    let e = ServiceError::not_found("Task not found");
    assert!(!e.is_server_error());
    assert_eq!(e.user_message(), "Task not found");
}

#[test]
fn constructors_keep_the_message() {
    match ServiceError::bad_request(String::from("bad input")) {
        ServiceError::BadRequest(m) => assert_eq!(m, "bad input"),
        other => panic!("unexpected {:?}", other),
    }
}

#[test]
fn identity_comes_from_the_header() {
    assert!(matches!(identity_from_header(None), Err(ServiceError::Unauthorized(_))));
    assert!(matches!(identity_from_header(Some("")), Err(ServiceError::BadRequest(_))));
    assert!(matches!(identity_from_header(Some("not-a-uuid")), Err(ServiceError::BadRequest(_))));
    assert_eq!(
        identity_from_header(Some("67e55044-10b1-426f-9247-bb680e5fe0c8")).unwrap(),
        AuthenticatedUser { id: 0x67e5504410b1426f9247bb680e5fe0c8 }
    );
}

#[test]
fn decoded_fields_become_patches() {
    let null: Option<Option<String>> = Some(None);
    assert_eq!(Patch::from_field(null), Patch::Clear);
    let absent: Option<Option<String>> = None;
    assert_eq!(Patch::from_field(absent), Patch::Unset);
    assert_eq!(Patch::from_field(Some(Some("x".to_string()))), Patch::Assign("x".to_string()));
}

#[test]
fn patches_apply_to_a_column() {
    assert_eq!(Patch::<String>::Unset.apply(Some("old".to_string())), Some("old".to_string()));
    assert_eq!(Patch::<String>::Clear.apply(Some("old".to_string())), None);
    assert_eq!(Patch::Assign("x".to_string()).apply(Some("old".to_string())), Some("x".to_string()));
    assert_eq!(Patch::Assign(3).apply(None), Some(3));
    assert_eq!(replace(None, 5), 5);
    assert_eq!(replace(Some(6), 5), 6);
}

#[test]
fn twenty_five_items_make_three_pages() {
    let params = PaginationParams::from_query(Some(3), Some(10));
    assert_eq!(params.total_pages(25), 3);
    assert_eq!(params.slice_of(25), (20, 25));
    let items: Vec<u32> = (0..25).collect();
    let page = paginate(items, params);
    assert_eq!(page.items, vec![20, 21, 22, 23, 24]);
    assert_eq!((page.total_items, page.total_pages, page.page, page.per_page), (25, 3, 3, 10));
}

#[test]
fn page_counts_round_up_and_empty_lists_have_no_pages() {
    let p = PaginationParams::from_query(None, None);
    assert_eq!((p.page, p.per_page), (1, 10));
    assert_eq!(p.total_pages(0), 0);
    assert_eq!(p.total_pages(10), 1);
    assert_eq!(p.total_pages(11), 2);
    let far = PaginationParams::from_query(Some(9), Some(10));
    assert_eq!(far.slice_of(25), (25, 25));
    assert!(paginate(vec![1, 2, 3], far).items.is_empty());
}

#[test]
fn non_positive_paging_values_fall_back_to_defaults() {
    let p = PaginationParams::from_query(Some(0), Some(-5));
    assert_eq!((p.page, p.per_page), (1, 10));
    let p = PaginationParams::from_query(Some(-1), Some(7));
    assert_eq!((p.page, p.per_page), (1, 7));
}

#[test]
fn failures_describe_themselves() {
    assert_eq!(ServiceError::not_found("Task not found").describe(), "Not Found: Task not found");
    assert_eq!(ServiceError::PoolError("timed out".to_string()).describe(), "Pool Error: timed out");
}

#[test]
fn the_clock_gives_a_day_in_range() {
    let day = optitask::calendar::today().unwrap();
    assert!(day.days > optitask::calendar::Date::from_ymd(2020, 1, 1).unwrap().days);
}
