use r3st::checks::status_is_ok;
use r3st::handlers::list_buckets;
use r3st::model::{Bucket, Buckets, ListAllMyBucketsResult, Owner};
use r3st::state::{AppState, BucketEntry};

#[test]
fn new_state_lists_no_buckets() {
    let state = AppState::new();
    assert!(state.list_buckets().is_empty());
}

#[test]
fn list_buckets_of_new_state() {
    let state = AppState::new();
    let result = list_buckets(&state);
    assert_eq!(result.owner.id, "r3st");
    assert_eq!(result.owner.display_name, "r3st");
    assert!(result.buckets.bucket.is_empty());
    let expected = ListAllMyBucketsResult {
        owner: Owner { id: "r3st".to_string(), display_name: "r3st".to_string() },
        buckets: Buckets::default(),
    };
    assert_eq!(result, expected);
}

#[test]
fn model_values_compare_by_fields() {
    let a = Bucket { name: "demo".into(), creation_date: "2026-06-02T12:00:00.000Z".into() };
    let b = a.clone();
    assert_eq!(a, b);
    let entry = BucketEntry::default();
    assert_eq!(entry.creation_date, "");
}

#[test]
fn only_200_is_ok() {
    assert!(status_is_ok(200));
    assert!(!status_is_ok(201));
    assert!(!status_is_ok(204));
    assert!(!status_is_ok(299));
    assert!(!status_is_ok(199));
    assert!(!status_is_ok(300));
    assert!(!status_is_ok(404));
    assert!(!status_is_ok(500));
}
