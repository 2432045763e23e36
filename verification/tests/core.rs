use r3st::error::{S3Error, S3ErrorCode};
use r3st::greeting;

#[test]
fn status_codes_match_aws() {
    assert_eq!(S3ErrorCode::NoSuchBucket.http_status(), 404);
    assert_eq!(S3ErrorCode::BucketAlreadyExists.http_status(), 409);
    assert_eq!(S3ErrorCode::InvalidBucketName.http_status(), 400);
}

#[test]
fn greeting_includes_component() {
    assert_eq!(greeting("server"), "Hello from server!");
}

#[test]
fn greeting_of_empty_component() {
    assert_eq!(greeting(""), "Hello from !");
}

#[test]
fn every_status_code() {
    assert_eq!(S3ErrorCode::AccessDenied.http_status(), 403);
    assert_eq!(S3ErrorCode::BucketAlreadyOwnedByYou.http_status(), 409);
    assert_eq!(S3ErrorCode::BucketNotEmpty.http_status(), 409);
    assert_eq!(S3ErrorCode::NoSuchKey.http_status(), 404);
    assert_eq!(S3ErrorCode::InternalError.http_status(), 500);
}

#[test]
fn every_code_name() {
    let all = [
        (S3ErrorCode::AccessDenied, "AccessDenied"),
        (S3ErrorCode::BucketAlreadyExists, "BucketAlreadyExists"),
        (S3ErrorCode::BucketAlreadyOwnedByYou, "BucketAlreadyOwnedByYou"),
        (S3ErrorCode::BucketNotEmpty, "BucketNotEmpty"),
        (S3ErrorCode::InvalidBucketName, "InvalidBucketName"),
        (S3ErrorCode::NoSuchBucket, "NoSuchBucket"),
        (S3ErrorCode::NoSuchKey, "NoSuchKey"),
        (S3ErrorCode::InternalError, "InternalError"),
    ];
    for (code, name) in all {
        assert_eq!(code.as_str(), name);
        assert_eq!(format!("{:?}", code), name);
    }
}

#[test]
fn code_names_are_distinct() {
    let names = [
        S3ErrorCode::AccessDenied.as_str(),
        S3ErrorCode::BucketAlreadyExists.as_str(),
        S3ErrorCode::BucketAlreadyOwnedByYou.as_str(),
        S3ErrorCode::BucketNotEmpty.as_str(),
        S3ErrorCode::InvalidBucketName.as_str(),
        S3ErrorCode::NoSuchBucket.as_str(),
        S3ErrorCode::NoSuchKey.as_str(),
        S3ErrorCode::InternalError.as_str(),
    ];
    for i in 0..names.len() {
        for j in 0..names.len() {
            assert_eq!(i == j, names[i] == names[j]);
        }
    }
}

#[test]
fn statuses_are_client_errors_but_internal() {
    assert!((400..500).contains(&S3ErrorCode::AccessDenied.http_status()));
    assert!((400..500).contains(&S3ErrorCode::NoSuchKey.http_status()));
    assert_eq!(S3ErrorCode::InternalError.http_status(), 500);
}

#[test]
fn new_error_has_default_message() {
    let err = S3Error::new(S3ErrorCode::NoSuchBucket);
    assert_eq!(err.code, S3ErrorCode::NoSuchBucket);
    assert_eq!(err.message, "NoSuchBucket");
    assert_eq!(err.resource, None);
    assert_eq!(err.request_id, None);
    assert_eq!(err.http_status(), 404);
}

#[test]
fn with_resource_attaches_resource() {
    let err = S3Error::new(S3ErrorCode::NoSuchBucket).with_resource("/missing");
    assert_eq!(err.resource.as_deref(), Some("/missing"));
    assert_eq!(err.message, "NoSuchBucket");
    assert_eq!(err.http_status(), 404);
}

#[test]
fn with_message_overrides_message() {
    let err = S3Error::new(S3ErrorCode::AccessDenied).with_message("go away");
    assert_eq!(err.message, "go away");
    assert_eq!(err.code, S3ErrorCode::AccessDenied);
    assert_eq!(err.resource, None);
    assert_eq!(err.http_status(), 403);
}

#[test]
fn builders_commute_and_last_wins() {
    let a = S3Error::new(S3ErrorCode::NoSuchKey).with_message("m").with_resource("/b/k");
    let b = S3Error::new(S3ErrorCode::NoSuchKey).with_resource("/b/k").with_message("m");
    assert_eq!(a.message, b.message);
    assert_eq!(a.resource, b.resource);
    let c = S3Error::new(S3ErrorCode::NoSuchKey).with_message("first").with_message("second");
    assert_eq!(c.message, "second");
    let d = S3Error::new(S3ErrorCode::NoSuchKey).with_resource("/x").with_resource("/y");
    assert_eq!(d.resource.as_deref(), Some("/y"));
}

#[test]
fn error_line() {
    let err = S3Error::new(S3ErrorCode::NoSuchBucket).with_message("no bucket here");
    assert_eq!(err.to_string(), "NoSuchBucket: no bucket here");
    assert_eq!(S3Error::new(S3ErrorCode::InternalError).to_string(), "InternalError: InternalError");
}
