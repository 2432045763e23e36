//! The S3 REST error format.
//!
//! Amazon S3 reports failures as an XML body together with an HTTP status code.
//! This module holds the error codes, their statuses and `<Code>` strings, and
//! the error value itself; turning it into XML happens where the bytes are sent.
use vstd::prelude::*;

verus! {

/// A subset of the documented S3 error codes.
///
/// Each variant carries the HTTP status code S3 associates with it.
#[derive(Debug, Clone, Copy, PartialEq, Eq, Structural)]
pub enum S3ErrorCode {
    AccessDenied,
    BucketAlreadyExists,
    BucketAlreadyOwnedByYou,
    BucketNotEmpty,
    InvalidBucketName,
    NoSuchBucket,
    NoSuchKey,
    InternalError,
}

impl S3ErrorCode {
    /// The status table of the S3 documentation.
    pub open spec fn status_of(self) -> u16 {
        match self {
            S3ErrorCode::AccessDenied => 403,
            S3ErrorCode::BucketAlreadyExists => 409,
            S3ErrorCode::BucketAlreadyOwnedByYou => 409,
            S3ErrorCode::BucketNotEmpty => 409,
            S3ErrorCode::InvalidBucketName => 400,
            S3ErrorCode::NoSuchBucket => 404,
            S3ErrorCode::NoSuchKey => 404,
            S3ErrorCode::InternalError => 500,
        }
    }

    /// The text of the `<Code>` element: the variant's own name.
    pub open spec fn code_name(self) -> Seq<char> {
        match self {
            S3ErrorCode::AccessDenied => "AccessDenied"@,
            S3ErrorCode::BucketAlreadyExists => "BucketAlreadyExists"@,
            S3ErrorCode::BucketAlreadyOwnedByYou => "BucketAlreadyOwnedByYou"@,
            S3ErrorCode::BucketNotEmpty => "BucketNotEmpty"@,
            S3ErrorCode::InvalidBucketName => "InvalidBucketName"@,
            S3ErrorCode::NoSuchBucket => "NoSuchBucket"@,
            S3ErrorCode::NoSuchKey => "NoSuchKey"@,
            S3ErrorCode::InternalError => "InternalError"@,
        }
    }

    /// The HTTP status code S3 returns for this error.
    pub fn http_status(self) -> (status: u16)
        ensures
            status == self.status_of(),
    {
        match self {
            S3ErrorCode::AccessDenied => 403,
            S3ErrorCode::BucketAlreadyExists => 409,
            S3ErrorCode::BucketAlreadyOwnedByYou => 409,
            S3ErrorCode::BucketNotEmpty => 409,
            S3ErrorCode::InvalidBucketName => 400,
            S3ErrorCode::NoSuchBucket => 404,
            S3ErrorCode::NoSuchKey => 404,
            S3ErrorCode::InternalError => 500,
        }
    }

    /// The string form used in the `<Code>` element.
    pub fn as_str(self) -> (name: &'static str)
        ensures
            name@ == self.code_name(),
    {
        match self {
            S3ErrorCode::AccessDenied => "AccessDenied",
            S3ErrorCode::BucketAlreadyExists => "BucketAlreadyExists",
            S3ErrorCode::BucketAlreadyOwnedByYou => "BucketAlreadyOwnedByYou",
            S3ErrorCode::BucketNotEmpty => "BucketNotEmpty",
            S3ErrorCode::InvalidBucketName => "InvalidBucketName",
            S3ErrorCode::NoSuchBucket => "NoSuchBucket",
            S3ErrorCode::NoSuchKey => "NoSuchKey",
            S3ErrorCode::InternalError => "InternalError",
        }
    }
}

/// What an [`S3Error`] holds, as mathematical values.
pub struct S3ErrorView {
    pub code: S3ErrorCode,
    pub message: Seq<char>,
    pub resource: Option<Seq<char>>,
    pub request_id: Option<Seq<char>>,
}

impl S3ErrorView {
    /// An error with the default message for `code` and nothing attached.
    pub open spec fn for_code(code: S3ErrorCode) -> S3ErrorView {
        S3ErrorView { code, message: code.code_name(), resource: None, request_id: None }
    }

    /// The same error with `message` in place of its message.
    pub open spec fn with_message(self, message: Seq<char>) -> S3ErrorView {
        S3ErrorView {
            code: self.code,
            message,
            resource: self.resource,
            request_id: self.request_id,
        }
    }

    /// The same error with `resource` attached.
    pub open spec fn with_resource(self, resource: Seq<char>) -> S3ErrorView {
        S3ErrorView {
            code: self.code,
            message: self.message,
            resource: Some(resource),
            request_id: self.request_id,
        }
    }

    /// The HTTP status that accompanies this error body.
    pub open spec fn status(self) -> u16 {
        self.code.status_of()
    }

    /// The one-line rendering `Code: message`.
    pub open spec fn line(self) -> Seq<char> {
        self.code.code_name() + ": "@ + self.message
    }
}

/// The view of an optional string.
pub open spec fn opt_str_view(s: Option<String>) -> Option<Seq<char>> {
    match s {
        Some(t) => Some(t@),
        None => None,
    }
}

/// An S3 error response, as S3 clients expect to read it.
#[derive(Debug, Clone)]
pub struct S3Error {
    pub code: S3ErrorCode,
    pub message: String,
    pub resource: Option<String>,
    pub request_id: Option<String>,
}

impl View for S3Error {
    type V = S3ErrorView;

    open spec fn view(&self) -> S3ErrorView {
        S3ErrorView {
            code: self.code,
            message: self.message@,
            resource: opt_str_view(self.resource),
            request_id: opt_str_view(self.request_id),
        }
    }
}

impl S3Error {
    /// Build an error with a default message for the given code.
    pub fn new(code: S3ErrorCode) -> (err: S3Error)
        ensures
            err@ == S3ErrorView::for_code(code),
            err.code == code,
            err.message@ == code.code_name(),
            err.resource is None,
            err.request_id is None,
    {
        S3Error {
            code,
            message: String::from_str(code.as_str()),
            resource: None,
            request_id: None,
        }
    }

    /// Override the human-readable message.
    pub fn with_message(self, message: &str) -> (err: S3Error)
        ensures
            err@ == self@.with_message(message@),
            err.code == self.code,
            err.message@ == message@,
            err.resource == self.resource,
            err.request_id == self.request_id,
    {
        let mut err = self;
        err.message = String::from_str(message);
        err
    }

    /// Attach the offending resource (e.g. `/my-bucket/my-key`).
    pub fn with_resource(self, resource: &str) -> (err: S3Error)
        ensures
            err@ == self@.with_resource(resource@),
            err.code == self.code,
            err.message == self.message,
            err.resource matches Some(r) && r@ == resource@,
            err.request_id == self.request_id,
    {
        let mut err = self;
        err.resource = Some(String::from_str(resource));
        err
    }

    /// The HTTP status code that should accompany this error body.
    pub fn http_status(&self) -> (status: u16)
        ensures
            status == self@.status(),
            status == self.code.status_of(),
    {
        self.code.http_status()
    }

    /// The error as one line: the code's name, a colon, and the message.
    pub fn to_string(&self) -> (line: String)
        ensures
            line@ == self@.line(),
    {
        let mut line = String::from_str(self.code.as_str());
        line.append(": ");
        line.append(self.message.as_str());
        line
    }
}

/// Every error is a client error (4xx) except `InternalError`, which is the
/// server error 500.
pub proof fn lemma_status_classes(code: S3ErrorCode)
    ensures
        code != S3ErrorCode::InternalError <==> 400 <= code.status_of() < 500,
        code == S3ErrorCode::InternalError <==> code.status_of() == 500,
{
}

/// Distinct codes have distinct `<Code>` strings, so the string names the code.
pub proof fn lemma_code_names_distinct(a: S3ErrorCode, b: S3ErrorCode)
    ensures
        a.code_name() == b.code_name() ==> a == b,
{
    reveal_strlit("AccessDenied");
    reveal_strlit("BucketAlreadyExists");
    reveal_strlit("BucketAlreadyOwnedByYou");
    reveal_strlit("BucketNotEmpty");
    reveal_strlit("InvalidBucketName");
    reveal_strlit("NoSuchBucket");
    reveal_strlit("NoSuchKey");
    reveal_strlit("InternalError");
    // Names of the same length already differ at position 0, 2 or 6.
    if a.code_name() == b.code_name() && a != b {
        assert(a.code_name()[0] == b.code_name()[0]);
        assert(a.code_name().len() == b.code_name().len());
        if a.code_name().len() > 2 {
            assert(a.code_name()[2] == b.code_name()[2]);
        }
        if a.code_name().len() > 6 {
            assert(a.code_name()[6] == b.code_name()[6]);
        }
    }
}

/// An error goes out with the status of its code, whatever else it carries.
pub proof fn lemma_status_is_code_status(err: S3ErrorView)
    ensures
        err.status() == err.code.status_of(),
        forall|m: Seq<char>, r: Seq<char>|
            #![trigger err.with_message(m).with_resource(r)]
            err.with_message(m).with_resource(r).status() == err.code.status_of(),
{
}

/// A new error carries the code it was built from, that code's name as its
/// message, and nothing attached; so it goes out with that code's status.
pub proof fn lemma_new_error_fields(code: S3ErrorCode)
    ensures
        S3ErrorView::for_code(code).code == code,
        S3ErrorView::for_code(code).message == code.code_name(),
        S3ErrorView::for_code(code).resource is None,
        S3ErrorView::for_code(code).request_id is None,
        S3ErrorView::for_code(code).status() == code.status_of(),
{
}

/// Attaching a resource changes the resource and nothing else.
pub proof fn lemma_with_resource_changes_only_resource(err: S3ErrorView, resource: Seq<char>)
    ensures
        err.with_resource(resource).code == err.code,
        err.with_resource(resource).message == err.message,
        err.with_resource(resource).request_id == err.request_id,
        err.with_resource(resource).resource == Some(resource),
{
}

/// Overriding the message changes the message and nothing else.
pub proof fn lemma_with_message_changes_only_message(err: S3ErrorView, message: Seq<char>)
    ensures
        err.with_message(message).code == err.code,
        err.with_message(message).message == message,
        err.with_message(message).resource == err.resource,
        err.with_message(message).request_id == err.request_id,
{
}

/// Overriding the message or attaching a resource leaves the status as it was.
pub proof fn lemma_builders_keep_status(err: S3ErrorView, message: Seq<char>, resource: Seq<char>)
    ensures
        err.with_message(message).status() == err.status(),
        err.with_resource(resource).status() == err.status(),
{
}

/// Setting the message and attaching the resource give the same error in either
/// order.
pub proof fn lemma_builders_commute(err: S3ErrorView, message: Seq<char>, resource: Seq<char>)
    ensures
        err.with_message(message).with_resource(resource) == err.with_resource(resource).with_message(
            message,
        ),
{
}

/// Of two messages set one after the other, the last one stays; likewise for
/// resources.
pub proof fn lemma_last_setting_wins(err: S3ErrorView, a: Seq<char>, b: Seq<char>)
    ensures
        err.with_message(a).with_message(b) == err.with_message(b),
        err.with_resource(a).with_resource(b) == err.with_resource(b),
{
}

} // verus!
