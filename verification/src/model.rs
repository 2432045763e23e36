//! S3 data types shared between the server and the conformance suite.
use vstd::prelude::*;

verus! {

/// The owner of a bucket or object.
#[derive(Debug, Clone, PartialEq, Eq)]
pub struct Owner {
    pub id: String,
    pub display_name: String,
}

impl View for Owner {
    /// The owner's id and display name.
    type V = (Seq<char>, Seq<char>);

    open spec fn view(&self) -> (Seq<char>, Seq<char>) {
        (self.id@, self.display_name@)
    }
}

/// A single bucket entry as returned by `ListBuckets`.
#[derive(Debug, Clone, PartialEq, Eq)]
pub struct Bucket {
    pub name: String,
    /// RFC 3339 timestamp, e.g. `2026-06-02T12:00:00.000Z`.
    pub creation_date: String,
}

impl View for Bucket {
    /// The bucket's name and creation date.
    type V = (Seq<char>, Seq<char>);

    open spec fn view(&self) -> (Seq<char>, Seq<char>) {
        (self.name@, self.creation_date@)
    }
}

/// The response body of the `ListBuckets` (GET Service) operation.
#[derive(Debug, Clone, PartialEq, Eq)]
pub struct ListAllMyBucketsResult {
    pub owner: Owner,
    pub buckets: Buckets,
}

/// Wrapper element so the XML nests as `<Buckets><Bucket/>...</Buckets>`.
#[derive(Debug, Clone, PartialEq, Eq, Default)]
pub struct Buckets {
    pub bucket: Vec<Bucket>,
}

impl View for Buckets {
    /// The buckets, in order, each as its name and creation date.
    type V = Seq<(Seq<char>, Seq<char>)>;

    open spec fn view(&self) -> Seq<(Seq<char>, Seq<char>)> {
        self.bucket@.map_values(|b: Bucket| b@)
    }
}

} // verus!
