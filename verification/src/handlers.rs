//! What the S3 operations answer, computed from the server state.
use vstd::prelude::*;
use crate::model::{Bucket, Buckets, ListAllMyBucketsResult, Owner};
use crate::state::{names_increasing, pairs_view, AppState};

verus! {

/// `GET /`: list all buckets owned by the caller, as the body of the
/// `ListAllMyBucketsResult` response: every bucket of the state, in order of
/// names. The server is the owner, `r3st`.
pub fn list_buckets(state: &AppState) -> (result: ListAllMyBucketsResult)
    ensures
        result.owner@ == ("r3st"@, "r3st"@),
        result.buckets@ == state@,
        names_increasing(result.buckets@),
{
    let pairs = state.list_buckets();
    let n = pairs.len();
    let mut bucket: Vec<Bucket> = Vec::new();
    let mut i: usize = 0;
    while i < n
        invariant
            n == pairs@.len(),
            i <= n,
            bucket@.map_values(|b: Bucket| b@) == pairs_view(pairs@).take(i as int),
        decreases n - i,
    {
        let ghost before = bucket@;
        let name = pairs[i].0.clone();
        let creation_date = pairs[i].1.clone();
        let b = Bucket { name, creation_date };
        bucket.push(b);
        assert(bucket@ == before.push(b));
        assert(bucket@.map_values(|b: Bucket| b@) =~= before.map_values(|b: Bucket| b@).push(b@));
        assert(pairs_view(pairs@).take(i + 1) =~= pairs_view(pairs@).take(i as int).push(
            pairs_view(pairs@)[i as int],
        ));
        i = i + 1;
    }
    assert(pairs_view(pairs@).take(n as int) =~= pairs_view(pairs@));
    ListAllMyBucketsResult {
        owner: Owner { id: String::from_str("r3st"), display_name: String::from_str("r3st") },
        buckets: Buckets { bucket },
    }
}

} // verus!
