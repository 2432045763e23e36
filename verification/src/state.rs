//! In-memory server state: the buckets, kept in order of their names.
use vstd::prelude::*;

verus! {

/// The order of bucket names: that of their characters' code points, compared
/// from the left, a proper prefix coming first.
pub open spec fn name_lt(a: Seq<char>, b: Seq<char>) -> bool
    decreases a.len(),
{
    if a.len() == 0 {
        b.len() > 0
    } else if b.len() == 0 {
        false
    } else if a[0] != b[0] {
        (a[0] as int) < (b[0] as int)
    } else {
        name_lt(a.drop_first(), b.drop_first())
    }
}

/// The names in `entries` strictly increase from first to last.
pub open spec fn names_increasing(entries: Seq<(Seq<char>, Seq<char>)>) -> bool {
    forall|i: int, j: int|
        0 <= i < j < entries.len() ==> name_lt(#[trigger] entries[i].0, #[trigger] entries[j].0)
}

/// No name comes before itself.
pub proof fn lemma_name_lt_irreflexive(a: Seq<char>)
    ensures
        !name_lt(a, a),
    decreases a.len(),
{
    if a.len() > 0 {
        lemma_name_lt_irreflexive(a.drop_first());
    }
}

/// The order of names is transitive.
pub proof fn lemma_name_lt_transitive(a: Seq<char>, b: Seq<char>, c: Seq<char>)
    requires
        name_lt(a, b),
        name_lt(b, c),
    ensures
        name_lt(a, c),
    decreases a.len(),
{
    if a.len() > 0 && b.len() > 0 && c.len() > 0 && a[0] == b[0] && b[0] == c[0] {
        lemma_name_lt_transitive(a.drop_first(), b.drop_first(), c.drop_first());
    }
}

/// A listing whose names increase names no bucket twice.
pub proof fn lemma_listing_names_distinct(entries: Seq<(Seq<char>, Seq<char>)>)
    requires
        names_increasing(entries),
    ensures
        forall|i: int, j: int|
            0 <= i < entries.len() && 0 <= j < entries.len() && i != j ==> #[trigger] entries[i].0
                != #[trigger] entries[j].0,
{
    assert forall|i: int, j: int|
        0 <= i < entries.len() && 0 <= j < entries.len() && i != j implies #[trigger] entries[i].0
        != #[trigger] entries[j].0 by {
        if entries[i].0 == entries[j].0 {
            lemma_name_lt_irreflexive(entries[i].0);
            if i < j {
                assert(name_lt(entries[i].0, entries[j].0));
            } else {
                assert(name_lt(entries[j].0, entries[i].0));
            }
        }
    }
}

/// The `(name, creation_date)` pairs of `pairs` as mathematical values.
pub open spec fn pairs_view(pairs: Seq<(String, String)>) -> Seq<(Seq<char>, Seq<char>)> {
    pairs.map_values(|p: (String, String)| (p.0@, p.1@))
}

/// A bucket and its (currently empty) contents.
#[derive(Debug, Default)]
pub struct BucketEntry {
    pub creation_date: String,
}

/// The server's state: every bucket by name, in increasing order of names.
#[derive(Debug)]
pub struct AppState {
    buckets: Vec<(String, BucketEntry)>,
}

impl View for AppState {
    /// The buckets in increasing order of names, each as its name and creation date.
    type V = Seq<(Seq<char>, Seq<char>)>;

    closed spec fn view(&self) -> Seq<(Seq<char>, Seq<char>)> {
        self.buckets@.map_values(|e: (String, BucketEntry)| (e.0@, e.1.creation_date@))
    }
}

impl AppState {
    /// No name occurs twice and the names increase.
    #[verifier::type_invariant]
    closed spec fn names_in_order(self) -> bool {
        names_increasing(self@)
    }

    /// A state with no buckets.
    pub fn new() -> (state: AppState)
        ensures
            state@ == Seq::<(Seq<char>, Seq<char>)>::empty(),
    {
        AppState::default()
    }

    /// Snapshot the current buckets as `(name, creation_date)` pairs.
    pub fn list_buckets(&self) -> (pairs: Vec<(String, String)>)
        ensures
            pairs_view(pairs@) == self@,
            names_increasing(pairs_view(pairs@)),
    {
        proof {
            use_type_invariant(self);
        }
        let n = self.buckets.len();
        let mut pairs: Vec<(String, String)> = Vec::new();
        let mut i: usize = 0;
        while i < n
            invariant
                n == self.buckets@.len(),
                i <= n,
                pairs_view(pairs@) == self@.take(i as int),
            decreases n - i,
        {
            let entry = &self.buckets[i];
            let ghost before = pairs@;
            let name = entry.0.clone();
            let date = entry.1.creation_date.clone();
            pairs.push((name, date));
            assert(pairs@ == before.push((name, date)));
            assert(self@[i as int] == (name@, date@));
            assert(pairs_view(pairs@) =~= pairs_view(before).push((name@, date@)));
            assert(self@.take(i + 1) =~= self@.take(i as int).push(self@[i as int]));
            i = i + 1;
        }
        assert(self@.take(n as int) =~= self@);
        pairs
    }
}

impl Default for AppState {
    fn default() -> (state: AppState)
        ensures
            state@ == Seq::<(Seq<char>, Seq<char>)>::empty(),
    {
        let state = AppState { buckets: Vec::new() };
        assert(state@ =~= Seq::<(Seq<char>, Seq<char>)>::empty());
        state
    }
}

} // verus!
