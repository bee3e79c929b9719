//! The lookup cache: id-to-label display values for one reference table.
//!
//! A view that shows, say, a video's author renders the author's name
//! rather than its id. The cache is built once from a single id+label
//! projection over the referenced table, handed in as plain rows, and a
//! refresh atomically replaces the whole mapping. Staleness between
//! refreshes is tolerated by design: a row inserted into the underlying
//! table stays invisible until the next refresh.

use vstd::prelude::*;

verus! {

/// First-match lookup of an id's label in a snapshot of rows.
pub open spec fn spec_label_of(rows: Seq<(u64, Seq<char>)>, id: u64) -> Option<Seq<char>>
    decreases rows.len(),
{
    if rows.len() == 0 {
        Option::None
    } else if rows[0].0 == id {
        Option::Some(rows[0].1)
    } else {
        spec_label_of(rows.skip(1), id)
    }
}

/// Each id appears at most once in a snapshot: every id present in the
/// referenced table has exactly one label at any snapshot time.
pub open spec fn distinct_ids(rows: Seq<(u64, Seq<char>)>) -> bool {
    forall|i: int, j: int| 0 <= i < j < rows.len() ==> rows[i].0 != rows[j].0
}

/// Process-wide mapping from numeric id to display label for one
/// reference table. The query that projects id and label out of the
/// table is the caller's: it hands the rows in as plain values.
pub struct LookupCache {
    rows: Vec<(u64, String)>,
}

impl View for LookupCache {
    type V = Seq<(u64, Seq<char>)>;

    closed spec fn view(&self) -> Seq<(u64, Seq<char>)> {
        self.rows.deep_view()
    }
}

impl LookupCache {
    /// Ids stay distinct, as the primary key of the referenced table
    /// guarantees.
    pub open spec fn wf(self) -> bool {
        distinct_ids(self@)
    }

    /// Builds the cache from the first id+label read.
    pub fn new(rows: Vec<(u64, String)>) -> (r: LookupCache)
        requires
            distinct_ids(rows.deep_view()),
        ensures
            r@ == rows.deep_view(),
            r.wf(),
    {
        LookupCache { rows }
    }

    /// Atomically replaces the entire mapping with a fresh read of the
    /// referenced table: no partial invalidation, nothing merged.
    pub fn refresh(&mut self, rows: Vec<(u64, String)>)
        requires
            distinct_ids(rows.deep_view()),
        ensures
            final(self)@ == rows.deep_view(),
            final(self).wf(),
    {
        self.rows = rows;
    }

    /// The label of `id` in the current snapshot, or absent for an id
    /// the snapshot does not know.
    pub fn get(&self, id: u64) -> (r: Option<String>)
        ensures
            r.deep_view() == spec_label_of(self@, id),
    {
        let n = self.rows.len();
        let mut i: usize = 0;
        proof {
            assert(self@.skip(0) =~= self@);
        }
        while i < n
            invariant
                n == self.rows.len(),
                i <= n,
                spec_label_of(self@, id) == spec_label_of(self@.skip(i as int), id),
            decreases n - i,
        {
            let row = &self.rows[i];
            if row.0 == id {
                proof {
                    assert(self@.skip(i as int)[0] == self@[i as int]);
                }
                return Option::Some(row.1.clone());
            }
            proof {
                assert(self@.skip(i as int)[0] == self@[i as int]);
                assert(self@.skip(i as int).skip(1) =~= self@.skip(i as int + 1));
            }
            i += 1;
        }
        proof {
            assert(self@.skip(n as int) =~= Seq::<(u64, Seq<char>)>::empty());
        }
        Option::None
    }
}

/// A lookup equals a direct read of the rows the cache was built or
/// refreshed from: every id present at refresh time answers its own
/// label, and every other id answers absent until the next refresh —
/// staleness between refreshes is expected, not a bug.
pub proof fn lemma_lookup_read_is_snapshot_read(
    c: LookupCache,
    rows: Seq<(u64, Seq<char>)>,
    id: u64,
)
    requires
        c@ == rows,
        distinct_ids(rows),
    ensures
        forall|i: int| 0 <= i < rows.len() ==> spec_label_of(c@, rows[i].0) == Option::Some(
            rows[i].1,
        ),
        (forall|i: int| 0 <= i < rows.len() ==> rows[i].0 != id) ==> spec_label_of(c@, id)
            is None,
{
    assert forall|i: int|
        0 <= i < rows.len() implies spec_label_of(c@, rows[i].0) == Option::Some(rows[i].1) by {
        lemma_label_of_present(rows, i);
    }
    if forall|i: int| 0 <= i < rows.len() ==> rows[i].0 != id {
        lemma_label_of_absent(rows, id);
    }
}

/// An id present in a snapshot with distinct ids answers exactly the
/// label that stood beside it at refresh time.
pub proof fn lemma_label_of_present(rows: Seq<(u64, Seq<char>)>, i: int)
    requires
        distinct_ids(rows),
        0 <= i < rows.len(),
    ensures
        spec_label_of(rows, rows[i].0) == Option::Some(rows[i].1),
    decreases rows.len(),
{
    if i == 0 {
    } else {
        assert(rows[0].0 != rows[i].0);
        assert(distinct_ids(rows.skip(1))) by {
            assert forall|p: int, q: int|
                0 <= p < q < rows.skip(1).len() implies rows.skip(1)[p].0 != rows.skip(
                1,
            )[q].0 by {
                assert(rows.skip(1)[p] == rows[p + 1]);
                assert(rows.skip(1)[q] == rows[q + 1]);
            }
        }
        assert(rows.skip(1)[i - 1] == rows[i]);
        lemma_label_of_present(rows.skip(1), i - 1);
    }
}

/// An id absent from a snapshot answers absent, however the underlying
/// table may have changed since: an entry added after the last refresh
/// is invisible until the next one.
pub proof fn lemma_label_of_absent(rows: Seq<(u64, Seq<char>)>, id: u64)
    requires
        forall|i: int| 0 <= i < rows.len() ==> rows[i].0 != id,
    ensures
        spec_label_of(rows, id) is None,
    decreases rows.len(),
{
    if rows.len() == 0 {
    } else {
        assert forall|i: int| 0 <= i < rows.skip(1).len() implies rows.skip(1)[i].0 != id by {
            assert(rows.skip(1)[i] == rows[i + 1]);
        }
        lemma_label_of_absent(rows.skip(1), id);
    }
}

} // verus!
