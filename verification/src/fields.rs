//! The field cache and the whitelist step.
//!
//! The cache maps a table name to the ordered list of field names that
//! clients are permitted to write. It is populated in one pass from a
//! schema-metadata read that the caller hands in as plain values, and a
//! refresh fully replaces the snapshot. Whitelisting drops every
//! submitted field that the table's list does not carry, before any
//! value reaches persistence.

use vstd::prelude::*;

verus! {

/// First-match lookup of a table's field list in a snapshot; a table
/// the snapshot does not know has the empty field list (a cache miss
/// is not an error).
pub open spec fn spec_fields_of(
    snapshot: Seq<(Seq<char>, Seq<Seq<char>>)>,
    table: Seq<char>,
) -> Seq<Seq<char>>
    decreases snapshot.len(),
{
    if snapshot.len() == 0 {
        Seq::empty()
    } else if snapshot[0].0 == table {
        snapshot[0].1
    } else {
        spec_fields_of(snapshot.skip(1), table)
    }
}

/// Each table name appears at most once in the snapshot, as in the
/// schema metadata itself.
pub open spec fn distinct_tables(snapshot: Seq<(Seq<char>, Seq<Seq<char>>)>) -> bool {
    forall|i: int, j: int|
        0 <= i < j < snapshot.len() ==> snapshot[i].0 != snapshot[j].0
}

/// Process-wide mapping from table name to its allowed field list.
/// The metadata loader is injected: callers read the schema and hand
/// the full table-to-fields snapshot in as plain values.
pub struct FieldCache {
    entries: Vec<(String, Vec<String>)>,
}

impl View for FieldCache {
    type V = Seq<(Seq<char>, Seq<Seq<char>>)>;

    closed spec fn view(&self) -> Seq<(Seq<char>, Seq<Seq<char>>)> {
        self.entries.deep_view()
    }
}

impl FieldCache {
    /// Table names stay distinct, as the metadata source guarantees.
    pub open spec fn wf(self) -> bool {
        distinct_tables(self@)
    }

    /// Builds the cache from the first metadata read.
    pub fn new(snapshot: Vec<(String, Vec<String>)>) -> (r: FieldCache)
        requires
            distinct_tables(snapshot.deep_view()),
        ensures
            r@ == snapshot.deep_view(),
            r.wf(),
    {
        FieldCache { entries: snapshot }
    }

    /// Replaces the whole snapshot with a fresh metadata read; nothing
    /// of the old snapshot is merged or kept.
    pub fn refresh(&mut self, snapshot: Vec<(String, Vec<String>)>)
        requires
            distinct_tables(snapshot.deep_view()),
        ensures
            final(self)@ == snapshot.deep_view(),
            final(self).wf(),
    {
        self.entries = snapshot;
    }

    /// The allowed field list of `table`: exactly what the snapshot
    /// holds for it, or the empty list on a cache miss.
    pub fn get(&self, table: &String) -> (r: Vec<String>)
        ensures
            r.deep_view() == spec_fields_of(self@, table@),
    {
        let n = self.entries.len();
        let mut i: usize = 0;
        proof {
            assert(self@.skip(0) =~= self@);
        }
        while i < n
            invariant
                n == self.entries.len(),
                i <= n,
                spec_fields_of(self@, table@) == spec_fields_of(
                    self@.skip(i as int),
                    table@,
                ),
            decreases n - i,
        {
            let entry = &self.entries[i];
            if entry.0 == *table {
                proof {
                    assert(self@.skip(i as int)[0] == self@[i as int]);
                }
                return clone_fields(&entry.1);
            }
            proof {
                assert(self@.skip(i as int)[0] == self@[i as int]);
                assert(self@.skip(i as int).skip(1) =~= self@.skip(i as int + 1));
            }
            i += 1;
        }
        proof {
            assert(self@.skip(n as int) =~= Seq::<(Seq<char>, Seq<Seq<char>>)>::empty());
        }
        Vec::new()
    }
}

/// A fresh copy of a field list, element for element.
fn clone_fields(v: &Vec<String>) -> (r: Vec<String>)
    ensures
        r.deep_view() == v.deep_view(),
{
    let mut r: Vec<String> = Vec::new();
    let n = v.len();
    let mut i: usize = 0;
    while i < n
        invariant
            n == v.len(),
            i <= n,
            r.deep_view() == v.deep_view().take(i as int),
        decreases n - i,
    {
        let ghost prev = r.deep_view();
        r.push(v[i].clone());
        proof {
            assert(r.deep_view() =~= prev.push(v.deep_view()[i as int]));
            assert(prev.push(v.deep_view()[i as int]) =~= v.deep_view().take(i as int + 1));
        }
        i += 1;
    }
    proof {
        assert(v.deep_view().take(n as int) =~= v.deep_view());
    }
    r
}

/// The structural whitelist rule for one submitted pair: its key must
/// be among the table's allowed fields, and on update the primary key
/// `id` is immutable and is dropped besides.
pub open spec fn spec_field_passes(
    allowed: Seq<Seq<char>>,
    key: Seq<char>,
    is_update: bool,
) -> bool {
    allowed.contains(key) && (is_update ==> key != "id"@)
}

/// The whitelisted form of submitted data: the pairs whose key passes,
/// in submission order, values untouched.
pub open spec fn spec_check_fields(
    allowed: Seq<Seq<char>>,
    post: Seq<(Seq<char>, Seq<char>)>,
    is_update: bool,
) -> Seq<(Seq<char>, Seq<char>)>
    decreases post.len(),
{
    if post.len() == 0 {
        Seq::empty()
    } else {
        let rest = spec_check_fields(allowed, post.drop_last(), is_update);
        if spec_field_passes(allowed, post.last().0, is_update) {
            rest.push(post.last())
        } else {
            rest
        }
    }
}

/// Whether a field list carries the given name.
fn contains_field(allowed: &Vec<String>, key: &String) -> (b: bool)
    ensures
        b == allowed.deep_view().contains(key@),
{
    let n = allowed.len();
    let mut i: usize = 0;
    while i < n
        invariant
            n == allowed.len(),
            i <= n,
            forall|j: int| 0 <= j < i ==> allowed.deep_view()[j] != key@,
        decreases n - i,
    {
        if allowed[i] == *key {
            proof {
                assert(allowed.deep_view()[i as int] == key@);
            }
            return true;
        }
        i += 1;
    }
    false
}

/// Drops every submitted field that the table's whitelist does not
/// carry before it can reach persistence; submission order and the
/// surviving values are kept. An unknown table has the empty whitelist,
/// so everything is dropped.
pub fn check_fields(
    cache: &FieldCache,
    table: &String,
    post: Vec<(String, String)>,
    is_update: bool,
) -> (r: Vec<(String, String)>)
    ensures
        r.deep_view() == spec_check_fields(
            spec_fields_of(cache@, table@),
            post.deep_view(),
            is_update,
        ),
{
    let allowed = cache.get(table);
    let id_key: String = "id".to_owned();
    let mut r: Vec<(String, String)> = Vec::new();
    let n = post.len();
    let mut i: usize = 0;
    proof {
        assert(post.deep_view().take(0) =~= Seq::<(Seq<char>, Seq<char>)>::empty());
    }
    while i < n
        invariant
            n == post.len(),
            i <= n,
            id_key@ == "id"@,
            allowed.deep_view() == spec_fields_of(cache@, table@),
            r.deep_view() == spec_check_fields(
                allowed.deep_view(),
                post.deep_view().take(i as int),
                is_update,
            ),
        decreases n - i,
    {
        proof {
            assert(post.deep_view().take(i as int + 1).drop_last() =~= post.deep_view().take(
                i as int,
            ));
            assert(post.deep_view().take(i as int + 1).last() == post.deep_view()[i as int]);
        }
        let pair = &post[i];
        let in_list = contains_field(&allowed, &pair.0);
        let passes = in_list && !(is_update && pair.0 == id_key);
        if passes {
            let ghost prev = r.deep_view();
            r.push((pair.0.clone(), pair.1.clone()));
            proof {
                assert(r.deep_view() =~= prev.push(post.deep_view()[i as int]));
            }
        }
        i += 1;
    }
    proof {
        assert(post.deep_view().take(n as int) =~= post.deep_view());
    }
    r
}

/// A cache read equals a direct metadata read. `new` and `refresh`
/// ensure the view equals the snapshot they were handed, so for a cache
/// built or refreshed from `snapshot`, `get` answers the snapshot's own
/// entry for every table in it and the empty list for every other
/// table: a refresh followed by a get reflects exactly the metadata as
/// it was re-read.
pub proof fn lemma_cache_read_is_metadata_read(
    c: FieldCache,
    snapshot: Seq<(Seq<char>, Seq<Seq<char>>)>,
    table: Seq<char>,
)
    requires
        c@ == snapshot,
        distinct_tables(snapshot),
    ensures
        forall|i: int|
            0 <= i < snapshot.len() ==> spec_fields_of(c@, snapshot[i].0) == snapshot[i].1,
        (forall|i: int| 0 <= i < snapshot.len() ==> snapshot[i].0 != table) ==> spec_fields_of(
            c@,
            table,
        ) == Seq::<Seq<char>>::empty(),
{
    assert forall|i: int|
        0 <= i < snapshot.len() implies spec_fields_of(c@, snapshot[i].0) == snapshot[i].1 by {
        lemma_fields_of_present(snapshot, i);
    }
    if forall|i: int| 0 <= i < snapshot.len() ==> snapshot[i].0 != table {
        lemma_fields_of_absent(snapshot, table);
    }
}

/// No submitted field that the whitelist does not pass ever reaches
/// persistence: everything that survives whitelisting passes.
pub proof fn lemma_check_fields_only_allowed(
    allowed: Seq<Seq<char>>,
    post: Seq<(Seq<char>, Seq<char>)>,
    is_update: bool,
)
    ensures
        forall|i: int|
            0 <= i < spec_check_fields(allowed, post, is_update).len()
                ==> spec_field_passes(
                allowed,
                spec_check_fields(allowed, post, is_update)[i].0,
                is_update,
            ),
    decreases post.len(),
{
    if post.len() == 0 {
    } else {
        lemma_check_fields_only_allowed(allowed, post.drop_last(), is_update);
        let checked = spec_check_fields(allowed, post, is_update);
        let rest = spec_check_fields(allowed, post.drop_last(), is_update);
        assert forall|i: int| 0 <= i < checked.len() implies spec_field_passes(
            allowed,
            checked[i].0,
            is_update,
        ) by {
            if spec_field_passes(allowed, post.last().0, is_update) {
                if i < rest.len() {
                    assert(checked[i] == rest[i]);
                } else {
                    assert(checked[i] == post.last());
                }
            } else {
                assert(checked[i] == rest[i]);
            }
        }
    }
}

/// Whitelisting drops nothing it should keep: every submitted pair
/// whose key passes survives into the checked data.
pub proof fn lemma_check_fields_keeps_passing(
    allowed: Seq<Seq<char>>,
    post: Seq<(Seq<char>, Seq<char>)>,
    is_update: bool,
    i: int,
)
    requires
        0 <= i < post.len(),
        spec_field_passes(allowed, post[i].0, is_update),
    ensures
        spec_check_fields(allowed, post, is_update).contains(post[i]),
    decreases post.len(),
{
    let checked = spec_check_fields(allowed, post, is_update);
    if i == post.len() - 1 {
        assert(post.last() == post[i]);
        assert(checked.last() == post[i]);
        assert(checked.contains(post[i])) by {
            assert(checked[checked.len() - 1] == post[i]);
        }
    } else {
        assert(post.drop_last()[i] == post[i]);
        lemma_check_fields_keeps_passing(allowed, post.drop_last(), is_update, i);
        let rest = spec_check_fields(allowed, post.drop_last(), is_update);
        let j = choose|j: int| 0 <= j < rest.len() && rest[j] == post[i];
        if spec_field_passes(allowed, post.last().0, is_update) {
            assert(checked[j] == post[i]);
        } else {
            assert(checked[j] == post[i]);
        }
    }
}

/// A table present in a snapshot with distinct names answers exactly
/// the field list that the metadata read gave it: the cache never
/// reshapes what it stores.
pub proof fn lemma_fields_of_present(snapshot: Seq<(Seq<char>, Seq<Seq<char>>)>, i: int)
    requires
        distinct_tables(snapshot),
        0 <= i < snapshot.len(),
    ensures
        spec_fields_of(snapshot, snapshot[i].0) == snapshot[i].1,
    decreases snapshot.len(),
{
    if i == 0 {
    } else {
        assert(snapshot[0].0 != snapshot[i].0);
        assert(distinct_tables(snapshot.skip(1))) by {
            assert forall|p: int, q: int|
                0 <= p < q < snapshot.skip(1).len() implies snapshot.skip(1)[p].0
                != snapshot.skip(1)[q].0 by {
                assert(snapshot.skip(1)[p] == snapshot[p + 1]);
                assert(snapshot.skip(1)[q] == snapshot[q + 1]);
            }
        }
        assert(snapshot.skip(1)[i - 1] == snapshot[i]);
        lemma_fields_of_present(snapshot.skip(1), i - 1);
    }
}

/// A table absent from a snapshot answers the empty field list.
pub proof fn lemma_fields_of_absent(snapshot: Seq<(Seq<char>, Seq<Seq<char>>)>, table: Seq<char>)
    requires
        forall|i: int| 0 <= i < snapshot.len() ==> snapshot[i].0 != table,
    ensures
        spec_fields_of(snapshot, table) == Seq::<Seq<char>>::empty(),
    decreases snapshot.len(),
{
    if snapshot.len() == 0 {
    } else {
        assert forall|i: int| 0 <= i < snapshot.skip(1).len() implies snapshot.skip(1)[i].0
            != table by {
            assert(snapshot.skip(1)[i] == snapshot[i + 1]);
        }
        lemma_fields_of_absent(snapshot.skip(1), table);
    }
}

} // verus!
