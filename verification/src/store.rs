//! The local store of finished responses, which `previous_response_id` continues from.
use vstd::prelude::*;
use crate::json::{Json, JsonV, copy_items, items_view};
use crate::text::text_eq;

verus! {

broadcast use vstd::std_specs::vec::group_vec_axioms;

/// A finished response and the chat conversation that led to it.
#[derive(Debug)]
pub struct StoredResponse {
    pub response_object: Json,
    pub chat_messages: Vec<Json>,
}

/// The mathematical form of a `StoredResponse`.
pub struct StoredV {
    pub response_object: JsonV,
    pub chat_messages: Seq<JsonV>,
}

impl View for StoredResponse {
    type V = StoredV;

    open spec fn view(&self) -> StoredV {
        StoredV { response_object: self.response_object@, chat_messages: items_view(self.chat_messages@) }
    }
}

impl StoredResponse {
    pub fn duplicate(&self) -> (r: StoredResponse)
        ensures
            r@ == self@,
    {
        StoredResponse { response_object: self.response_object.deep_copy(), chat_messages: copy_items(&self.chat_messages) }
    }
}

/// Records by id, oldest first, at most `capacity` of them; storing an id again replaces
/// its record and makes it the newest, and storing beyond the capacity drops the oldest.
/// A store of capacity 0 keeps nothing, so no response can then be continued.
pub struct ResponseStore {
    entries: Vec<(String, StoredResponse)>,
    capacity: usize,
}

/// The mathematical form of a store's entries, oldest first.
pub open spec fn entries_of(s: Seq<(String, StoredResponse)>) -> Seq<(Seq<char>, StoredV)> {
    s.map_values(|e: (String, StoredResponse)| (e.0@, e.1@))
}

/// The record the entries hold for `id`: that of the newest entry with it.
pub open spec fn record_of(s: Seq<(Seq<char>, StoredV)>, id: Seq<char>) -> Option<StoredV>
    decreases s.len(),
{
    if s.len() == 0 {
        None
    } else if s.last().0 == id {
        Some(s.last().1)
    } else {
        record_of(s.drop_last(), id)
    }
}

/// The entries without `id`.
pub open spec fn without(s: Seq<(Seq<char>, StoredV)>, id: Seq<char>) -> Seq<(Seq<char>, StoredV)>
    decreases s.len(),
{
    if s.len() == 0 {
        s
    } else {
        let w = without(s.drop_last(), id);
        if s.last().0 != id {
            w.push(s.last())
        } else {
            w
        }
    }
}

/// The entries after storing `record` under `id`, keeping at most `capacity`.
pub open spec fn stored(s: Seq<(Seq<char>, StoredV)>, id: Seq<char>, record: StoredV, capacity: nat) -> Seq<
    (Seq<char>, StoredV),
> {
    let added = without(s, id).push((id, record));
    if added.len() > capacity {
        added.skip(added.len() - capacity)
    } else {
        added
    }
}

/// No id is held twice.
pub open spec fn ids_distinct(s: Seq<(Seq<char>, StoredV)>) -> bool {
    forall|a: int, b: int| 0 <= a < b < s.len() ==> (#[trigger] s[a]).0 != (#[trigger] s[b]).0
}

proof fn lemma_without(s: Seq<(Seq<char>, StoredV)>, id: Seq<char>)
    ensures
        forall|i: int|
            0 <= i < without(s, id).len() ==> (#[trigger] without(s, id)[i]).0 != id && exists|k: int|
                0 <= k < s.len() && s[k] == without(s, id)[i],
        ids_distinct(s) ==> ids_distinct(without(s, id)),
    decreases s.len(),
{
    if s.len() > 0 {
        let init = s.drop_last();
        lemma_without(init, id);
        let w = without(init, id);
        assert forall|i: int| #![trigger w[i]] 0 <= i < w.len() implies exists|k: int| 0 <= k < s.len() && s[k] == w[i] by {
            let k = choose|k: int| 0 <= k < init.len() && init[k] == w[i];
            assert(s[k] == init[k]);
        }
        if s.last().0 != id {
            let r = w.push(s.last());
            assert forall|i: int| 0 <= i < r.len() implies (#[trigger] r[i]).0 != id && exists|k: int|
                0 <= k < s.len() && s[k] == r[i] by {
                if i == w.len() {
                    assert(s[s.len() - 1] == r[i]);
                } else {
                    assert(r[i] == w[i]);
                }
            }
            if ids_distinct(s) {
                assert(ids_distinct(init)) by {
                    assert forall|a: int, b: int| 0 <= a < b < init.len() implies (#[trigger] init[a]).0
                        != (#[trigger] init[b]).0 by {
                        assert(init[a] == s[a] && init[b] == s[b]);
                    }
                }
                assert forall|a: int, b: int| 0 <= a < b < r.len() implies (#[trigger] r[a]).0 != (#[trigger] r[b]).0 by {
                    if b == w.len() {
                        let k = choose|k: int| 0 <= k < init.len() && init[k] == w[a];
                        assert(r[a] == w[a]);
                        assert(s[k] == init[k]);
                        assert(s[s.len() - 1] == r[b]);
                    } else {
                        assert(r[a] == w[a] && r[b] == w[b]);
                    }
                }
            }
        } else {
            if ids_distinct(s) {
                assert forall|a: int, b: int| 0 <= a < b < init.len() implies (#[trigger] init[a]).0
                    != (#[trigger] init[b]).0 by {
                    assert(init[a] == s[a] && init[b] == s[b]);
                }
            }
        }
    }
}

/// Storing keeps every id at most once and at most `capacity` records.
pub proof fn law_store_stays_bounded(s: Seq<(Seq<char>, StoredV)>, id: Seq<char>, record: StoredV, capacity: nat)
    requires
        ids_distinct(s),
    ensures
        ids_distinct(stored(s, id, record, capacity)),
        stored(s, id, record, capacity).len() <= capacity,
{
    lemma_without(s, id);
    let w = without(s, id);
    let added = w.push((id, record));
    assert forall|a: int, b: int| 0 <= a < b < added.len() implies (#[trigger] added[a]).0 != (#[trigger] added[b]).0 by {
        if b == w.len() {
            assert(added[a] == w[a]);
        } else {
            assert(added[a] == w[a] && added[b] == w[b]);
        }
    }
    if added.len() > capacity {
        let t = added.skip(added.len() - capacity);
        assert forall|a: int, b: int| 0 <= a < b < t.len() implies (#[trigger] t[a]).0 != (#[trigger] t[b]).0 by {
            assert(t[a] == added[a + (added.len() - capacity)]);
            assert(t[b] == added[b + (added.len() - capacity)]);
        }
    }
}

impl ResponseStore {
    /// At most `capacity` records, no id held twice.
    #[verifier::type_invariant]
    spec fn well_formed(self) -> bool {
        self.entries@.len() <= self.capacity && ids_distinct(entries_of(self.entries@))
    }

    pub closed spec fn entries(&self) -> Seq<(Seq<char>, StoredV)> {
        entries_of(self.entries@)
    }

    pub closed spec fn capacity(&self) -> nat {
        self.capacity as nat
    }

    /// An empty store that keeps at most `capacity` responses.
    pub fn new(capacity: usize) -> (r: ResponseStore)
        ensures
            r.entries() == Seq::<(Seq<char>, StoredV)>::empty(),
            r.capacity() == capacity,
    {
        let r = ResponseStore { entries: Vec::new(), capacity };
        assert(r.entries() =~= Seq::<(Seq<char>, StoredV)>::empty());
        r
    }

    /// A copy of the record stored under `id`.
    pub fn get(&self, id: &str) -> (r: Option<StoredResponse>)
        ensures
            match r {
                Some(x) => record_of(self.entries(), id@) == Some(x@),
                None => record_of(self.entries(), id@) is None,
            },
    {
        let ghost s = self.entries();
        let mut i: usize = self.entries.len();
        assert(s.take(i as int) =~= s);
        while i > 0
            invariant
                i <= self.entries.len(),
                s == entries_of(self.entries@),
                record_of(s, id@) == record_of(s.take(i as int), id@),
            decreases i,
        {
            assert(s.take(i as int).drop_last() =~= s.take(i - 1));
            if text_eq(self.entries[i - 1].0.as_str(), id) {
                return Some(self.entries[i - 1].1.duplicate());
            }
            i -= 1;
        }
        None
    }

    /// Stores `record` under `id` (see `stored`).
    pub fn put(&mut self, id: String, record: StoredResponse)
        ensures
            final(self).capacity() == old(self).capacity(),
            final(self).entries() == stored(old(self).entries(), id@, record@, old(self).capacity()),
    {
        proof {
            use_type_invariant(&*self);
        }
        let ghost s = self.entries();
        let ghost k = id@;
        let ghost rv = record@;
        let ghost cap = self.capacity as nat;
        proof {
            law_store_stays_bounded(s, k, rv, cap);
        }
        let mut kept: Vec<(String, StoredResponse)> = Vec::new();
        let mut old_entries: Vec<(String, StoredResponse)> = Vec::new();
        std::mem::swap(&mut old_entries, &mut self.entries);
        let ghost n = old_entries.len();
        let ghost mut j: int = 0;
        assert(without(s.take(0), k) =~= Seq::<(Seq<char>, StoredV)>::empty());
        assert(entries_of(kept@) =~= Seq::<(Seq<char>, StoredV)>::empty());
        assert(entries_of(old_entries@) == s.skip(0));
        while old_entries.len() > 0
            invariant
                0 <= j <= n,
                n == s.len(),
                entries_of(old_entries@) == s.skip(j),
                entries_of(kept@) == without(s.take(j), k),
                k == id@,
            decreases old_entries.len(),
        {
            let ghost before = old_entries@;
            assert(s.skip(j).len() == old_entries.len());
            let e = old_entries.remove(0);
            proof {
                assert(before[0] == e);
                assert(old_entries@ =~= before.skip(1));
                assert(entries_of(before)[0] == (e.0@, e.1@));
                assert(entries_of(before.skip(1)) =~= entries_of(before).skip(1));
                assert(s.skip(j).skip(1) =~= s.skip(j + 1));
                assert(entries_of(old_entries@) =~= s.skip(j + 1));
                assert(s[j] == s.skip(j)[0]);
                assert(s[j] == (e.0@, e.1@));
                assert(s.take(j + 1).drop_last() =~= s.take(j));
                assert(s.take(j + 1).last() == s[j]);
            }
            if !text_eq(e.0.as_str(), id.as_str()) {
                let ghost kb = kept@;
                kept.push(e);
                assert(entries_of(kept@) =~= entries_of(kb).push(s[j]));
            }
            proof {
                j = j + 1;
            }
        }
        assert(s.take(j) =~= s);
        let ghost kb = kept@;
        kept.push((id, record));
        assert(entries_of(kept@) =~= without(s, k).push((k, rv)));
        let ghost added = entries_of(kept@);
        if kept.len() > self.capacity {
            let drop = kept.len() - self.capacity;
            let tail = kept.split_off(drop);
            assert(entries_of(tail@) =~= added.skip(drop as int));
            assert(entries_of(tail@).len() == tail@.len());
            self.entries = tail;
        } else {
            assert(entries_of(kept@).len() == kept@.len());
            self.entries = kept;
        }
    }
}

/// A record stored under an id is what a read of that id gives back, as long as the store
/// keeps anything at all.
pub proof fn law_read_after_store(s: Seq<(Seq<char>, StoredV)>, id: Seq<char>, record: StoredV, capacity: nat)
    requires
        capacity > 0,
    ensures
        record_of(stored(s, id, record, capacity), id) == Some(record),
        stored(s, id, record, capacity).len() <= capacity,
{
    let added = without(s, id).push((id, record));
    if added.len() > capacity {
        let t = added.skip(added.len() - capacity);
        assert(t.last() == added.last());
    }
}

proof fn lemma_record_of_suffix(s: Seq<(Seq<char>, StoredV)>, k: int, id: Seq<char>)
    requires
        0 <= k <= s.len(),
        record_of(s.skip(k), id) is Some,
    ensures
        record_of(s.skip(k), id) == record_of(s, id),
    decreases s.len(),
{
    if s.len() > 0 && k < s.len() && s.last().0 != id {
        assert(s.skip(k).drop_last() =~= s.drop_last().skip(k));
        lemma_record_of_suffix(s.drop_last(), k, id);
    }
}

/// Storing under one id leaves what a read of another id gives unchanged, except that
/// the capacity may make the store drop it.
pub proof fn law_store_keeps_other_ids(
    s: Seq<(Seq<char>, StoredV)>,
    id: Seq<char>,
    record: StoredV,
    capacity: nat,
    other: Seq<char>,
)
    requires
        other != id,
    ensures
        record_of(stored(s, id, record, capacity), other) is Some ==> record_of(stored(s, id, record, capacity), other)
            == record_of(s, other),
{
    let w = without(s, id);
    let added = w.push((id, record));
    assert(added.drop_last() =~= w);
    lemma_record_of_without(s, id, other);
    if added.len() > capacity {
        if record_of(added.skip(added.len() - capacity), other) is Some {
            lemma_record_of_suffix(added, added.len() - capacity, other);
        }
    }
}

proof fn lemma_record_of_without(s: Seq<(Seq<char>, StoredV)>, id: Seq<char>, other: Seq<char>)
    requires
        other != id,
    ensures
        record_of(without(s, id), other) == record_of(s, other),
    decreases s.len(),
{
    if s.len() > 0 {
        let init = s.drop_last();
        lemma_record_of_without(init, id, other);
        let w = without(init, id);
        if s.last().0 != id {
            assert(without(s, id).drop_last() =~= w);
        }
    }
}

} // verus!
