//! The record store: per model name, record identifiers mapped to stored
//! JSON documents.
//!
//! Models are fully isolated namespaces for identifiers: a record lives
//! under the pair of its model name and its identifier, and nothing here
//! crosses from one model to another. The store never validates: by the time
//! a document arrives here the validation gate has already passed it.

use vstd::prelude::*;

verus! {

/// The pair a stored record is addressed by: its model name and its
/// identifier.
spec fn entry_key(e: (String, String, serde_json::Value)) -> (Seq<char>, Seq<char>) {
    (e.0@, e.1@)
}

/// No (model, identifier) pair occurs twice in the entry list.
spec fn keys_unique(s: Seq<(String, String, serde_json::Value)>) -> bool {
    forall|i: int, j: int| 0 <= i < j < s.len() ==> entry_key(s[i]) != entry_key(s[j])
}

/// The mapping an entry list stands for.
spec fn records_map(s: Seq<(String, String, serde_json::Value)>) -> Map<
    (Seq<char>, Seq<char>),
    serde_json::Value,
>
    decreases s.len(),
{
    if s.len() == 0 {
        Map::empty()
    } else {
        records_map(s.drop_last()).insert(entry_key(s.last()), s.last().2)
    }
}

/// A key is in the mapping exactly when some entry carries it.
proof fn lemma_records_map_dom(s: Seq<(String, String, serde_json::Value)>, k: (
    Seq<char>,
    Seq<char>,
))
    ensures
        records_map(s).contains_key(k) <==> exists|i: int| 0 <= i < s.len() && entry_key(s[i]) == k,
    decreases s.len(),
{
    if s.len() > 0 {
        lemma_records_map_dom(s.drop_last(), k);
        if entry_key(s.last()) == k {
            assert(entry_key(s[s.len() - 1]) == k);
        } else {
            if exists|i: int| 0 <= i < s.len() && entry_key(s[i]) == k {
                let i = choose|i: int| 0 <= i < s.len() && entry_key(s[i]) == k;
                assert(entry_key(s.drop_last()[i]) == k);
            }
            if exists|i: int| 0 <= i < s.drop_last().len() && entry_key(s.drop_last()[i]) == k {
                let i = choose|i: int|
                    0 <= i < s.drop_last().len() && entry_key(s.drop_last()[i]) == k;
                assert(entry_key(s[i]) == k);
            }
        }
    }
}

/// With unique keys, the entry at any position gives the mapping's value for
/// its key.
proof fn lemma_records_map_at(s: Seq<(String, String, serde_json::Value)>, i: int)
    requires
        keys_unique(s),
        0 <= i < s.len(),
    ensures
        records_map(s).contains_key(entry_key(s[i])),
        records_map(s)[entry_key(s[i])] == s[i].2,
    decreases s.len(),
{
    if i < s.len() - 1 {
        assert(keys_unique(s.drop_last())) by {
            assert forall|a: int, b: int|
                0 <= a < b < s.drop_last().len() implies entry_key(s.drop_last()[a]) != entry_key(
                s.drop_last()[b],
            ) by {
                assert(s.drop_last()[a] == s[a]);
                assert(s.drop_last()[b] == s[b]);
            }
        }
        lemma_records_map_at(s.drop_last(), i);
        assert(s.drop_last()[i] == s[i]);
        assert(entry_key(s[i]) != entry_key(s[s.len() - 1]));
    }
}

/// Removing entries keeps the keys unique.
proof fn lemma_unique_remove(s: Seq<(String, String, serde_json::Value)>, i: int)
    requires
        keys_unique(s),
        0 <= i < s.len(),
    ensures
        keys_unique(s.remove(i)),
{
    s.remove_ensures(i);
    let t = s.remove(i);
    assert forall|a: int, b: int| 0 <= a < b < t.len() implies entry_key(t[a]) != entry_key(
        t[b],
    ) by {
        if a < i {
            assert(t[a] == s[a]);
        } else {
            assert(t[a] == s[a + 1]);
        }
        if b < i {
            assert(t[b] == s[b]);
        } else {
            assert(t[b] == s[b + 1]);
        }
    }
}

/// With unique keys, removing the entry at a position removes exactly its
/// key from the mapping.
proof fn lemma_records_map_remove(s: Seq<(String, String, serde_json::Value)>, i: int)
    requires
        keys_unique(s),
        0 <= i < s.len(),
    ensures
        records_map(s.remove(i)) == records_map(s).remove(entry_key(s[i])),
    decreases s.len(),
{
    s.remove_ensures(i);
    let k = entry_key(s[i]);
    let dl = s.drop_last();
    if i == s.len() - 1 {
        assert(s.remove(i) =~= dl);
        lemma_records_map_dom(dl, k);
        assert forall|j: int| 0 <= j < dl.len() implies entry_key(dl[j]) != k by {
            assert(dl[j] == s[j]);
        }
        assert(records_map(dl).insert(k, s[i].2).remove(k) =~= records_map(dl));
        assert(records_map(s) == records_map(dl).insert(entry_key(s.last()), s.last().2));
    } else {
        let t = s.remove(i);
        assert(keys_unique(dl)) by {
            assert forall|a: int, b: int|
                0 <= a < b < dl.len() implies entry_key(dl[a]) != entry_key(dl[b]) by {
                assert(dl[a] == s[a]);
                assert(dl[b] == s[b]);
            }
        }
        assert(t.drop_last() =~= dl.remove(i)) by {
            dl.remove_ensures(i);
        }
        assert(t.last() == s.last());
        assert(dl[i] == s[i]);
        lemma_records_map_remove(dl, i);
        let lk = entry_key(s.last());
        assert(k != lk);
        assert(records_map(t) == records_map(dl).remove(k).insert(lk, s.last().2));
        assert(records_map(dl).remove(k).insert(lk, s.last().2) =~= records_map(dl).insert(
            lk,
            s.last().2,
        ).remove(k));
    }
}

/// Appending an entry inserts its key into the mapping.
proof fn lemma_records_map_push(s: Seq<(String, String, serde_json::Value)>, e: (
    String,
    String,
    serde_json::Value,
))
    ensures
        records_map(s.push(e)) == records_map(s).insert(entry_key(e), e.2),
{
    assert(s.push(e).drop_last() =~= s);
    assert(s.push(e).last() == e);
}

/// Holds every stored record, addressed by model name and record identifier.
pub struct RecordStore {
    entries: Vec<(String, String, serde_json::Value)>,
}

impl View for RecordStore {
    type V = Map<(Seq<char>, Seq<char>), serde_json::Value>;

    /// Abstract contents: each (model name, identifier) pair mapped to the
    /// stored document.
    closed spec fn view(&self) -> Map<(Seq<char>, Seq<char>), serde_json::Value> {
        records_map(self.entries@)
    }
}

impl RecordStore {
    /// The store's internal invariant: one entry per (model, identifier)
    /// pair.
    pub closed spec fn wf(&self) -> bool {
        keys_unique(self.entries@)
    }

    /// An empty store: no model has records yet.
    pub fn new() -> (r: RecordStore)
        ensures
            r.wf(),
            r@ == Map::<(Seq<char>, Seq<char>), serde_json::Value>::empty(),
    {
        RecordStore { entries: Vec::new() }
    }

    /// The position of the entry for `model` and `id`, if any.
    fn find(&self, model: &String, id: &String) -> (r: Option<usize>)
        ensures
            match r {
                Some(i) => i < self.entries@.len() && entry_key(self.entries@[i as int]) == (
                    model@,
                    id@,
                ),
                None => forall|i: int|
                    0 <= i < self.entries@.len() ==> entry_key(self.entries@[i]) != (model@, id@),
            },
    {
        let n = self.entries.len();
        let mut i: usize = 0;
        while i < n
            invariant
                n == self.entries@.len(),
                i <= n,
                forall|j: int| 0 <= j < i ==> entry_key(self.entries@[j]) != (model@, id@),
            decreases n - i,
        {
            if self.entries[i].0 == *model && self.entries[i].1 == *id {
                return Some(i);
            }
            i = i + 1;
        }
        None
    }

    /// The document stored for `model` under `id`, or nothing if the model
    /// has no record with that identifier.
    pub fn get(&self, model: &String, id: &String) -> (r: Option<&serde_json::Value>)
        requires
            self.wf(),
        ensures
            match r {
                Some(v) => self@.contains_key((model@, id@)) && *v == self@[(model@, id@)],
                None => !self@.contains_key((model@, id@)),
            },
    {
        match self.find(model, id) {
            Some(i) => {
                proof {
                    lemma_records_map_at(self.entries@, i as int);
                }
                Some(&self.entries[i].2)
            },
            None => {
                proof {
                    lemma_records_map_dom(self.entries@, (model@, id@));
                }
                None
            },
        }
    }

    /// Store `value` for `model` under `id`, replacing whatever that pair
    /// held before. Always succeeds.
    pub fn insert(&mut self, model: String, id: String, value: serde_json::Value)
        requires
            old(self).wf(),
        ensures
            final(self).wf(),
            final(self)@ == old(self)@.insert((model@, id@), value),
    {
        let ghost s0 = self.entries@;
        let ghost k = (model@, id@);
        let ghost v = value;
        match self.find(&model, &id) {
            Some(i) => {
                proof {
                    lemma_records_map_remove(s0, i as int);
                    lemma_unique_remove(s0, i as int);
                    s0.remove_ensures(i as int);
                }
                self.entries.remove(i);
                let ghost s1 = self.entries@;
                self.entries.push((model, id, value));
                proof {
                    lemma_records_map_push(s1, (model, id, value));
                    assert(records_map(s0).remove(k).insert(k, v) =~= records_map(s0).insert(k, v));
                    assert forall|j: int| 0 <= j < s1.len() implies entry_key(s1[j]) != k by {
                        if j < i as int {
                            assert(s1[j] == s0[j]);
                        } else {
                            assert(s1[j] == s0[j + 1]);
                        }
                    }
                }
            },
            None => {
                let ghost s1 = self.entries@;
                self.entries.push((model, id, value));
                proof {
                    lemma_records_map_push(s1, (model, id, value));
                }
            },
        }
    }

    /// Replace the document stored for `model` under `id` wholesale, if that
    /// pair holds one; report whether it did. Never creates a record.
    pub fn update(&mut self, model: &String, id: &String, value: serde_json::Value) -> (r: bool)
        requires
            old(self).wf(),
        ensures
            final(self).wf(),
            r == old(self)@.contains_key((model@, id@)),
            r ==> final(self)@ == old(self)@.insert((model@, id@), value),
            !r ==> final(self)@ == old(self)@,
    {
        let ghost s0 = self.entries@;
        let ghost k = (model@, id@);
        let ghost v = value;
        match self.find(model, id) {
            Some(i) => {
                proof {
                    lemma_records_map_at(s0, i as int);
                    lemma_records_map_remove(s0, i as int);
                    lemma_unique_remove(s0, i as int);
                    s0.remove_ensures(i as int);
                }
                self.entries.remove(i);
                let ghost s1 = self.entries@;
                let model_key = model.clone();
                let id_key = id.clone();
                let ghost e = (model_key, id_key, value);
                self.entries.push((model_key, id_key, value));
                proof {
                    lemma_records_map_push(s1, e);
                    assert(records_map(s0).remove(k).insert(k, v) =~= records_map(s0).insert(k, v));
                    assert forall|j: int| 0 <= j < s1.len() implies entry_key(s1[j]) != k by {
                        if j < i as int {
                            assert(s1[j] == s0[j]);
                        } else {
                            assert(s1[j] == s0[j + 1]);
                        }
                    }
                }
                true
            },
            None => {
                proof {
                    lemma_records_map_dom(s0, k);
                }
                false
            },
        }
    }

    /// Remove the record stored for `model` under `id`, if that pair holds
    /// one; report whether it did.
    pub fn remove(&mut self, model: &String, id: &String) -> (r: bool)
        requires
            old(self).wf(),
        ensures
            final(self).wf(),
            r == old(self)@.contains_key((model@, id@)),
            final(self)@ == old(self)@.remove((model@, id@)),
    {
        let ghost s0 = self.entries@;
        let ghost k = (model@, id@);
        match self.find(model, id) {
            Some(i) => {
                proof {
                    lemma_records_map_at(s0, i as int);
                    lemma_records_map_remove(s0, i as int);
                    lemma_unique_remove(s0, i as int);
                }
                self.entries.remove(i);
                true
            },
            None => {
                proof {
                    lemma_records_map_dom(s0, k);
                    assert(records_map(s0).remove(k) =~= records_map(s0));
                }
                false
            },
        }
    }
}

} // verus!
