//! The schema registry: model names mapped to their current JSON Schema
//! documents.
//!
//! Registration accepts any document unconditionally, and a malformed schema
//! is discovered later, at validation time. A later registration under the
//! same name replaces the earlier one. Nothing is ever removed.

use vstd::prelude::*;

verus! {

/// No model name occurs twice in the entry list.
spec fn names_unique(s: Seq<(String, serde_json::Value)>) -> bool {
    forall|i: int, j: int| 0 <= i < j < s.len() ==> s[i].0@ != s[j].0@
}

/// The mapping an entry list stands for.
spec fn entries_map(s: Seq<(String, serde_json::Value)>) -> Map<Seq<char>, serde_json::Value>
    decreases s.len(),
{
    if s.len() == 0 {
        Map::empty()
    } else {
        entries_map(s.drop_last()).insert(s.last().0@, s.last().1)
    }
}

/// A name is in the mapping exactly when some entry carries it.
proof fn lemma_entries_map_dom(s: Seq<(String, serde_json::Value)>, k: Seq<char>)
    ensures
        entries_map(s).contains_key(k) <==> exists|i: int| 0 <= i < s.len() && s[i].0@ == k,
    decreases s.len(),
{
    if s.len() > 0 {
        lemma_entries_map_dom(s.drop_last(), k);
        if s.last().0@ == k {
            assert(s[s.len() - 1].0@ == k);
        } else {
            if exists|i: int| 0 <= i < s.len() && s[i].0@ == k {
                let i = choose|i: int| 0 <= i < s.len() && s[i].0@ == k;
                assert(s.drop_last()[i].0@ == k);
            }
            if exists|i: int| 0 <= i < s.drop_last().len() && s.drop_last()[i].0@ == k {
                let i = choose|i: int| 0 <= i < s.drop_last().len() && s.drop_last()[i].0@ == k;
                assert(s[i].0@ == k);
            }
        }
    }
}

/// With unique names, the entry at any position gives the mapping's value for
/// its name.
proof fn lemma_entries_map_at(s: Seq<(String, serde_json::Value)>, i: int)
    requires
        names_unique(s),
        0 <= i < s.len(),
    ensures
        entries_map(s).contains_key(s[i].0@),
        entries_map(s)[s[i].0@] == s[i].1,
    decreases s.len(),
{
    if i < s.len() - 1 {
        assert(names_unique(s.drop_last())) by {
            assert forall|a: int, b: int|
                0 <= a < b < s.drop_last().len() implies s.drop_last()[a].0@
                != s.drop_last()[b].0@ by {
                assert(s.drop_last()[a] == s[a]);
                assert(s.drop_last()[b] == s[b]);
            }
        }
        lemma_entries_map_at(s.drop_last(), i);
        assert(s.drop_last()[i] == s[i]);
        assert(s[i].0@ != s[s.len() - 1].0@);
    }
}

/// Removing entries keeps the names unique.
proof fn lemma_unique_remove(s: Seq<(String, serde_json::Value)>, i: int)
    requires
        names_unique(s),
        0 <= i < s.len(),
    ensures
        names_unique(s.remove(i)),
{
    s.remove_ensures(i);
    let t = s.remove(i);
    assert forall|a: int, b: int| 0 <= a < b < t.len() implies t[a].0@ != t[b].0@ by {
        if a < i {
            assert(t[a] == s[a]);
        } else {
            assert(t[a] == s[a + 1]);
        }
        if b < i {
            assert(t[b] == s[b]);
        } else {
            assert(t[b] == s[b + 1]);
        }
    }
}

/// With unique names, removing the entry at a position removes exactly its
/// name from the mapping.
proof fn lemma_entries_map_remove(s: Seq<(String, serde_json::Value)>, i: int)
    requires
        names_unique(s),
        0 <= i < s.len(),
    ensures
        entries_map(s.remove(i)) == entries_map(s).remove(s[i].0@),
    decreases s.len(),
{
    s.remove_ensures(i);
    let k = s[i].0@;
    let dl = s.drop_last();
    if i == s.len() - 1 {
        assert(s.remove(i) =~= dl);
        lemma_entries_map_dom(dl, k);
        assert forall|j: int| 0 <= j < dl.len() implies dl[j].0@ != k by {
            assert(dl[j] == s[j]);
        }
        assert(entries_map(dl).insert(k, s[i].1).remove(k) =~= entries_map(dl));
        assert(entries_map(s) == entries_map(dl).insert(s.last().0@, s.last().1));
    } else {
        let t = s.remove(i);
        assert(names_unique(dl)) by {
            assert forall|a: int, b: int|
                0 <= a < b < dl.len() implies dl[a].0@ != dl[b].0@ by {
                assert(dl[a] == s[a]);
                assert(dl[b] == s[b]);
            }
        }
        assert(t.drop_last() =~= dl.remove(i)) by {
            dl.remove_ensures(i);
        }
        assert(t.last() == s.last());
        assert(dl[i] == s[i]);
        lemma_entries_map_remove(dl, i);
        let lk = s.last().0@;
        assert(k != lk);
        assert(entries_map(t) == entries_map(dl).remove(k).insert(lk, s.last().1));
        assert(entries_map(dl).remove(k).insert(lk, s.last().1) =~= entries_map(dl).insert(
            lk,
            s.last().1,
        ).remove(k));
    }
}

/// Appending an entry inserts its name into the mapping.
proof fn lemma_entries_map_push(s: Seq<(String, serde_json::Value)>, e: (
    String,
    serde_json::Value,
))
    ensures
        entries_map(s.push(e)) == entries_map(s).insert(e.0@, e.1),
{
    assert(s.push(e).drop_last() =~= s);
    assert(s.push(e).last() == e);
}

/// Maps model names to their current JSON Schema documents, last write wins.
pub struct SchemaRegistry {
    entries: Vec<(String, serde_json::Value)>,
}

impl View for SchemaRegistry {
    type V = Map<Seq<char>, serde_json::Value>;

    /// Abstract contents: each registered model name mapped to its current
    /// schema document.
    closed spec fn view(&self) -> Map<Seq<char>, serde_json::Value> {
        entries_map(self.entries@)
    }
}

impl SchemaRegistry {
    /// The registry's internal invariant: one entry per model name.
    pub closed spec fn wf(&self) -> bool {
        names_unique(self.entries@)
    }

    /// An empty registry: no model has a schema yet.
    pub fn new() -> (r: SchemaRegistry)
        ensures
            r.wf(),
            r@ == Map::<Seq<char>, serde_json::Value>::empty(),
    {
        SchemaRegistry { entries: Vec::new() }
    }

    /// The position of the entry carrying `name`, if any.
    fn find(&self, name: &String) -> (r: Option<usize>)
        ensures
            match r {
                Some(i) => i < self.entries@.len() && self.entries@[i as int].0@ == name@,
                None => forall|i: int|
                    0 <= i < self.entries@.len() ==> self.entries@[i].0@ != name@,
            },
    {
        let n = self.entries.len();
        let mut i: usize = 0;
        while i < n
            invariant
                n == self.entries@.len(),
                i <= n,
                forall|j: int| 0 <= j < i ==> self.entries@[j].0@ != name@,
            decreases n - i,
        {
            if self.entries[i].0 == *name {
                return Some(i);
            }
            i = i + 1;
        }
        None
    }

    /// Store `schema` as the current schema for `name`, replacing whatever
    /// was registered under that name before. Acceptance is unconditional:
    /// the document is not inspected here.
    pub fn register(&mut self, name: String, schema: serde_json::Value)
        requires
            old(self).wf(),
        ensures
            final(self).wf(),
            final(self)@ == old(self)@.insert(name@, schema),
    {
        let ghost s0 = self.entries@;
        let ghost nm = name@;
        let ghost sch = schema;
        match self.find(&name) {
            Some(i) => {
                proof {
                    lemma_entries_map_remove(s0, i as int);
                    lemma_unique_remove(s0, i as int);
                    s0.remove_ensures(i as int);
                }
                self.entries.remove(i);
                let ghost s1 = self.entries@;
                self.entries.push((name, schema));
                proof {
                    lemma_entries_map_push(s1, (name, schema));
                    assert(entries_map(s0).remove(nm).insert(nm, sch) =~= entries_map(s0).insert(
                        nm,
                        sch,
                    ));
                    assert forall|j: int| 0 <= j < s1.len() implies s1[j].0@ != nm by {
                        if j < i as int {
                            assert(s1[j] == s0[j]);
                        } else {
                            assert(s1[j] == s0[j + 1]);
                        }
                    }
                }
            },
            None => {
                let ghost s1 = self.entries@;
                self.entries.push((name, schema));
                proof {
                    lemma_entries_map_push(s1, (name, schema));
                }
            },
        }
    }

    /// The current schema for `name`, or nothing if no schema was ever
    /// registered under that name.
    pub fn lookup(&self, name: &String) -> (r: Option<&serde_json::Value>)
        requires
            self.wf(),
        ensures
            match r {
                Some(v) => self@.contains_key(name@) && *v == self@[name@],
                None => !self@.contains_key(name@),
            },
    {
        match self.find(name) {
            Some(i) => {
                proof {
                    lemma_entries_map_at(self.entries@, i as int);
                }
                Some(&self.entries[i].1)
            },
            None => {
                proof {
                    lemma_entries_map_dom(self.entries@, name@);
                }
                None
            },
        }
    }
}

} // verus!
