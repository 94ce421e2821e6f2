//! A string-to-string mapping with unique keys, kept as a list of entries.

use vstd::prelude::*;

verus! {

/// The views of a list of string entries.
pub open spec fn entry_views(v: Seq<(String, String)>) -> Seq<(Seq<char>, Seq<char>)> {
    v.map_values(|e: (String, String)| (e.0@, e.1@))
}

/// The mapping that a list of entries describes, a later entry overriding an
/// earlier one with the same key.
pub open spec fn map_of_entries(es: Seq<(Seq<char>, Seq<char>)>) -> Map<Seq<char>, Seq<char>>
    decreases es.len(),
{
    if es.len() == 0 {
        Map::empty()
    } else {
        map_of_entries(es.drop_last()).insert(es.last().0, es.last().1)
    }
}

/// No two entries share a key.
pub open spec fn distinct_keys(es: Seq<(Seq<char>, Seq<char>)>) -> bool {
    forall|i: int, j: int| 0 <= i < j < es.len() ==> #[trigger] es[i].0 != #[trigger] es[j].0
}

/// A key is mapped exactly when some entry holds it; with distinct keys, it is
/// mapped to that entry's value.
pub proof fn lemma_map_of_entries_lookup(es: Seq<(Seq<char>, Seq<char>)>, k: Seq<char>)
    ensures
        map_of_entries(es).contains_key(k) <==> exists|i: int| 0 <= i < es.len() && #[trigger] es[i].0 == k,
        forall|i: int|
            0 <= i < es.len() && distinct_keys(es) && #[trigger] es[i].0 == k
                ==> map_of_entries(es)[k] == es[i].1,
    decreases es.len(),
{
    if es.len() > 0 {
        let init = es.drop_last();
        lemma_map_of_entries_lookup(init, k);
        if exists|i: int| 0 <= i < init.len() && #[trigger] init[i].0 == k {
            let i = choose|i: int| 0 <= i < init.len() && #[trigger] init[i].0 == k;
            assert(es[i].0 == k);
        }
        assert forall|i: int| 0 <= i < es.len() && #[trigger] es[i].0 == k implies map_of_entries(
            es,
        ).contains_key(k) by {
            if i < es.len() - 1 {
                assert(init[i] == es[i]);
            }
        }
        assert forall|i: int|
            0 <= i < es.len() && distinct_keys(es) && #[trigger] es[i].0 == k
                implies map_of_entries(es)[k] == es[i].1 by {
            if i < es.len() - 1 {
                assert(init[i] == es[i]);
                assert(es[i].0 != es[es.len() - 1].0);
            }
        }
    }
}

/// With distinct keys, replacing the value of one entry changes the mapping at
/// that key alone.
pub proof fn lemma_map_of_entries_update(es: Seq<(Seq<char>, Seq<char>)>, i: int, v: Seq<char>)
    requires
        distinct_keys(es),
        0 <= i < es.len(),
    ensures
        map_of_entries(es.update(i, (es[i].0, v))) == map_of_entries(es).insert(es[i].0, v),
    decreases es.len(),
{
    let k = es[i].0;
    let es2 = es.update(i, (k, v));
    let init = es.drop_last();
    if i == es.len() - 1 {
        assert(es2.drop_last() =~= init);
        assert(map_of_entries(es2) =~= map_of_entries(es).insert(k, v));
    } else {
        assert(es2.drop_last() =~= init.update(i, (k, v)));
        assert(init[i] == es[i]);
        lemma_map_of_entries_update(init, i, v);
        assert(es.last().0 != k);
        assert(map_of_entries(es2) =~= map_of_entries(es).insert(k, v));
    }
}

/// With distinct keys, the mapping has one key per entry.
pub proof fn lemma_map_of_entries_len(es: Seq<(Seq<char>, Seq<char>)>)
    requires
        distinct_keys(es),
    ensures
        map_of_entries(es).dom().finite(),
        map_of_entries(es).len() == es.len(),
    decreases es.len(),
{
    if es.len() > 0 {
        let init = es.drop_last();
        lemma_map_of_entries_len(init);
        lemma_map_of_entries_lookup(init, es.last().0);
        if exists|i: int| 0 <= i < init.len() && #[trigger] init[i].0 == es.last().0 {
            let i = choose|i: int| 0 <= i < init.len() && #[trigger] init[i].0 == es.last().0;
            assert(es[i].0 == es[es.len() - 1].0);
        }
    }
}

/// Relies on String::push: appends one character.
#[verifier::external_body]
pub(crate) fn push_char(s: &mut String, c: char)
    ensures
        final(s)@ == old(s)@.push(c),
{
    s.push(c)
}

/// A mapping from string keys to string values.
#[derive(Clone, Debug)]
pub struct QueryMap {
    entries: Vec<(String, String)>,
}

impl View for QueryMap {
    type V = Map<Seq<char>, Seq<char>>;

    closed spec fn view(&self) -> Map<Seq<char>, Seq<char>> {
        map_of_entries(entry_views(self.entries@))
    }
}

impl QueryMap {
    /// Every key is held by one entry only.
    pub closed spec fn wf(&self) -> bool {
        distinct_keys(entry_views(self.entries@))
    }

    /// An empty mapping.
    pub fn new() -> (r: QueryMap)
        ensures
            r.wf(),
            r@ == Map::<Seq<char>, Seq<char>>::empty(),
    {
        let r = QueryMap { entries: Vec::new() };
        assert(entry_views(r.entries@) =~= Seq::<(Seq<char>, Seq<char>)>::empty());
        r
    }

    /// The index of the entry that holds `key`, if any.
    fn position(&self, key: &String) -> (r: Option<usize>)
        ensures
            match r {
                Some(i) => i < self.entries@.len() && self.entries@[i as int].0@ == key@,
                None => forall|i: int|
                    0 <= i < self.entries@.len() ==> (#[trigger] self.entries@[i]).0@ != key@,
            },
    {
        let mut i: usize = 0;
        while i < self.entries.len()
            invariant
                i <= self.entries@.len(),
                forall|j: int| 0 <= j < i ==> (#[trigger] self.entries@[j]).0@ != key@,
            decreases self.entries@.len() - i,
        {
            if self.entries[i].0 == *key {
                return Some(i);
            }
            i = i + 1;
        }
        None
    }

    /// Maps `key` to `value`, replacing what `key` was mapped to before.
    pub fn insert(&mut self, key: String, value: String)
        requires
            old(self).wf(),
        ensures
            final(self).wf(),
            final(self)@ == old(self)@.insert(key@, value@),
    {
        let ghost es = entry_views(self.entries@);
        match self.position(&key) {
            Some(i) => {
                self.entries.set(i, (key, value));
                proof {
                    assert(entry_views(self.entries@) =~= es.update(i as int, (es[i as int].0, value@)));
                    lemma_map_of_entries_update(es, i as int, value@);
                }
            },
            None => {
                let ghost k = key@;
                let ghost v = value@;
                self.entries.push((key, value));
                proof {
                    let es2 = entry_views(self.entries@);
                    assert(es2 =~= es.push((k, v)));
                    assert(es2.drop_last() =~= es);
                    assert forall|a: int, b: int| 0 <= a < b < es2.len() implies #[trigger] es2[a].0
                        != #[trigger] es2[b].0 by {
                        if b == es2.len() - 1 {
                            assert(old(self).entries@[a].0@ != k);
                        }
                    }
                }
            },
        }
    }

    /// The value that `key` is mapped to, if any.
    pub fn get(&self, key: &str) -> (r: Option<&String>)
        requires
            self.wf(),
        ensures
            match r {
                Some(v) => self@.contains_key(key@) && self@[key@] == v@,
                None => !self@.contains_key(key@),
            },
    {
        let k = key.to_owned();
        let ghost es = entry_views(self.entries@);
        proof {
            lemma_map_of_entries_lookup(es, key@);
        }
        match self.position(&k) {
            Some(i) => {
                assert(es[i as int].0 == key@);
                Some(&self.entries[i].1)
            },
            None => {
                assert forall|i: int| 0 <= i < es.len() implies #[trigger] es[i].0 != key@ by {
                    assert(self.entries@[i].0@ != key@);
                }
                None
            },
        }
    }

    /// The number of keys.
    pub fn len(&self) -> (r: usize)
        requires
            self.wf(),
        ensures
            r == self@.len(),
    {
        proof {
            lemma_map_of_entries_len(entry_views(self.entries@));
        }
        self.entries.len()
    }

    /// Whether no key is mapped.
    pub fn is_empty(&self) -> (r: bool)
        requires
            self.wf(),
        ensures
            r == (self@.len() == 0),
    {
        proof {
            lemma_map_of_entries_len(entry_views(self.entries@));
        }
        self.entries.len() == 0
    }

    /// The entries, one per key, in no particular order.
    pub fn entries(&self) -> (r: &[(String, String)])
        requires
            self.wf(),
        ensures
            distinct_keys(entry_views(r@)),
            map_of_entries(entry_views(r@)) == self@,
    {
        self.entries.as_slice()
    }
}

} // verus!
