//! A map from artifact file names to release asset names, kept as a vector of
//! pairs ordered by key, in which no key occurs twice.

use vstd::prelude::*;
use crate::text::{chars_lt, lemma_chars_lt_total, lemma_chars_lt_transitive, str_equal, str_lt};

verus! {

/// A finite map from names to names.
pub struct NameMap {
    entries: Vec<(String, String)>,
}

/// No key occurs twice in `e`.
pub open spec fn keys_distinct(e: Seq<(String, String)>) -> bool {
    forall|a: int, b: int|
        0 <= a < e.len() && 0 <= b < e.len() && #[trigger] e[a].0@ == #[trigger] e[b].0@ ==> a == b
}

/// The keys of `e` come in ascending order, each before the next.
pub open spec fn keys_sorted(e: Seq<(String, String)>) -> bool {
    forall|a: int, b: int| 0 <= a < b < e.len() ==> chars_lt(#[trigger] e[a].0@, #[trigger] e[b].0@)
}

/// The map that a sequence of pairs with distinct keys stands for.
pub open spec fn entries_map(e: Seq<(String, String)>) -> Map<Seq<char>, Seq<char>> {
    Map::new(
        |k: Seq<char>| exists|i: int| 0 <= i < e.len() && e[i].0@ == k,
        |k: Seq<char>| e[choose|i: int| 0 <= i < e.len() && e[i].0@ == k].1@,
    )
}

impl View for NameMap {
    type V = Map<Seq<char>, Seq<char>>;

    closed spec fn view(&self) -> Map<Seq<char>, Seq<char>> {
        entries_map(self.entries@)
    }
}

impl NameMap {
    #[verifier::type_invariant]
    spec fn inv(self) -> bool {
        &&& keys_distinct(self.entries@)
        &&& keys_sorted(self.entries@)
    }

    /// An empty map.
    pub fn new() -> (m: NameMap)
        ensures
            m@ == Map::<Seq<char>, Seq<char>>::empty(),
    {
        let m = NameMap { entries: Vec::new() };
        assert(m@ =~= Map::<Seq<char>, Seq<char>>::empty());
        m
    }

    /// Number of keys.
    pub fn len(&self) -> (n: usize)
        ensures
            n == self@.dom().len(),
    {
        proof {
            use_type_invariant(self);
            self.lemma_dom_len();
        }
        self.entries.len()
    }

    proof fn lemma_dom_len(&self)
        requires
            keys_distinct(self.entries@),
        ensures
            self@.dom().finite(),
            self@.dom().len() == self.entries@.len(),
        decreases self.entries@.len(),
    {
        let e = self.entries@;
        let keys = e.map_values(|p: (String, String)| p.0@);
        assert forall|k: Seq<char>| #[trigger] self@.dom().contains(k) <==> keys.to_set().contains(k) by {
            if self@.dom().contains(k) {
                let i = choose|i: int| 0 <= i < e.len() && e[i].0@ == k;
                assert(keys[i] == k);
            }
            if keys.to_set().contains(k) {
                assert(keys.contains(k));
                let i = choose|i: int| 0 <= i < keys.len() && keys[i] == k;
                assert(e[i].0@ == k);
            }
        }
        assert(self@.dom() =~= keys.to_set());
        assert forall|a: int, b: int| 0 <= a < keys.len() && 0 <= b < keys.len() && a != b
            implies keys[a] != keys[b] by {
            assert(e[a].0@ == keys[a]);
            assert(e[b].0@ == keys[b]);
        }
        assert(keys.no_duplicates());
        keys.unique_seq_to_set();
    }

    /// The value stored under `key`.
    pub fn get(&self, key: &str) -> (r: Option<&String>)
        ensures
            match r {
                Some(v) => self@.dom().contains(key@) && self@[key@] == v@,
                None => !self@.dom().contains(key@),
            },
    {
        proof {
            use_type_invariant(self);
        }
        let mut i: usize = 0;
        while i < self.entries.len()
            invariant
                i <= self.entries@.len(),
                keys_distinct(self.entries@),
                forall|j: int| 0 <= j < i ==> self.entries@[j].0@ != key@,
            decreases self.entries@.len() - i,
        {
            if str_equal(self.entries[i].0.as_str(), key) {
                let ghost k = key@;
                let ghost e = self.entries@;
                assert(0 <= i < e.len() && e[i as int].0@ == k);
                let ghost c = choose|j: int| 0 <= j < e.len() && e[j].0@ == k;
                assert(e[c].0@ == e[i as int].0@);
                return Some(&self.entries[i].1);
            }
            i = i + 1;
        }
        None
    }

    /// The pairs of the map, each key once, in ascending order of key.
    pub fn pairs(&self) -> (r: &Vec<(String, String)>)
        ensures
            keys_distinct(r@),
            keys_sorted(r@),
            entries_map(r@) == self@,
    {
        proof {
            use_type_invariant(self);
        }
        &self.entries
    }

    /// Stores `value` under `key`, replacing what was stored there.
    pub fn insert(&mut self, key: String, value: String)
        ensures
            final(self)@ == old(self)@.insert(key@, value@),
    {
        proof {
            use_type_invariant(&*self);
        }
        let ghost e = self.entries@;
        let mut i: usize = 0;
        while i < self.entries.len()
            invariant
                e == self.entries@,
                *self == *old(self),
                keys_distinct(e),
                keys_sorted(e),
                i <= e.len(),
                forall|j: int| 0 <= j < i ==> chars_lt(#[trigger] e[j].0@, key@),
            decreases e.len() - i,
        {
            if str_equal(self.entries[i].0.as_str(), key.as_str()) {
                let mut entries: Vec<(String, String)> = Vec::new();
                std::mem::swap(&mut entries, &mut self.entries);
                let ghost ne = e.update(i as int, (key, value));
                entries.set(i, (key, value));
                assert(entries@ == ne);
                assert(keys_distinct(ne)) by {
                    assert forall|a: int, b: int|
                        0 <= a < ne.len() && 0 <= b < ne.len() && #[trigger] ne[a].0@ == #[trigger] ne[b].0@
                        implies a == b by {
                        if a != i && b != i {
                            assert(e[a] == ne[a] && e[b] == ne[b]);
                        } else if a == i && b != i {
                            assert(e[b] == ne[b]);
                            assert(e[a].0@ == key@);
                        } else if b == i && a != i {
                            assert(e[a] == ne[a]);
                            assert(e[b].0@ == key@);
                        }
                    }
                }
                assert(keys_sorted(ne)) by {
                    assert forall|a: int, b: int| 0 <= a < b < ne.len() implies chars_lt(
                        #[trigger] ne[a].0@,
                        #[trigger] ne[b].0@,
                    ) by {
                        assert(ne[a].0@ == e[a].0@);
                        assert(ne[b].0@ == e[b].0@);
                    }
                }
                proof {
                    lemma_update_map(e, i as int, key, value);
                }
                self.entries = entries;
                return;
            }
            if str_lt(key.as_str(), self.entries[i].0.as_str()) {
                proof {
                    lemma_insert_map(e, i as int, key, value);
                }
                let mut entries: Vec<(String, String)> = Vec::new();
                std::mem::swap(&mut entries, &mut self.entries);
                entries.insert(i, (key, value));
                self.entries = entries;
                return;
            }
            proof {
                lemma_chars_lt_total(key@, e[i as int].0@);
            }
            i = i + 1;
        }
        proof {
            lemma_insert_map(e, e.len() as int, key, value);
        }
        let mut entries: Vec<(String, String)> = Vec::new();
        std::mem::swap(&mut entries, &mut self.entries);
        entries.push((key, value));
        assert(entries@ =~= e.insert(e.len() as int, (key, value)));
        self.entries = entries;
    }
}

/// Placing a new key where every key before it is smaller and every key after
/// it is larger keeps the keys distinct and ordered, and adds the pair to the map.
proof fn lemma_insert_map(e: Seq<(String, String)>, i: int, key: String, value: String)
    requires
        keys_distinct(e),
        keys_sorted(e),
        0 <= i <= e.len(),
        forall|j: int| 0 <= j < i ==> chars_lt(#[trigger] e[j].0@, key@),
        i < e.len() ==> chars_lt(key@, e[i].0@),
    ensures
        keys_distinct(e.insert(i, (key, value))),
        keys_sorted(e.insert(i, (key, value))),
        entries_map(e.insert(i, (key, value))) == entries_map(e).insert(key@, value@),
{
    let ne = e.insert(i, (key, value));
    e.insert_ensures(i, (key, value));
    assert forall|j: int| 0 <= j < e.len() implies e[j].0@ != key@ by {
        lemma_chars_lt_total(key@, key@);
        if j < i {
            assert(chars_lt(e[j].0@, key@));
        } else {
            if j > i {
                assert(chars_lt(e[i].0@, e[j].0@));
                lemma_chars_lt_transitive(key@, e[i].0@, e[j].0@);
            }
        }
    }
    assert forall|a: int, b: int| 0 <= a < b < ne.len() implies chars_lt(#[trigger] ne[a].0@, #[trigger] ne[b].0@) by {
        if b < i {
            assert(ne[a] == e[a] && ne[b] == e[b]);
        } else if b == i {
            assert(ne[a] == e[a]);
        } else if a < i {
            assert(ne[a] == e[a] && ne[b] == e[b - 1]);
            if b - 1 == i {
                lemma_chars_lt_transitive(e[a].0@, key@, e[i].0@);
            } else {
                assert(chars_lt(e[a].0@, e[b - 1].0@));
            }
        } else if a == i {
            assert(ne[b] == e[b - 1]);
            if b - 1 > i {
                lemma_chars_lt_transitive(key@, e[i].0@, e[b - 1].0@);
            }
        } else {
            assert(ne[a] == e[a - 1] && ne[b] == e[b - 1]);
        }
    }
    assert forall|a: int, b: int|
        0 <= a < ne.len() && 0 <= b < ne.len() && #[trigger] ne[a].0@ == #[trigger] ne[b].0@ implies a == b by {
        if a < b {
            lemma_chars_lt_total(ne[a].0@, ne[b].0@);
        } else if b < a {
            lemma_chars_lt_total(ne[b].0@, ne[a].0@);
        }
    }
    let m = entries_map(e);
    let nm = entries_map(ne);
    assert forall|k: Seq<char>| #[trigger] nm.dom().contains(k) <==> m.insert(key@, value@).dom().contains(k) by {
        if k == key@ {
            assert(ne[i].0@ == k);
        } else {
            if nm.dom().contains(k) {
                let j = choose|j: int| 0 <= j < ne.len() && ne[j].0@ == k;
                if j < i {
                    assert(ne[j] == e[j]);
                } else {
                    assert(j != i);
                    assert(ne[j] == e[j - 1]);
                }
            }
            if m.dom().contains(k) {
                let j = choose|j: int| 0 <= j < e.len() && e[j].0@ == k;
                if j < i {
                    assert(ne[j] == e[j]);
                } else {
                    assert(ne[j + 1] == e[j]);
                }
            }
        }
    }
    assert forall|k: Seq<char>| nm.dom().contains(k) implies #[trigger] nm[k] == m.insert(key@, value@)[k] by {
        let j = choose|j: int| 0 <= j < ne.len() && ne[j].0@ == k;
        if k == key@ {
            assert(ne[i].0@ == k);
            assert(j == i);
        } else {
            let j0 = choose|j0: int| 0 <= j0 < e.len() && e[j0].0@ == k;
            if j0 < i {
                assert(ne[j0] == e[j0]);
                assert(j0 == j);
            } else {
                assert(ne[j0 + 1] == e[j0]);
                assert(j0 + 1 == j);
            }
        }
    }
    assert(nm =~= m.insert(key@, value@));
}

proof fn lemma_update_map(e: Seq<(String, String)>, i: int, key: String, value: String)
    requires
        keys_distinct(e),
        0 <= i < e.len(),
        e[i].0@ == key@,
        keys_distinct(e.update(i, (key, value))),
    ensures
        entries_map(e.update(i, (key, value))) == entries_map(e).insert(key@, value@),
{
    let ne = e.update(i, (key, value));
    let m = entries_map(e);
    let nm = entries_map(ne);
    assert forall|k: Seq<char>| #[trigger] nm.dom().contains(k) <==> m.insert(key@, value@).dom().contains(k) by {
        if k == key@ {
            assert(ne[i].0@ == k);
            assert(e[i].0@ == k);
        } else {
            if nm.dom().contains(k) {
                let j = choose|j: int| 0 <= j < ne.len() && ne[j].0@ == k;
                assert(e[j] == ne[j]);
            }
            if m.dom().contains(k) {
                let j = choose|j: int| 0 <= j < e.len() && e[j].0@ == k;
                assert(e[j] == ne[j]);
            }
        }
    }
    assert forall|k: Seq<char>| nm.dom().contains(k) implies #[trigger] nm[k] == m.insert(key@, value@)[k] by {
        let j = choose|j: int| 0 <= j < ne.len() && ne[j].0@ == k;
        if k == key@ {
            assert(ne[i].0@ == k);
            assert(j == i);
        } else {
            assert(e[j] == ne[j]);
            let j0 = choose|j0: int| 0 <= j0 < e.len() && e[j0].0@ == k;
            assert(j0 == j);
        }
    }
    assert(nm =~= m.insert(key@, value@));
}

} // verus!
