//! The configuration of a remote: its scheme, root and named parameters.
use vstd::prelude::*;

use crate::text::same_text;

verus! {

broadcast use vstd::string::group_string_axioms;

/// Named text parameters, each name at most once.
#[derive(Debug)]
pub struct Params {
    entries: Vec<(String, String)>,
}

/// The names in a list of entries are pairwise distinct.
pub open spec fn distinct_keys(e: Seq<(String, String)>) -> bool {
    forall|i: int, j: int|
        0 <= i < e.len() && 0 <= j < e.len() && i != j ==> (#[trigger] e[i]).0@ != (
        #[trigger] e[j]).0@
}

/// The map that a list of entries with distinct names stands for.
pub open spec fn map_of(e: Seq<(String, String)>) -> Map<Seq<char>, Seq<char>> {
    Map::new(
        |k: Seq<char>| exists|i: int| 0 <= i < e.len() && (#[trigger] e[i]).0@ == k,
        |k: Seq<char>| e[choose|i: int| 0 <= i < e.len() && (#[trigger] e[i]).0@ == k].1@,
    )
}

pub proof fn lemma_map_of_at(e: Seq<(String, String)>, i: int)
    requires
        distinct_keys(e),
        0 <= i < e.len(),
    ensures
        map_of(e).contains_key(e[i].0@),
        map_of(e)[e[i].0@] == e[i].1@,
{
    let k = e[i].0@;
    assert(map_of(e).dom().contains(k));
    let j = choose|j: int| 0 <= j < e.len() && (#[trigger] e[j]).0@ == k;
    assert(j == i);
}

impl View for Params {
    type V = Map<Seq<char>, Seq<char>>;

    closed spec fn view(&self) -> Map<Seq<char>, Seq<char>> {
        map_of(self.entries@)
    }
}

impl Params {
    #[verifier::type_invariant]
    closed spec fn inv(self) -> bool {
        distinct_keys(self.entries@)
    }

    /// No parameters.
    pub fn new() -> (r: Params)
        ensures
            r@ == Map::<Seq<char>, Seq<char>>::empty(),
    {
        let r = Params { entries: Vec::new() };
        assert(r@ =~= Map::<Seq<char>, Seq<char>>::empty());
        r
    }

    /// The number of parameters.
    pub fn len(&self) -> (r: usize)
        ensures
            r == self@.len(),
    {
        proof {
            use_type_invariant(self);
            self.lemma_len();
        }
        self.entries.len()
    }

    proof fn lemma_len(&self)
        requires
            distinct_keys(self.entries@),
        ensures
            self@.dom().finite(),
            self@.len() == self.entries@.len(),
    {
        let e = self.entries@;
        let keys = e.map_values(|p: (String, String)| p.0@);
        assert forall|k: Seq<char>| #[trigger] self@.dom().contains(k) == keys.to_set().contains(k) by {
            if self@.dom().contains(k) {
                let i = choose|i: int| 0 <= i < e.len() && (#[trigger] e[i]).0@ == k;
                assert(keys[i] == k);
            }
            if keys.to_set().contains(k) {
                assert(keys.contains(k));
                let i = choose|i: int| 0 <= i < keys.len() && keys[i] == k;
                assert(e[i].0@ == k);
            }
        }
        assert(self@.dom() =~= keys.to_set());
        assert forall|i: int, j: int| 0 <= i < keys.len() && 0 <= j < keys.len() && i != j implies keys[i]
            != keys[j] by {
            assert(keys[i] == e[i].0@);
            assert(keys[j] == e[j].0@);
        }
        assert(keys.no_duplicates());
        keys.unique_seq_to_set();
    }

    /// The value of the parameter `key`.
    pub fn get(&self, key: &str) -> (r: Option<&String>)
        ensures
            match r {
                Some(v) => self@.contains_key(key@) && self@[key@] == v@,
                None => !self@.contains_key(key@),
            },
    {
        proof {
            use_type_invariant(self);
        }
        let mut i: usize = 0;
        while i < self.entries.len()
            invariant
                i <= self.entries.len(),
                distinct_keys(self.entries@),
                forall|k: int| 0 <= k < i ==> (#[trigger] self.entries@[k]).0@ != key@,
            decreases self.entries.len() - i,
        {
            if same_text(self.entries[i].0.as_str(), key) {
                proof {
                    lemma_map_of_at(self.entries@, i as int);
                }
                return Some(&self.entries[i].1);
            }
            i = i + 1;
        }
        None
    }

    /// Sets the parameter `key` to `value`, giving back the value it had.
    pub fn insert(&mut self, key: String, value: String) -> (r: Option<String>)
        ensures
            final(self)@ == old(self)@.insert(key@, value@),
            match r {
                Some(v) => old(self)@.contains_key(key@) && old(self)@[key@] == v@,
                None => !old(self)@.contains_key(key@),
            },
    {
        proof {
            use_type_invariant(&*self);
        }
        let ghost before = self.entries@;
        let mut i: usize = 0;
        while i < self.entries.len()
            invariant
                i <= self.entries.len(),
                self.entries@ == before,
                old(self).entries@ == before,
                distinct_keys(before),
                forall|k: int| 0 <= k < i ==> (#[trigger] before[k]).0@ != key@,
            decreases self.entries.len() - i,
        {
            if same_text(self.entries[i].0.as_str(), key.as_str()) {
                proof {
                    lemma_map_of_at(before, i as int);
                }
                let mut entries: Vec<(String, String)> = Vec::new();
                std::mem::swap(&mut entries, &mut self.entries);
                let (k, old_value) = entries.remove(i);
                entries.insert(i, (k, value));
                proof {
                    let after = entries@;
                    assert(after =~= before.update(i as int, (before[i as int].0, after[i as int].1)));
                    assert(distinct_keys(after));
                    assert(map_of(after) =~= map_of(before).insert(key@, after[i as int].1@)) by {
                        assert forall|k: Seq<char>| #[trigger] map_of(after).contains_key(k)
                            == map_of(before).insert(key@, after[i as int].1@).contains_key(k) by {
                            if map_of(before).contains_key(k) {
                                let j = choose|j: int| 0 <= j < before.len() && (#[trigger] before[j]).0@ == k;
                                assert(after[j].0@ == k);
                            }
                            if map_of(after).contains_key(k) {
                                let j = choose|j: int| 0 <= j < after.len() && (#[trigger] after[j]).0@ == k;
                                assert(before[j].0@ == k);
                            }
                        }
                        assert forall|k: Seq<char>| #[trigger] map_of(after).contains_key(k) implies map_of(after)[k]
                            == map_of(before).insert(key@, after[i as int].1@)[k] by {
                            let j = choose|j: int| 0 <= j < after.len() && (#[trigger] after[j]).0@ == k;
                            lemma_map_of_at(after, j);
                            if j != i {
                                lemma_map_of_at(before, j);
                            }
                        }
                    }
                }
                self.entries = entries;
                return Some(old_value);
            }
            i = i + 1;
        }
        let ghost after = before.push((key, value));
        proof {
            assert forall|a: int, b: int|
                0 <= a < after.len() && 0 <= b < after.len() && a != b implies (#[trigger] after[a]).0@
                != (#[trigger] after[b]).0@ by {
                if a < before.len() && b < before.len() {
                    assert(after[a] == before[a]);
                    assert(after[b] == before[b]);
                }
            }
            assert(!map_of(before).contains_key(key@));
            assert(map_of(after) =~= map_of(before).insert(key@, value@)) by {
                assert forall|k: Seq<char>| #[trigger] map_of(after).contains_key(k)
                    == map_of(before).insert(key@, value@).contains_key(k) by {
                    if map_of(before).contains_key(k) {
                        let j = choose|j: int| 0 <= j < before.len() && (#[trigger] before[j]).0@ == k;
                        assert(after[j].0@ == k);
                    }
                    if k == key@ {
                        assert(after[before.len() as int].0@ == k);
                    }
                    if map_of(after).contains_key(k) && k != key@ {
                        let j = choose|j: int| 0 <= j < after.len() && (#[trigger] after[j]).0@ == k;
                        assert(before[j].0@ == k);
                    }
                }
                assert forall|k: Seq<char>| #[trigger] map_of(after).contains_key(k) implies map_of(after)[k]
                    == map_of(before).insert(key@, value@)[k] by {
                    let j = choose|j: int| 0 <= j < after.len() && (#[trigger] after[j]).0@ == k;
                    lemma_map_of_at(after, j);
                    if j < before.len() {
                        assert(after[j] == before[j]);
                        lemma_map_of_at(before, j);
                    }
                }
            }
        }
        let mut entries: Vec<(String, String)> = Vec::new();
        std::mem::swap(&mut entries, &mut self.entries);
        entries.push((key, value));
        assert(entries@ == after);
        self.entries = entries;
        None
    }
}

/// After `insert(key, value)`, `get(key)` gives `value` back and every other
/// parameter reads as before.
pub proof fn lemma_get_after_insert(
    before: Map<Seq<char>, Seq<char>>,
    after: Map<Seq<char>, Seq<char>>,
    key: Seq<char>,
    value: Seq<char>,
    other: Seq<char>,
)
    requires
        after == before.insert(key, value),
    ensures
        after.contains_key(key) && after[key] == value,
        other != key ==> (after.contains_key(other) == before.contains_key(other)),
        other != key && before.contains_key(other) ==> after[other] == before[other],
{
}

/// A remote's configuration: its scheme, the root inside the storage, and
/// the service's parameters.
#[derive(Debug)]
pub struct RemoteConfig {
    pub scheme: String,
    pub root: String,
    pub params: Params,
}

} // verus!
