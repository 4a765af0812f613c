//! A map keyed by name that lists its entries in name order.
use crate::text::{lemma_text_lt_irreflexive, lemma_text_lt_total, lemma_text_lt_transitive, str_less, text_lt};
use vstd::prelude::*;

verus! {

/// Whether some entry of `s` has the key `k`.
pub open spec fn has_key<T>(s: Seq<(Seq<char>, T)>, k: Seq<char>) -> bool {
    exists|i: int| 0 <= i < s.len() && (#[trigger] s[i]).0 == k
}

/// The position of an entry of `s` with the key `k`.
pub open spec fn index_of<T>(s: Seq<(Seq<char>, T)>, k: Seq<char>) -> int {
    choose|i: int| 0 <= i < s.len() && (#[trigger] s[i]).0 == k
}

/// The map that a list of entries stands for.
pub open spec fn map_of<T>(s: Seq<(Seq<char>, T)>) -> Map<Seq<char>, T> {
    Map::new(|k: Seq<char>| has_key(s, k), |k: Seq<char>| s[index_of(s, k)].1)
}

/// The keys of `s` strictly increase, so none occurs twice.
pub open spec fn sorted_keys<T>(s: Seq<(Seq<char>, T)>) -> bool {
    forall|i: int, j: int| 0 <= i < j < s.len() ==> text_lt((#[trigger] s[i]).0, (#[trigger] s[j]).0)
}

/// In a list with increasing keys, a key is found at one position only.
pub proof fn lemma_index_unique<T>(s: Seq<(Seq<char>, T)>, i: int, j: int)
    requires
        sorted_keys(s),
        0 <= i < s.len(),
        0 <= j < s.len(),
        s[i].0 == s[j].0,
    ensures
        i == j,
{
    lemma_text_lt_irreflexive(s[i].0);
}

/// What the map of a list with increasing keys holds: each entry of the list,
/// and nothing else.
pub proof fn lemma_map_of<T>(s: Seq<(Seq<char>, T)>)
    requires
        sorted_keys(s),
    ensures
        forall|i: int| 0 <= i < s.len() ==> map_of(s).dom().contains((#[trigger] s[i]).0) && map_of(s)[s[i].0] == s[i].1,
        forall|k: Seq<char>| #[trigger] map_of(s).dom().contains(k) ==> 0 <= index_of(s, k) < s.len() && s[index_of(s, k)].0 == k,
{
    assert forall|i: int| 0 <= i < s.len() implies map_of(s).dom().contains((#[trigger] s[i]).0)
        && map_of(s)[s[i].0] == s[i].1 by {
        let k = s[i].0;
        assert(has_key(s, k));
        lemma_index_unique(s, i, index_of(s, k));
    }
}

/// A map from names to values. Its entries are kept in the order of their names.
#[derive(Debug)]
pub struct NameMap<V: View> {
    keys: Vec<String>,
    values: Vec<V>,
}

/// The names and value views of a list of entries.
pub open spec fn listing<V: View>(keys: Seq<String>, values: Seq<V>) -> Seq<(Seq<char>, V::V)> {
    Seq::new(keys.len(), |i: int| (keys[i]@, values[i]@))
}

impl<V: View> View for NameMap<V> {
    type V = Map<Seq<char>, V::V>;

    open spec fn view(&self) -> Map<Seq<char>, V::V> {
        map_of(self.seq())
    }
}

impl<V: View> NameMap<V> {
    /// The entries in the order in which they are listed, each as its name and
    /// the view of its value.
    pub closed spec fn seq(&self) -> Seq<(Seq<char>, V::V)> {
        listing(self.keys@, self.values@)
    }

    /// Every name has its value.
    pub closed spec fn paired(&self) -> bool {
        self.keys@.len() == self.values@.len()
    }

    /// Every map lists its entries by increasing name.
    #[verifier::type_invariant]
    pub open spec fn in_name_order(&self) -> bool {
        self.paired() && sorted_keys(self.seq())
    }

    /// The empty map.
    pub fn new() -> (r: Self)
        ensures
            r.seq() == Seq::<(Seq<char>, V::V)>::empty(),
            r@ == Map::<Seq<char>, V::V>::empty(),
    {
        let r = NameMap { keys: Vec::new(), values: Vec::new() };
        assert(r.seq() =~= Seq::<(Seq<char>, V::V)>::empty());
        assert(r@ =~= Map::<Seq<char>, V::V>::empty());
        r
    }

    /// The number of entries.
    pub fn len(&self) -> (n: usize)
        ensures
            n == self.seq().len(),
    {
        self.keys.len()
    }

    /// The name of the entry at position `i` of the listing.
    pub fn key_at(&self, i: usize) -> (k: &String)
        requires
            i < self.seq().len(),
        ensures
            k@ == self.seq()[i as int].0,
    {
        &self.keys[i]
    }

    /// The value of the entry at position `i` of the listing.
    pub fn value_at(&self, i: usize) -> (v: &V)
        requires
            i < self.seq().len(),
        ensures
            v@ == self.seq()[i as int].1,
    {
        proof {
            use_type_invariant(self);
        }
        &self.values[i]
    }

    /// The first position whose name does not come before `key`.
    fn position(&self, key: &String) -> (p: usize)
        ensures
            p <= self.seq().len(),
            forall|i: int| 0 <= i < p ==> text_lt((#[trigger] self.seq()[i]).0, key@),
            forall|i: int| p <= i < self.seq().len() ==> !text_lt((#[trigger] self.seq()[i]).0, key@),
    {
        proof {
            use_type_invariant(self);
        }
        let mut p: usize = 0;
        while p < self.keys.len() && str_less(self.keys[p].as_str(), key.as_str())
            invariant
                p <= self.keys.len(),
                self.keys.len() == self.seq().len(),
                forall|i: int| 0 <= i < p ==> text_lt((#[trigger] self.seq()[i]).0, key@),
            decreases self.keys.len() - p,
        {
            p += 1;
        }
        proof {
            let s = self.seq();
            assert forall|i: int| p <= i < s.len() implies !text_lt((#[trigger] s[i]).0, key@) by {
                if i > p && text_lt(s[i].0, key@) {
                    assert(text_lt(s[p as int].0, s[i].0));
                    lemma_text_lt_transitive(s[p as int].0, s[i].0, key@);
                }
            }
        }
        p
    }

    /// The position of the entry named `key`, if there is one.
    pub fn find(&self, key: &String) -> (r: Option<usize>)
        ensures
            match r {
                Some(i) => i < self.seq().len() && self.seq()[i as int].0 == key@,
                None => !has_key(self.seq(), key@),
            },
    {
        proof {
            use_type_invariant(self);
        }
        let p: usize = self.position(key);
        if p < self.keys.len() && self.keys[p] == *key {
            Some(p)
        } else {
            proof {
                let s = self.seq();
                assert forall|i: int| 0 <= i < s.len() implies (#[trigger] s[i]).0 != key@ by {
                    lemma_text_lt_irreflexive(key@);
                    if i > p {
                        assert(text_lt(s[p as int].0, s[i].0));
                    }
                }
            }
            None
        }
    }

    /// Whether the map has an entry named `key`.
    pub fn contains_key(&self, key: &String) -> (r: bool)
        ensures
            r == self@.dom().contains(key@),
    {
        self.find(key).is_some()
    }

    /// The value of the entry named `key`, if there is one.
    pub fn get(&self, key: &String) -> (r: Option<&V>)
        ensures
            match r {
                Some(v) => self@.dom().contains(key@) && v@ == self@[key@],
                None => !self@.dom().contains(key@),
            },
    {
        proof {
            use_type_invariant(self);
            lemma_map_of(self.seq());
        }
        match self.find(key) {
            Some(i) => Some(&self.values[i]),
            None => None,
        }
    }

    /// The value of the entry named `key`, if there is one, to be changed in
    /// place.
    pub fn get_mut(&mut self, key: &String) -> (r: Option<&mut V>)
        ensures
            match r {
                Some(v) => old(self)@.dom().contains(key@) && (*v)@ == old(self)@[key@] && final(self)@ == old(
                    self,
                )@.insert(key@, (*final(v))@),
                None => !old(self)@.dom().contains(key@) && final(self)@ == old(self)@,
            },
    {
        proof {
            use_type_invariant(&*self);
            lemma_map_of(self.seq());
        }
        match self.find(key) {
            Some(i) => {
                proof {
                    lemma_replace_any(self.seq(), i as int);
                    lemma_value_change(self.keys@, self.values@, i as int);
                }
                Some(&mut self.values[i])
            },
            None => None,
        }
    }

    /// Puts `value` under the name `key`, in place of the value that the name
    /// had, which is returned.
    pub fn insert(&mut self, key: String, value: V) -> (r: Option<V>)
        ensures
            final(self)@ == old(self)@.insert(key@, value@),
            match r {
                Some(v) => old(self)@.dom().contains(key@) && v@ == old(self)@[key@],
                None => !old(self)@.dom().contains(key@),
            },
    {
        proof {
            use_type_invariant(&*self);
            lemma_map_of(self.seq());
        }
        let ghost before = self.seq();
        let ghost k = key@;
        let ghost val = value@;
        let found = self.find(&key);
        let p: usize = self.position(&key);
        let mut taken: NameMap<V> = NameMap::new();
        std::mem::swap(self, &mut taken);
        let NameMap { keys, values } = taken;
        let mut keys = keys;
        let mut values = values;
        match found {
            Some(at) => {
                let mut value = value;
                proof {
                    lemma_replace(before, at as int, val);
                }
                std::mem::swap(&mut values[at], &mut value);
                proof {
                    assert(listing(keys@, values@) =~= before.update(at as int, (k, val)));
                }
                *self = NameMap { keys, values };
                Some(value)
            },
            None => {
                keys.insert(p, key);
                values.insert(p, value);
                proof {
                    assert(listing(keys@, values@) =~= before.insert(p as int, (k, val)));
                    assert forall|i: int| p <= i < before.len() implies text_lt(k, (#[trigger] before[i]).0) by {
                        lemma_text_lt_total(k, before[i].0);
                    }
                    lemma_insert_new(before, p as int, k, val);
                }
                *self = NameMap { keys, values };
                None
            },
        }
    }

    /// Takes out the entry named `key`, if there is one, and returns its value.
    pub fn remove(&mut self, key: &String) -> (r: Option<V>)
        ensures
            final(self)@ == old(self)@.remove(key@),
            match r {
                Some(v) => old(self)@.dom().contains(key@) && v@ == old(self)@[key@],
                None => !old(self)@.dom().contains(key@),
            },
    {
        proof {
            use_type_invariant(&*self);
            lemma_map_of(self.seq());
        }
        let ghost before = self.seq();
        match self.find(key) {
            None => {
                assert(map_of(before) =~= map_of(before).remove(key@));
                None
            },
            Some(p) => {
                let mut taken: NameMap<V> = NameMap::new();
                std::mem::swap(self, &mut taken);
                let NameMap { keys, values } = taken;
                let mut keys = keys;
                let mut values = values;
                keys.remove(p);
                let gone = values.remove(p);
                proof {
                    assert(listing(keys@, values@) =~= before.remove(p as int));
                    lemma_remove(before, p as int);
                }
                *self = NameMap { keys, values };
                Some(gone)
            },
        }
    }
}

impl<V: View + Clone> Clone for NameMap<V> {
    /// A map with the same names, each with a clone of its value.
    fn clone(&self) -> (r: Self)
        ensures
            r.seq().len() == self.seq().len(),
            forall|i: int| 0 <= i < self.seq().len() ==> (#[trigger] r.seq()[i]).0 == self.seq()[i].0,
    {
        proof {
            use_type_invariant(self);
        }
        let mut keys: Vec<String> = Vec::new();
        let mut values: Vec<V> = Vec::new();
        let mut i: usize = 0;
        while i < self.keys.len()
            invariant
                i <= self.keys.len(),
                self.keys.len() == self.values.len(),
                keys.len() == i,
                values.len() == i,
                forall|j: int| 0 <= j < i ==> (#[trigger] keys[j])@ == self.keys[j]@,
            decreases self.keys.len() - i,
        {
            keys.push(self.keys[i].clone());
            values.push(self.values[i].clone());
            i += 1;
        }
        proof {
            let a = listing(keys@, values@);
            let b = self.seq();
            assert forall|x: int, y: int| 0 <= x < y < a.len() implies text_lt((#[trigger] a[x]).0, (#[trigger] a[y]).0) by {
                assert(a[x].0 == b[x].0);
                assert(a[y].0 == b[y].0);
            }
        }
        NameMap { keys, values }
    }
}

/// Changing a value changes the entry at its place and no other.
proof fn lemma_value_change<V: View>(keys: Seq<String>, values: Seq<V>, p: int)
    requires
        0 <= p < keys.len(),
        keys.len() == values.len(),
    ensures
        forall|x: V| #[trigger]
            listing(keys, values.update(p, x)) == listing(keys, values).update(p, (keys[p]@, x@)),
{
    assert forall|x: V| #[trigger]
        listing(keys, values.update(p, x)) == listing(keys, values).update(p, (keys[p]@, x@)) by {
        assert(listing(keys, values.update(p, x)) =~= listing(keys, values).update(p, (keys[p]@, x@)));
    }
}

/// Replacing the value of an entry keeps the order and updates the map.
proof fn lemma_replace<T>(before: Seq<(Seq<char>, T)>, p: int, val: T)
    requires
        sorted_keys(before),
        0 <= p < before.len(),
    ensures
        sorted_keys(before.update(p, (before[p].0, val))),
        map_of(before.update(p, (before[p].0, val))) == map_of(before).insert(before[p].0, val),
{
    let k = before[p].0;
    let after = before.update(p, (k, val));
    assert forall|i: int, j: int| 0 <= i < j < after.len() implies text_lt(
        (#[trigger] after[i]).0,
        (#[trigger] after[j]).0,
    ) by {
        assert(after[i].0 == before[i].0);
        assert(after[j].0 == before[j].0);
    }
    lemma_map_of(after);
    lemma_map_of(before);
    assert forall|key2: Seq<char>| map_of(after).dom().contains(key2) <==> (key2 == k || map_of(
        before,
    ).dom().contains(key2)) by {
        if map_of(after).dom().contains(key2) {
            let i = index_of(after, key2);
            assert(before[i].0 == key2);
        }
        if map_of(before).dom().contains(key2) {
            let i = index_of(before, key2);
            assert(after[i].0 == key2);
        }
        assert(after[p].0 == k);
    }
    assert forall|key2: Seq<char>| #[trigger] map_of(after).dom().contains(key2) implies map_of(after)[key2]
        == map_of(before).insert(k, val)[key2] by {
        let i = index_of(after, key2);
        assert(map_of(after)[after[i].0] == after[i].1);
        if key2 != k {
            assert(i != p);
            assert(before[i] == after[i]);
            assert(map_of(before)[before[i].0] == before[i].1);
        } else {
            lemma_index_unique(after, i, p);
        }
    }
    assert(map_of(after) =~= map_of(before).insert(k, val));
}

/// Whatever replaces the value of an entry, the order is kept and the map
/// is updated.
proof fn lemma_replace_any<T>(before: Seq<(Seq<char>, T)>, p: int)
    requires
        sorted_keys(before),
        0 <= p < before.len(),
    ensures
        forall|val: T|
            sorted_keys(#[trigger] before.update(p, (before[p].0, val))) && map_of(
                before.update(p, (before[p].0, val)),
            ) == map_of(before).insert(before[p].0, val),
{
    assert forall|val: T|
        sorted_keys(#[trigger] before.update(p, (before[p].0, val))) && map_of(
            before.update(p, (before[p].0, val)),
        ) == map_of(before).insert(before[p].0, val) by {
        lemma_replace(before, p, val);
    }
}

/// Putting a new name at its place keeps the order and extends the map.
proof fn lemma_insert_new<T>(before: Seq<(Seq<char>, T)>, p: int, k: Seq<char>, val: T)
    requires
        sorted_keys(before),
        0 <= p <= before.len(),
        forall|i: int| 0 <= i < p ==> text_lt((#[trigger] before[i]).0, k),
        forall|i: int| p <= i < before.len() ==> text_lt(k, (#[trigger] before[i]).0),
    ensures
        sorted_keys(before.insert(p, (k, val))),
        map_of(before.insert(p, (k, val))) == map_of(before).insert(k, val),
{
    let after = before.insert(p, (k, val));
    assert forall|i: int, j: int| 0 <= i < j < after.len() implies text_lt(
        (#[trigger] after[i]).0,
        (#[trigger] after[j]).0,
    ) by {
        let bi = if i < p { i } else { i - 1 };
        let bj = if j < p { j } else { j - 1 };
        if i != p {
            assert(after[i] == before[bi]);
        }
        if j != p {
            assert(after[j] == before[bj]);
        }
    }
    lemma_map_of(after);
    lemma_map_of(before);
    assert(after[p] == (k, val));
    assert forall|key2: Seq<char>| map_of(after).dom().contains(key2) <==> (key2 == k || map_of(
        before,
    ).dom().contains(key2)) by {
        if map_of(after).dom().contains(key2) && key2 != k {
            let i = index_of(after, key2);
            let bi = if i < p { i } else { i - 1 };
            assert(before[bi].0 == key2);
        }
        if map_of(before).dom().contains(key2) {
            let bi = index_of(before, key2);
            let i = if bi < p { bi } else { bi + 1 };
            assert(after[i].0 == key2);
        }
    }
    assert forall|key2: Seq<char>| #[trigger] map_of(after).dom().contains(key2) implies map_of(after)[key2]
        == map_of(before).insert(k, val)[key2] by {
        let i = index_of(after, key2);
        assert(map_of(after)[after[i].0] == after[i].1);
        if key2 != k {
            let bi = if i < p { i } else { i - 1 };
            assert(before[bi] == after[i]);
            assert(map_of(before)[before[bi].0] == before[bi].1);
        } else {
            lemma_index_unique(after, i, p);
        }
    }
    assert(map_of(after) =~= map_of(before).insert(k, val));
}

/// Taking an entry out keeps the order and removes its name from the map.
proof fn lemma_remove<T>(before: Seq<(Seq<char>, T)>, p: int)
    requires
        sorted_keys(before),
        0 <= p < before.len(),
    ensures
        sorted_keys(before.remove(p)),
        map_of(before.remove(p)) == map_of(before).remove(before[p].0),
{
    let k = before[p].0;
    let after = before.remove(p);
    assert forall|i: int, j: int| 0 <= i < j < after.len() implies text_lt(
        (#[trigger] after[i]).0,
        (#[trigger] after[j]).0,
    ) by {
        let bi = if i < p { i } else { i + 1 };
        let bj = if j < p { j } else { j + 1 };
        assert(after[i] == before[bi]);
        assert(after[j] == before[bj]);
    }
    lemma_map_of(after);
    lemma_map_of(before);
    assert forall|key2: Seq<char>| map_of(after).dom().contains(key2) <==> (key2 != k && map_of(
        before,
    ).dom().contains(key2)) by {
        if map_of(after).dom().contains(key2) {
            let i = index_of(after, key2);
            let bi = if i < p { i } else { i + 1 };
            assert(before[bi] == after[i]);
            if key2 == k {
                lemma_index_unique(before, bi, p);
            }
        }
        if map_of(before).dom().contains(key2) && key2 != k {
            let bi = index_of(before, key2);
            let i = if bi < p { bi } else { bi - 1 };
            assert(after[i] == before[bi]);
        }
    }
    assert forall|key2: Seq<char>| #[trigger] map_of(after).dom().contains(key2) implies map_of(after)[key2]
        == map_of(before)[key2] by {
        let i = index_of(after, key2);
        let bi = if i < p { i } else { i + 1 };
        assert(before[bi] == after[i]);
        assert(map_of(before)[before[bi].0] == before[bi].1);
        assert(map_of(after)[after[i].0] == after[i].1);
    }
    assert(map_of(after) =~= map_of(before).remove(k));
}

} // verus!
