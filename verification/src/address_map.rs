//! A map keyed by account address, kept as a list of entries with distinct keys.

use vstd::prelude::*;
use crate::address::Address;

verus! {

/// The map obtained from `m` by inserting the pairs of `s` from first to last,
/// so that a later pair replaces an earlier one with the same key.
pub open spec fn insert_all<V>(m: Map<Address, V>, s: Seq<(Address, V)>) -> Map<Address, V>
    decreases s.len(),
{
    if s.len() == 0 {
        m
    } else {
        insert_all(m, s.drop_last()).insert(s.last().0, s.last().1)
    }
}

/// The map that a list of pairs stands for.
pub open spec fn pairs_to_map<V>(s: Seq<(Address, V)>) -> Map<Address, V> {
    insert_all(Map::empty(), s)
}

/// No key occurs in two places of the list.
pub open spec fn keys_distinct<V>(s: Seq<(Address, V)>) -> bool {
    forall|i: int, j: int| 0 <= i < j < s.len() ==> (#[trigger] s[i]).0 != (#[trigger] s[j]).0
}

/// The list holds exactly the pairs of the map, each key once.
pub open spec fn encodes<V>(s: Seq<(Address, V)>, m: Map<Address, V>) -> bool {
    &&& keys_distinct(s)
    &&& forall|i: int| 0 <= i < s.len() ==> m.contains_pair((#[trigger] s[i]).0, s[i].1)
    &&& forall|k: Address| m.dom().contains(k) ==> exists|i: int| 0 <= i < s.len() && (#[trigger] s[i]).0 == k
}

/// What `insert_all` holds: a key of the list maps to the value of its last
/// occurrence, every other key is as in `m`.
pub proof fn lemma_insert_all<V>(m: Map<Address, V>, s: Seq<(Address, V)>)
    ensures
        forall|k: Address| #[trigger] insert_all(m, s).dom().contains(k) <==> (m.dom().contains(k) || exists|i: int| 0 <= i < s.len() && (#[trigger] s[i]).0 == k),
        forall|k: Address| (forall|i: int| 0 <= i < s.len() ==> (#[trigger] s[i]).0 != k) ==> #[trigger] insert_all(m, s)[k] == m[k],
        forall|i: int| 0 <= i < s.len() && (forall|j: int| i < j < s.len() ==> (#[trigger] s[j]).0 != s[i].0) ==> insert_all(m, s)[(#[trigger] s[i]).0] == s[i].1,
    decreases s.len(),
{
    if s.len() > 0 {
        let t = s.drop_last();
        lemma_insert_all(m, t);
        assert forall|k: Address| #[trigger] insert_all(m, s).dom().contains(k) implies (m.dom().contains(k) || exists|i: int| 0 <= i < s.len() && (#[trigger] s[i]).0 == k) by {
            if k == s.last().0 {
                assert(s[s.len() - 1].0 == k);
            } else if !m.dom().contains(k) {
                assert(insert_all(m, t).dom().contains(k));
                let i = choose|i: int| 0 <= i < t.len() && (#[trigger] t[i]).0 == k;
                assert(s[i].0 == k);
            }
        }
        assert forall|k: Address| (m.dom().contains(k) || exists|i: int| 0 <= i < s.len() && (#[trigger] s[i]).0 == k) implies #[trigger] insert_all(m, s).dom().contains(k) by {
            if k != s.last().0 && !m.dom().contains(k) {
                let i = choose|i: int| 0 <= i < s.len() && (#[trigger] s[i]).0 == k;
                assert(t[i].0 == k);
                assert(insert_all(m, t).dom().contains(k));
            } else if k != s.last().0 {
                assert(insert_all(m, t).dom().contains(k));
            }
        }
        assert forall|k: Address| (forall|i: int| 0 <= i < s.len() ==> (#[trigger] s[i]).0 != k) implies #[trigger] insert_all(m, s)[k] == m[k] by {
            assert(s[s.len() - 1].0 != k);
            assert forall|i: int| 0 <= i < t.len() implies (#[trigger] t[i]).0 != k by {
                assert(s[i].0 != k);
            }
            assert(insert_all(m, t)[k] == m[k]);
        }
        assert forall|i: int| 0 <= i < s.len() && (forall|j: int| i < j < s.len() ==> (#[trigger] s[j]).0 != s[i].0) implies insert_all(m, s)[(#[trigger] s[i]).0] == s[i].1 by {
            if i < s.len() - 1 {
                assert(s[s.len() - 1].0 != s[i].0);
                assert forall|j: int| i < j < t.len() implies (#[trigger] t[j]).0 != t[i].0 by {
                    assert(s[j].0 != s[i].0);
                }
                assert(t[i] == s[i]);
            }
        }
    }
}

/// A list with distinct keys holds exactly the pairs of the map it stands for:
/// writing a map out as a list and reading the list back loses nothing.
pub proof fn lemma_pairs_round_trip<V>(s: Seq<(Address, V)>)
    requires
        keys_distinct(s),
    ensures
        encodes(s, pairs_to_map(s)),
        forall|k: Address, v: V| s.contains((k, v)) <==> pairs_to_map(s).contains_pair(k, v),
{
    lemma_insert_all(Map::<Address, V>::empty(), s);
    let m = pairs_to_map(s);
    assert forall|k: Address, v: V| s.contains((k, v)) implies m.contains_pair(k, v) by {
        let i = choose|i: int| 0 <= i < s.len() && s[i] == (k, v);
        assert(s[i].0 == k);
    }
    assert forall|k: Address, v: V| m.contains_pair(k, v) implies s.contains((k, v)) by {
        let i = choose|i: int| 0 <= i < s.len() && (#[trigger] s[i]).0 == k;
        assert(s[i] == (k, v));
    }
}

/// A map has one reading only: the list that encodes it stands for it.
pub proof fn lemma_encoding_decodes<V>(s: Seq<(Address, V)>, m: Map<Address, V>)
    requires
        encodes(s, m),
    ensures
        pairs_to_map(s) == m,
{
    lemma_insert_all(Map::<Address, V>::empty(), s);
    assert(pairs_to_map(s) =~= m);
}

/// A finite map from account addresses to values.
pub struct AddressMap<V> {
    entries: Vec<(Address, V)>,
}

impl<V> AddressMap<V> {
    #[verifier::type_invariant]
    spec fn well_formed(self) -> bool {
        keys_distinct(self.entries@)
    }

    /// The map that this value holds.
    pub closed spec fn view(&self) -> Map<Address, V> {
        pairs_to_map(self.entries@)
    }

    /// The empty map.
    pub fn new() -> (r: Self)
        ensures
            r@ == Map::<Address, V>::empty(),
    {
        AddressMap { entries: Vec::new() }
    }

    fn position(&self, key: &Address) -> (r: Option<usize>)
        ensures
            match r {
                Some(i) => i < self.entries@.len() && self.entries@[i as int].0 == *key,
                None => forall|i: int| 0 <= i < self.entries@.len() ==> (#[trigger] self.entries@[i]).0 != *key,
            },
    {
        let mut i: usize = 0;
        while i < self.entries.len()
            invariant
                i <= self.entries@.len(),
                forall|j: int| 0 <= j < i ==> (#[trigger] self.entries@[j]).0 != *key,
            decreases self.entries@.len() - i,
        {
            if self.entries[i].0.same(key) {
                return Some(i);
            }
            i += 1;
        }
        None
    }

    /// Whether the map has an entry for `key`.
    pub fn contains_key(&self, key: &Address) -> (r: bool)
        ensures
            r == self@.dom().contains(*key),
    {
        proof {
            use_type_invariant(&*self);
            lemma_insert_all(Map::<Address, V>::empty(), self.entries@);
        }
        self.position(key).is_some()
    }

    /// The value stored for `key`, if there is one.
    pub fn get(&self, key: &Address) -> (r: Option<&V>)
        ensures
            r == (if self@.dom().contains(*key) {
                Some(&self@[*key])
            } else {
                None
            }),
    {
        proof {
            use_type_invariant(&*self);
            lemma_insert_all(Map::<Address, V>::empty(), self.entries@);
        }
        match self.position(key) {
            Some(i) => Some(&self.entries[i].1),
            None => None,
        }
    }

    /// Stores `value` for `key`, in place of what was stored for it before.
    pub fn insert(&mut self, key: Address, value: V)
        ensures
            final(self)@ == old(self)@.insert(key, value),
    {
        proof {
            use_type_invariant(&*self);
        }
        let found = self.position(&key);
        let mut entries: Vec<(Address, V)> = Vec::new();
        std::mem::swap(&mut entries, &mut self.entries);
        let ghost before = entries@;
        match found {
            Some(i) => {
                entries.set(i, (key, value));
            },
            None => {
                entries.push((key, value));
            },
        }
        proof {
            lemma_insert_all(Map::<Address, V>::empty(), before);
            lemma_insert_all(Map::<Address, V>::empty(), entries@);
            let now = entries@;
            assert(keys_distinct(now));
            match found {
                Some(i) => {
                    let m0 = pairs_to_map(before);
                    let m1 = pairs_to_map(now);
                    assert(now[i as int].0 == key);
                    assert(m1.dom().contains(key) && m1[key] == value);
                    assert forall|k: Address| k != key implies (m1.dom().contains(k) <==> m0.dom().contains(k)) by {
                        if m0.dom().contains(k) {
                            let j = choose|j: int| 0 <= j < before.len() && (#[trigger] before[j]).0 == k;
                            assert(now[j].0 == k);
                        }
                        if m1.dom().contains(k) {
                            let j = choose|j: int| 0 <= j < now.len() && (#[trigger] now[j]).0 == k;
                            assert(before[j].0 == k);
                        }
                    }
                    assert forall|k: Address| k != key && m0.dom().contains(k) implies m1[k] == m0[k] by {
                        let j = choose|j: int| 0 <= j < before.len() && (#[trigger] before[j]).0 == k;
                        assert(now[j] == before[j]);
                        assert(m0[before[j].0] == before[j].1);
                        assert(m1[now[j].0] == now[j].1);
                    }
                    assert(m1 =~= m0.insert(key, value));
                },
                None => {
                    assert(now.drop_last() =~= before);
                },
            }
        }
        self.entries = entries;
    }

    /// The entries of the map, each key once.
    pub fn entries(&self) -> (r: &Vec<(Address, V)>)
        ensures
            encodes(r@, self@),
    {
        proof {
            use_type_invariant(&*self);
            lemma_pairs_round_trip(self.entries@);
        }
        &self.entries
    }
}

impl AddressMap<Address> {
    /// Stores every pair of the list, from first to last.
    pub fn extend(&mut self, pairs: &Vec<(Address, Address)>)
        ensures
            final(self)@ == insert_all(old(self)@, pairs@),
    {
        let mut i: usize = 0;
        while i < pairs.len()
            invariant
                i <= pairs@.len(),
                self@ == insert_all(old(self)@, pairs@.take(i as int)),
            decreases pairs@.len() - i,
        {
            let pair = pairs[i];
            self.insert(pair.0, pair.1);
            proof {
                assert(pairs@.take(i + 1).drop_last() =~= pairs@.take(i as int));
            }
            i += 1;
        }
        proof {
            assert(pairs@.take(pairs@.len() as int) =~= pairs@);
        }
    }

    /// The map that the list stands for: a later pair replaces an earlier
    /// one with the same key.
    pub fn from_pairs(pairs: &Vec<(Address, Address)>) -> (r: Self)
        ensures
            r@ == pairs_to_map(pairs@),
    {
        let mut r = AddressMap::new();
        r.extend(pairs);
        r
    }

    /// The pairs of the map as a list, each key once.
    pub fn to_pairs(&self) -> (r: Vec<(Address, Address)>)
        ensures
            encodes(r@, self@),
    {
        let entries = self.entries();
        let mut r: Vec<(Address, Address)> = Vec::new();
        let mut i: usize = 0;
        while i < entries.len()
            invariant
                i <= entries@.len(),
                r@ == entries@.take(i as int),
            decreases entries@.len() - i,
        {
            r.push(entries[i]);
            proof {
                assert(r@ =~= entries@.take(i + 1));
            }
            i += 1;
        }
        proof {
            assert(entries@.take(entries@.len() as int) =~= entries@);
        }
        r
    }
}

} // verus!
