//! Verified collections keyed by strings.
//!
//! The registry's durable state is small maps from account or token
//! identifiers to records, so both the map and the set here are backed by a
//! vector of entries with pairwise-distinct keys. Their views are the
//! mathematical `Map` and `Set` over character sequences.

use vstd::prelude::*;

verus! {

/// The map described by an association sequence: later entries win.
pub open spec fn assoc_map<V>(s: Seq<(Seq<char>, V)>) -> Map<Seq<char>, V>
    decreases s.len(),
{
    if s.len() == 0 {
        Map::empty()
    } else {
        assoc_map(s.drop_last()).insert(s.last().0, s.last().1)
    }
}

/// Pairwise-distinct keys in an association sequence.
pub open spec fn nodup_keys<V>(s: Seq<(Seq<char>, V)>) -> bool {
    forall|i: int, j: int| 0 <= i < j < s.len() ==> s[i].0 != s[j].0
}

pub proof fn lemma_assoc_map_contains<V>(s: Seq<(Seq<char>, V)>, k: Seq<char>)
    ensures
        assoc_map(s).contains_key(k) <==> (exists|i: int| 0 <= i < s.len() && s[i].0 == k),
    decreases s.len(),
{
    if s.len() > 0 {
        lemma_assoc_map_contains(s.drop_last(), k);
        if exists|i: int| 0 <= i < s.drop_last().len() && s.drop_last()[i].0 == k {
            let i = choose|i: int| 0 <= i < s.drop_last().len() && s.drop_last()[i].0 == k;
            assert(s[i].0 == k);
        }
        if exists|i: int| 0 <= i < s.len() && s[i].0 == k {
            let i = choose|i: int| 0 <= i < s.len() && s[i].0 == k;
            if i < s.len() - 1 {
                assert(s.drop_last()[i].0 == k);
            }
        }
    }
}

pub proof fn lemma_assoc_map_get<V>(s: Seq<(Seq<char>, V)>, i: int)
    requires
        nodup_keys(s),
        0 <= i < s.len(),
    ensures
        assoc_map(s).contains_key(s[i].0),
        assoc_map(s)[s[i].0] == s[i].1,
    decreases s.len(),
{
    if i == s.len() - 1 {
    } else {
        lemma_assoc_map_get(s.drop_last(), i);
        assert(s.drop_last()[i] == s[i]);
        assert(s[i].0 != s.last().0);
    }
}

pub proof fn lemma_assoc_map_len<V>(s: Seq<(Seq<char>, V)>)
    requires
        nodup_keys(s),
    ensures
        assoc_map(s).dom().finite(),
        assoc_map(s).dom().len() == s.len(),
    decreases s.len(),
{
    if s.len() > 0 {
        lemma_assoc_map_len(s.drop_last());
        lemma_assoc_map_contains(s.drop_last(), s.last().0);
        assert(forall|i: int| 0 <= i < s.drop_last().len() ==> s.drop_last()[i] == s[i]);
        assert(!assoc_map(s.drop_last()).contains_key(s.last().0));
    }
}

pub proof fn lemma_assoc_map_remove_idx<V>(s: Seq<(Seq<char>, V)>, i: int)
    requires
        nodup_keys(s),
        0 <= i < s.len(),
    ensures
        nodup_keys(s.remove(i)),
        assoc_map(s.remove(i)) =~= assoc_map(s).remove(s[i].0),
    decreases s.len(),
{
    lemma_assoc_map_contains(s, s[i].0);
    if i == s.len() - 1 {
        assert(s.remove(i) =~= s.drop_last());
        lemma_assoc_map_contains(s.drop_last(), s.last().0);
        assert(!assoc_map(s.drop_last()).contains_key(s.last().0));
        assert(assoc_map(s.drop_last()) =~= assoc_map(s).remove(s.last().0));
    } else {
        let t = s.drop_last();
        lemma_assoc_map_remove_idx(t, i);
        assert(s.remove(i).drop_last() =~= t.remove(i));
        assert(s.remove(i).last() == s.last());
        assert(assoc_map(s.remove(i)) =~= assoc_map(t.remove(i)).insert(s.last().0, s.last().1));
        assert(s[i].0 != s.last().0);
        assert(assoc_map(t.remove(i)).insert(s.last().0, s.last().1) =~= assoc_map(
            t,
        ).remove(s[i].0).insert(s.last().0, s.last().1));
        assert(assoc_map(t).remove(s[i].0).insert(s.last().0, s.last().1) =~= assoc_map(t).insert(
            s.last().0,
            s.last().1,
        ).remove(s[i].0));
    }
}

/// A map from string identifiers to values, with distinct keys.
pub struct StringMap<V> {
    pairs: Vec<(String, V)>,
}

impl<V> View for StringMap<V> {
    type V = Map<Seq<char>, V>;

    closed spec fn view(&self) -> Map<Seq<char>, V> {
        assoc_map(self.spec_entries())
    }
}

impl<V> StringMap<V> {
    /// The entries in their storage order; keys are pairwise distinct.
    pub closed spec fn spec_entries(self) -> Seq<(Seq<char>, V)> {
        self.pairs@.map_values(|p: (String, V)| (p.0@, p.1))
    }

    /// The representation keeps one entry per key.
    pub closed spec fn wf(self) -> bool {
        nodup_keys(self.spec_entries())
    }

    pub proof fn lemma_view_entries(self)
        ensures
            self@ == assoc_map(self.spec_entries()),
            self.wf() <==> nodup_keys(self.spec_entries()),
    {
    }

    pub proof fn lemma_entry_in_map(self, i: int)
        requires
            self.wf(),
            0 <= i < self.spec_entries().len(),
        ensures
            self@.contains_key(self.spec_entries()[i].0),
            self@[self.spec_entries()[i].0] == self.spec_entries()[i].1,
    {
        lemma_assoc_map_get(self.spec_entries(), i);
    }

    pub proof fn lemma_contains_entry(self, k: Seq<char>)
        ensures
            self@.contains_key(k) <==> (exists|i: int|
                0 <= i < self.spec_entries().len() && self.spec_entries()[i].0 == k),
    {
        lemma_assoc_map_contains(self.spec_entries(), k);
    }

    pub fn new() -> (r: Self)
        ensures
            r@ == Map::<Seq<char>, V>::empty(),
            r.spec_entries() == Seq::<(Seq<char>, V)>::empty(),
            r.wf(),
    {
        let r = StringMap { pairs: Vec::new() };
        proof {
            assert(r.spec_entries() =~= Seq::<(Seq<char>, V)>::empty());
        }
        r
    }

    fn index_of(&self, key: &String) -> (r: Option<usize>)
        ensures
            match r {
                Some(i) => i < self.spec_entries().len() && self.spec_entries()[i as int].0
                    == key@,
                None => forall|i: int|
                    0 <= i < self.spec_entries().len() ==> self.spec_entries()[i].0 != key@,
            },
    {
        let mut i: usize = 0;
        while i < self.pairs.len()
            invariant
                i <= self.pairs.len(),
                self.spec_entries().len() == self.pairs@.len(),
                forall|j: int| 0 <= j < i ==> self.spec_entries()[j].0 != key@,
                forall|j: int|
                    0 <= j < self.pairs@.len() ==> (#[trigger] self.spec_entries()[j]) == (
                    self.pairs@[j].0@,
                    self.pairs@[j].1,
                ),
            decreases self.pairs.len() - i,
        {
            if self.pairs[i].0 == *key {
                return Some(i);
            }
            i = i + 1;
        }
        None
    }

    pub fn contains_key(&self, key: &String) -> (r: bool)
        ensures
            r == self@.contains_key(key@),
    {
        proof {
            lemma_assoc_map_contains(self.spec_entries(), key@);
        }
        self.index_of(key).is_some()
    }

    pub fn get(&self, key: &String) -> (r: Option<&V>)
        requires
            self.wf(),
        ensures
            match r {
                Some(v) => self@.contains_key(key@) && *v == self@[key@],
                None => !self@.contains_key(key@),
            },
    {
        proof {
            lemma_assoc_map_contains(self.spec_entries(), key@);
        }
        match self.index_of(key) {
            Some(i) => {
                proof {
                    lemma_assoc_map_get(self.spec_entries(), i as int);
                }
                Some(&self.pairs[i].1)
            },
            None => None,
        }
    }

    pub fn len(&self) -> (r: usize)
        requires
            self.wf(),
        ensures
            r == self@.dom().len(),
            r == self.spec_entries().len(),
    {
        proof {
            lemma_assoc_map_len(self.spec_entries());
        }
        self.pairs.len()
    }

    pub fn is_empty(&self) -> (r: bool)
        requires
            self.wf(),
        ensures
            r == (self@ =~= Map::<Seq<char>, V>::empty()),
    {
        proof {
            lemma_assoc_map_len(self.spec_entries());
            if self.spec_entries().len() > 0 {
                lemma_assoc_map_get(self.spec_entries(), 0);
            }
        }
        self.pairs.len() == 0
    }

    /// Inserts or overwrites; reports whether the key was new.
    pub fn insert(&mut self, key: String, value: V) -> (is_new: bool)
        requires
            old(self).wf(),
        ensures
            final(self).wf(),
            final(self)@ == old(self)@.insert(key@, value),
            is_new == !old(self)@.contains_key(key@),
            is_new ==> final(self).spec_entries() == old(self).spec_entries().push((key@, value)),
            final(self).spec_entries().len() <= old(self).spec_entries().len() + 1,
    {
        proof {
            lemma_assoc_map_contains(self.spec_entries(), key@);
        }
        let ghost s0 = self.spec_entries();
        match self.index_of(&key) {
            Some(i) => {
                proof {
                    lemma_assoc_map_remove_idx(s0, i as int);
                }
                self.pairs.remove(i);
                proof {
                    assert(self.spec_entries() =~= s0.remove(i as int));
                }
                let ghost s1 = self.spec_entries();
                self.pairs.push((key, value));
                proof {
                    assert(self.spec_entries() =~= s1.push((key@, value)));
                    assert(self.spec_entries().drop_last() =~= s1);
                    assert(self.spec_entries().last() == (key@, value));
                    assert(self@ == assoc_map(s1).insert(key@, value));
                    assert(s1 =~= s0.remove(i as int));
                    assert(assoc_map(s1) =~= assoc_map(s0).remove(key@));
                    lemma_assoc_map_contains(s1, key@);
                    assert forall|j: int, l: int|
                        0 <= j < l < self.spec_entries().len() implies self.spec_entries()[j].0
                        != self.spec_entries()[l].0 by {
                        if l < s1.len() {
                            assert(s1[j].0 != s1[l].0);
                        }
                    }
                    assert(self@ =~= old(self)@.insert(key@, value));
                }
                false
            },
            None => {
                self.pairs.push((key, value));
                proof {
                    assert(self.spec_entries() =~= s0.push((key@, value)));
                    assert(self.spec_entries().drop_last() =~= s0);
                    assert(self.spec_entries().last() == (key@, value));
                    assert(self@ == assoc_map(s0).insert(key@, value));
                    assert forall|j: int, l: int|
                        0 <= j < l < self.spec_entries().len() implies self.spec_entries()[j].0
                        != self.spec_entries()[l].0 by {
                        if l < s0.len() {
                            assert(s0[j].0 != s0[l].0);
                        }
                    }
                }
                true
            },
        }
    }

    /// Removes the entry if present and returns its value.
    pub fn remove(&mut self, key: &String) -> (r: Option<V>)
        requires
            old(self).wf(),
        ensures
            final(self).wf(),
            final(self)@ == old(self)@.remove(key@),
            r is Some <==> old(self)@.contains_key(key@),
            match r {
                Some(v) => old(self)@.contains_key(key@) && v == old(self)@[key@],
                None => !old(self)@.contains_key(key@),
            },
            r is None ==> *final(self) == *old(self),
    {
        proof {
            lemma_assoc_map_contains(self.spec_entries(), key@);
        }
        let ghost s0 = self.spec_entries();
        match self.index_of(key) {
            Some(i) => {
                proof {
                    lemma_assoc_map_remove_idx(s0, i as int);
                    lemma_assoc_map_get(s0, i as int);
                }
                let (_k, v) = self.pairs.remove(i);
                proof {
                    assert(self.spec_entries() =~= s0.remove(i as int));
                }
                Some(v)
            },
            None => {
                proof {
                    assert(self@ =~= old(self)@.remove(key@));
                }
                None
            },
        }
    }

    /// Drops every entry.
    pub fn clear(&mut self)
        ensures
            final(self).wf(),
            final(self)@ == Map::<Seq<char>, V>::empty(),
            final(self).spec_entries() == Seq::<(Seq<char>, V)>::empty(),
    {
        self.pairs = Vec::new();
        proof {
            assert(self.spec_entries() =~= Seq::<(Seq<char>, V)>::empty());
        }
    }

    /// Read-only access to the stored entries, for iteration.
    pub fn entries(&self) -> (r: &Vec<(String, V)>)
        ensures
            r@.len() == self.spec_entries().len(),
            forall|i: int|
                0 <= i < r@.len() ==> (#[trigger] self.spec_entries()[i]) == (
                r@[i].0@,
                r@[i].1,
            ),
    {
        &self.pairs
    }
}

/// A set of string identifiers, stored without duplicates.
pub struct StringSet {
    items: Vec<String>,
}

impl View for StringSet {
    type V = Set<Seq<char>>;

    closed spec fn view(&self) -> Set<Seq<char>> {
        self.spec_items().to_set()
    }
}

impl StringSet {
    /// The members in their storage order, pairwise distinct.
    pub closed spec fn spec_items(self) -> Seq<Seq<char>> {
        self.items@.map_values(|s: String| s@)
    }

    /// The representation keeps one copy of each member.
    pub closed spec fn wf(self) -> bool {
        self.spec_items().no_duplicates()
    }

    pub fn new() -> (r: Self)
        ensures
            r@ == Set::<Seq<char>>::empty(),
            r.wf(),
    {
        let r = StringSet { items: Vec::new() };
        proof {
            assert(r.spec_items() =~= Seq::<Seq<char>>::empty());
            assert(r@ =~= Set::<Seq<char>>::empty());
        }
        r
    }

    fn index_of(&self, key: &String) -> (r: Option<usize>)
        ensures
            match r {
                Some(i) => i < self.spec_items().len() && self.spec_items()[i as int] == key@,
                None => forall|i: int|
                    0 <= i < self.spec_items().len() ==> self.spec_items()[i] != key@,
            },
    {
        let mut i: usize = 0;
        while i < self.items.len()
            invariant
                i <= self.items.len(),
                self.spec_items().len() == self.items@.len(),
                forall|j: int| 0 <= j < i ==> self.spec_items()[j] != key@,
                forall|j: int|
                    0 <= j < self.items@.len() ==> (#[trigger] self.spec_items()[j])
                        == self.items@[j]@,
            decreases self.items.len() - i,
        {
            if self.items[i] == *key {
                return Some(i);
            }
            i = i + 1;
        }
        None
    }

    pub fn contains(&self, key: &String) -> (r: bool)
        ensures
            r == self@.contains(key@),
    {
        self.index_of(key).is_some()
    }

    pub fn len(&self) -> (r: usize)
        requires
            self.wf(),
        ensures
            r == self@.len(),
    {
        proof {
            self.spec_items().unique_seq_to_set();
        }
        self.items.len()
    }

    pub fn is_empty(&self) -> (r: bool)
        requires
            self.wf(),
        ensures
            r == (self@ =~= Set::<Seq<char>>::empty()),
    {
        proof {
            if self.spec_items().len() > 0 {
                assert(self@.contains(self.spec_items()[0]));
            } else {
                assert(self@ =~= Set::<Seq<char>>::empty());
            }
        }
        self.items.len() == 0
    }

    /// Adds the member; reports whether it was new.
    pub fn insert(&mut self, key: String) -> (is_new: bool)
        requires
            old(self).wf(),
        ensures
            final(self).wf(),
            final(self)@ == old(self)@.insert(key@),
            is_new == !old(self)@.contains(key@),
    {
        let ghost s0 = self.spec_items();
        match self.index_of(&key) {
            Some(_i) => {
                proof {
                    assert(self@ =~= old(self)@.insert(key@));
                }
                false
            },
            None => {
                self.items.push(key);
                proof {
                    assert(self.spec_items() =~= s0.push(key@));
                    assert forall|x: Seq<char>| self.spec_items().contains(x) implies (
                    s0.contains(x) || x == key@) by {
                        let i = choose|i: int|
                            0 <= i < self.spec_items().len() && self.spec_items()[i] == x;
                        if i < s0.len() {
                            assert(s0[i] == x);
                        }
                    }
                    assert forall|x: Seq<char>| s0.contains(x) implies self.spec_items().contains(
                        x,
                    ) by {
                        let i = choose|i: int| 0 <= i < s0.len() && s0[i] == x;
                        assert(self.spec_items()[i] == x);
                    }
                    assert(self.spec_items().contains(key@)) by {
                        assert(self.spec_items()[s0.len() as int] == key@);
                    }
                    assert(self@ =~= old(self)@.insert(key@));
                }
                true
            },
        }
    }

    /// Drops the member if present; reports whether it was there.
    pub fn remove(&mut self, key: &String) -> (removed: bool)
        requires
            old(self).wf(),
        ensures
            final(self).wf(),
            final(self)@ == old(self)@.remove(key@),
            removed == old(self)@.contains(key@),
    {
        let ghost s0 = self.spec_items();
        match self.index_of(key) {
            Some(i) => {
                self.items.remove(i);
                proof {
                    assert(self.spec_items() =~= s0.remove(i as int));
                    let s1 = self.spec_items();
                    assert forall|j: int, l: int| 0 <= j < l < s1.len() implies s1[j] != s1[l] by {
                        if l < i {
                            assert(s0[j] != s0[l]);
                        } else if j < i {
                            assert(s0[j] != s0[l + 1]);
                        } else {
                            assert(s0[j + 1] != s0[l + 1]);
                        }
                    }
                    assert forall|x: Seq<char>| s1.contains(x) implies (s0.contains(x) && x
                        != key@) by {
                        let j = choose|j: int| 0 <= j < s1.len() && s1[j] == x;
                        if j < i {
                            assert(s0[j] == x);
                            assert(s0[i as int] == key@);
                        } else {
                            assert(s0[j + 1] == x);
                            assert(s0[i as int] == key@);
                        }
                    }
                    assert forall|x: Seq<char>| s0.contains(x) && x != key@ implies s1.contains(
                        x,
                    ) by {
                        let j = choose|j: int| 0 <= j < s0.len() && s0[j] == x;
                        if j < i {
                            assert(s1[j] == x);
                        } else {
                            assert(j != i);
                            assert(s1[j - 1] == x);
                        }
                    }
                    assert(s0.contains(key@)) by {
                        assert(s0[i as int] == key@);
                    }
                    assert(self@ =~= old(self)@.remove(key@));
                }
                true
            },
            None => {
                proof {
                    assert(self@ =~= old(self)@.remove(key@));
                }
                false
            },
        }
    }

    /// The members as a fresh vector.
    pub fn to_vec(&self) -> (r: Vec<String>)
        ensures
            r@.map_values(|s: String| s@) == self.spec_items(),
    {
        let mut out: Vec<String> = Vec::new();
        let mut i: usize = 0;
        let n = self.items.len();
        while i < n
            invariant
                i <= n,
                n == self.items@.len(),
                out@.len() == i,
                forall|j: int| 0 <= j < i ==> (#[trigger] out@[j])@ == self.items@[j]@,
            decreases n - i,
        {
            out.push(self.items[i].clone());
            i = i + 1;
        }
        proof {
            assert(out@.map_values(|s: String| s@) =~= self.spec_items());
        }
        out
    }
}

impl<V: Copy> StringMap<V> {
    /// A copy of the map, for value types that copy.
    pub fn duplicate(&self) -> (r: Self)
        requires
            self.wf(),
        ensures
            r.wf(),
            r@ == self@,
            r.spec_entries() == self.spec_entries(),
    {
        let mut pairs: Vec<(String, V)> = Vec::new();
        let mut i: usize = 0;
        let n = self.pairs.len();
        while i < n
            invariant
                i <= n,
                n == self.spec_entries().len(),
                n == self.pairs@.len(),
                pairs@.len() == i,
                forall|j: int|
                    0 <= j < self.pairs@.len() ==> (#[trigger] self.spec_entries()[j]) == (
                    self.pairs@[j].0@,
                    self.pairs@[j].1,
                ),
                forall|j: int|
                    0 <= j < i ==> (#[trigger] pairs@[j].0@, pairs@[j].1)
                        == self.spec_entries()[j],
            decreases n - i,
        {
            let k = self.pairs[i].0.clone();
            let v = self.pairs[i].1;
            pairs.push((k, v));
            i = i + 1;
        }
        let r = StringMap { pairs };
        proof {
            assert(r.spec_entries() =~= self.spec_entries());
        }
        r
    }
}

} // verus!
