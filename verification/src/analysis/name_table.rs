use vstd::prelude::*;

verus! {

/// The position of the entry with key `k`, or -1 when there is none.
pub open spec fn index_of<V>(s: Seq<(String, V)>, k: Seq<char>) -> int
    decreases s.len(),
{
    if s.len() == 0 {
        -1
    } else if s.last().0@ == k {
        s.len() - 1
    } else {
        index_of(s.drop_last(), k)
    }
}

/// No two entries have the same key.
pub open spec fn unique_keys<V>(s: Seq<(String, V)>) -> bool {
    forall|i: int, j: int| 0 <= i < j < s.len() ==> #[trigger] s[i].0@ != #[trigger] s[j].0@
}

/// The map that a list of entries stands for.
pub open spec fn map_of<V>(s: Seq<(String, V)>) -> Map<Seq<char>, V> {
    Map::new(|k: Seq<char>| index_of(s, k) >= 0, |k: Seq<char>| s[index_of(s, k)].1)
}

/// The position of a key is -1 or that of an entry with that key.
pub proof fn lemma_index_of_range<V>(s: Seq<(String, V)>, k: Seq<char>)
    ensures
        -1 <= index_of(s, k) < s.len(),
        index_of(s, k) >= 0 ==> s[index_of(s, k)].0@ == k,
    decreases s.len(),
{
    if s.len() > 0 && s.last().0@ != k {
        lemma_index_of_range(s.drop_last(), k);
    }
}

/// With keys that occur once, the position of a key is that of its entry.
pub proof fn lemma_index_of_found<V>(s: Seq<(String, V)>, k: Seq<char>, i: int)
    requires
        unique_keys(s),
        0 <= i < s.len(),
        s[i].0@ == k,
    ensures
        index_of(s, k) == i,
    decreases s.len(),
{
    if i != s.len() - 1 {
        assert(s[i].0@ != s[s.len() - 1].0@);
        let t = s.drop_last();
        assert(t[i] == s[i]);
        assert(unique_keys(t)) by {
            assert forall|a: int, b: int| 0 <= a < b < t.len() implies #[trigger] t[a].0@
                != #[trigger] t[b].0@ by {
                assert(t[a] == s[a] && t[b] == s[b]);
            }
        }
        lemma_index_of_found(t, k, i);
    }
}

/// A key that no entry has has no position.
pub proof fn lemma_index_of_absent<V>(s: Seq<(String, V)>, k: Seq<char>)
    requires
        forall|i: int| 0 <= i < s.len() ==> #[trigger] s[i].0@ != k,
    ensures
        index_of(s, k) == -1,
    decreases s.len(),
{
    if s.len() > 0 {
        let t = s.drop_last();
        assert forall|i: int| 0 <= i < t.len() implies #[trigger] t[i].0@ != k by {
            assert(t[i] == s[i]);
        }
        lemma_index_of_absent(t, k);
    }
}

/// A map from names to values, kept as a list of entries in the order they
/// were added.
#[derive(Debug)]
pub struct NameTable<V> {
    entries: Vec<(String, V)>,
}

impl<V> View for NameTable<V> {
    type V = Map<Seq<char>, V>;

    closed spec fn view(&self) -> Map<Seq<char>, V> {
        map_of(self.entries@)
    }
}

impl<V> NameTable<V> {
    #[verifier::type_invariant]
    closed spec fn keys_unique(self) -> bool {
        unique_keys(self.entries@)
    }

    /// The names in the order they were first added.
    pub closed spec fn names(self) -> Seq<Seq<char>> {
        self.entries@.map_values(|e: (String, V)| e.0@)
    }

    pub fn new() -> (r: Self)
        ensures
            r@ == Map::<Seq<char>, V>::empty(),
            r.names().len() == 0,
    {
        let r = NameTable { entries: Vec::new() };
        assert(r@ =~= Map::<Seq<char>, V>::empty());
        r
    }

    /// The number of names.
    pub fn len(&self) -> (r: usize)
        ensures
            r == self.names().len(),
            r == self@.dom().len(),
            self@.dom() == self.names().to_set(),
    {
        proof {
            use_type_invariant(self);
            self.lemma_len();
            self.lemma_dom_is_names();
        }
        self.entries.len()
    }

    proof fn lemma_len(&self)
        requires
            unique_keys(self.entries@),
        ensures
            self@.dom().len() == self.entries@.len(),
            self@.dom().finite(),
        decreases self.entries@.len(),
    {
        let s = self.entries@;
        assert(self.names().len() == s.len());
        self.lemma_dom_is_names();
        let names = self.names();
        assert(names.no_duplicates()) by {
            assert forall|i: int, j: int|
                0 <= i < names.len() && 0 <= j < names.len() && i != j implies names[i]
                != names[j] by {
                if i < j {
                    assert(s[i].0@ != s[j].0@);
                } else {
                    assert(s[j].0@ != s[i].0@);
                }
            }
        }
        names.unique_seq_to_set();
    }

    proof fn lemma_dom_is_names(&self)
        ensures
            self@.dom() == self.names().to_set(),
    {
        let s = self.entries@;
        assert forall|k: Seq<char>| self@.dom().contains(k) <==> self.names().to_set().contains(
            k,
        ) by {
            lemma_index_of_range(s, k);
            if self.names().contains(k) {
                let i = choose|i: int| 0 <= i < self.names().len() && self.names()[i] == k;
                assert(s[i].0@ == k);
                if index_of(s, k) < 0 {
                    lemma_index_of_absent_contra(s, k, i);
                }
            }
            if index_of(s, k) >= 0 {
                assert(self.names()[index_of(s, k)] == k);
            }
        }
        assert(self@.dom() =~= self.names().to_set());
    }

    /// The position of the entry named `k`.
    fn find(&self, k: &String) -> (r: Option<usize>)
        ensures
            r matches Some(i) ==> i < self.entries@.len() && self.entries@[i as int].0@ == k@
                && index_of(self.entries@, k@) == i,
            r is None ==> index_of(self.entries@, k@) == -1 && !self@.contains_key(k@),
    {
        proof {
            use_type_invariant(self);
        }
        let mut i: usize = 0;
        while i < self.entries.len()
            invariant
                i <= self.entries@.len(),
                unique_keys(self.entries@),
                forall|j: int| 0 <= j < i ==> #[trigger] self.entries@[j].0@ != k@,
            decreases self.entries@.len() - i,
        {
            if self.entries[i].0 == *k {
                proof {
                    lemma_index_of_found(self.entries@, k@, i as int);
                }
                return Some(i);
            }
            i += 1;
        }
        proof {
            lemma_index_of_absent(self.entries@, k@);
        }
        None
    }

    pub fn contains_key(&self, k: &String) -> (r: bool)
        ensures
            r == self@.contains_key(k@),
    {
        self.find(k).is_some()
    }

    pub fn get(&self, k: &String) -> (r: Option<&V>)
        ensures
            r matches Some(v) ==> self@.contains_key(k@) && *v == self@[k@],
            r is None ==> !self@.contains_key(k@),
    {
        match self.find(k) {
            Some(i) => Some(&self.entries[i].1),
            None => None,
        }
    }

    /// Adds or replaces the entry named `k`; gives the value it replaced.
    pub fn insert(&mut self, k: String, v: V) -> (r: Option<V>)
        ensures
            final(self)@ == old(self)@.insert(k@, v),
            old(self)@.contains_key(k@) ==> r == Some(old(self)@[k@]),
            !old(self)@.contains_key(k@) ==> r is None,
    {
        proof {
            use_type_invariant(&*self);
        }
        let ghost old_s = self.entries@;
        match self.find(&k) {
            Some(i) => {
                let ghost kv = k@;
                let mut entries: Vec<(String, V)> = Vec::new();
                std::mem::swap(&mut entries, &mut self.entries);
                let (_, old_v) = entries.remove(i);
                entries.insert(i, (k, v));
                proof {
                    let s = entries@;
                    assert(s =~= old_s.update(i as int, s[i as int]));
                    assert forall|k2: Seq<char>| #[trigger] index_of(s, k2) == index_of(old_s, k2) by {
                        lemma_index_of_range(old_s, k2);
                        if index_of(old_s, k2) >= 0 {
                            let j = index_of(old_s, k2);
                            assert(s[j].0@ == k2);
                            lemma_index_of_found(s, k2, j);
                        } else {
                            assert forall|j: int| 0 <= j < s.len() implies #[trigger] s[j].0@
                                != k2 by {
                                if s[j].0@ == k2 {
                                    assert(old_s[j].0@ == k2);
                                    lemma_index_of_found(old_s, k2, j);
                                }
                            }
                            lemma_index_of_absent(s, k2);
                        }
                    }
                    assert(unique_keys(s)) by {
                        assert forall|a: int, b: int| 0 <= a < b < s.len() implies #[trigger] s[a].0@
                            != #[trigger] s[b].0@ by {
                            assert(s[a].0@ == old_s[a].0@ && s[b].0@ == old_s[b].0@);
                        }
                    }
                    assert forall|k2: Seq<char>| #[trigger] map_of(s).contains_key(k2)
                        == map_of(old_s).insert(kv, v).contains_key(k2) by {
                        assert(index_of(s, k2) == index_of(old_s, k2));
                    }
                    assert forall|k2: Seq<char>| #[trigger] map_of(s).contains_key(k2)
                        implies map_of(s)[k2] == map_of(old_s).insert(kv, v)[k2] by {
                        assert(index_of(s, k2) == index_of(old_s, k2));
                        lemma_index_of_range(s, k2);
                        if k2 != kv {
                            assert(index_of(s, k2) != i);
                        }
                    }
                    assert(map_of(s) =~= map_of(old_s).insert(kv, v));
                }
                self.entries = entries;
                Some(old_v)
            },
            None => {
                let ghost kv = k@;
                let mut entries: Vec<(String, V)> = Vec::new();
                std::mem::swap(&mut entries, &mut self.entries);
                entries.push((k, v));
                proof {
                    let s = entries@;
                    assert(s.drop_last() =~= old_s);
                    assert forall|j: int| 0 <= j < old_s.len() implies #[trigger] old_s[j].0@
                        != kv by {
                        if old_s[j].0@ == kv {
                            lemma_index_of_absent_contra(old_s, kv, j);
                        }
                    }
                    assert(unique_keys(s)) by {
                        assert forall|a: int, b: int| 0 <= a < b < s.len() implies #[trigger] s[a].0@
                            != #[trigger] s[b].0@ by {
                            if b < old_s.len() {
                                assert(s[a] == old_s[a] && s[b] == old_s[b]);
                            } else {
                                assert(s[a] == old_s[a]);
                            }
                        }
                    }
                    assert forall|k2: Seq<char>| #[trigger] index_of(s, k2) == if k2 == kv {
                        old_s.len() as int
                    } else {
                        index_of(old_s, k2)
                    } by {}
                    assert forall|k2: Seq<char>| #[trigger] map_of(s).contains_key(k2)
                        implies map_of(s)[k2] == map_of(old_s).insert(kv, v)[k2] by {
                        lemma_index_of_range(old_s, k2);
                        if k2 != kv {
                            assert(s[index_of(old_s, k2)] == old_s[index_of(old_s, k2)]);
                        }
                    }
                    assert(map_of(s) =~= map_of(old_s).insert(kv, v));
                }
                self.entries = entries;
                None
            },
        }
    }

    /// Removes the entry named `k`; gives its value.
    pub fn remove(&mut self, k: &String) -> (r: Option<V>)
        ensures
            final(self)@ == old(self)@.remove(k@),
            old(self)@.contains_key(k@) ==> r == Some(old(self)@[k@]),
            !old(self)@.contains_key(k@) ==> r is None,
    {
        proof {
            use_type_invariant(&*self);
        }
        let ghost old_s = self.entries@;
        match self.find(k) {
            Some(i) => {
                let mut entries: Vec<(String, V)> = Vec::new();
                std::mem::swap(&mut entries, &mut self.entries);
                let (_, v) = entries.remove(i);
                proof {
                    let s = entries@;
                    assert(unique_keys(s)) by {
                        assert forall|a: int, b: int| 0 <= a < b < s.len() implies #[trigger] s[a].0@
                            != #[trigger] s[b].0@ by {
                            let oa = if a < i { a } else { a + 1 };
                            let ob = if b < i { b } else { b + 1 };
                            assert(s[a] == old_s[oa] && s[b] == old_s[ob]);
                        }
                    }
                    assert forall|k2: Seq<char>| #![trigger map_of(s).contains_key(k2)]
                        map_of(s).contains_key(k2) == (k2 != k@ && map_of(old_s).contains_key(
                        k2,
                    )) && (map_of(s).contains_key(k2) ==> map_of(s)[k2] == map_of(old_s)[k2]) by {
                        lemma_index_of_range(old_s, k2);
                        lemma_index_of_range(s, k2);
                        if index_of(s, k2) >= 0 {
                            let j = index_of(s, k2);
                            let oj = if j < i {
                                j
                            } else {
                                j + 1
                            };
                            assert(old_s[oj] == s[j]);
                            lemma_index_of_found(old_s, k2, oj);
                            assert(k2 != k@) by {
                                if k2 == k@ {
                                    assert(oj != i);
                                }
                            }
                        } else {
                            if k2 != k@ && index_of(old_s, k2) >= 0 {
                                let oj = index_of(old_s, k2);
                                assert(oj != i);
                                let j = if oj < i {
                                    oj
                                } else {
                                    oj - 1
                                };
                                assert(s[j] == old_s[oj]);
                                lemma_index_of_found(s, k2, j);
                            }
                        }
                    }
                    assert(map_of(s) =~= map_of(old_s).remove(k@));
                }
                self.entries = entries;
                Some(v)
            },
            None => {
                assert(self@ =~= old(self)@.remove(k@));
                None
            },
        }
    }

    /// The entry at position `i`, in the order the names were first added.
    pub fn entry_at(&self, i: usize) -> (r: (&String, &V))
        requires
            i < self.names().len(),
        ensures
            r.0@ == self.names()[i as int],
            self@.contains_key(r.0@),
            *r.1 == self@[r.0@],
            forall|j: int| 0 <= j < self.names().len() && j != i ==> self.names()[j] != r.0@,
    {
        proof {
            use_type_invariant(self);
            lemma_index_of_found(self.entries@, self.entries@[i as int].0@, i as int);
            let s = self.entries@;
            assert forall|j: int| 0 <= j < self.names().len() && j != i implies self.names()[j]
                != s[i as int].0@ by {
                if j < i {
                    assert(s[j].0@ != s[i as int].0@);
                } else {
                    assert(s[i as int].0@ != s[j].0@);
                }
            }
        }
        let e = &self.entries[i];
        (&e.0, &e.1)
    }
}

proof fn lemma_index_of_absent_contra<V>(s: Seq<(String, V)>, k: Seq<char>, i: int)
    requires
        0 <= i < s.len(),
        s[i].0@ == k,
    ensures
        index_of(s, k) >= 0,
    decreases s.len(),
{
    if s.last().0@ != k {
        if i == s.len() - 1 {
        } else {
            let t = s.drop_last();
            assert(t[i] == s[i]);
            lemma_index_of_absent_contra(t, k, i);
        }
    }
}

} // verus!
