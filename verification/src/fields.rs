//! Header fields by name, as a map from names to values.

use vstd::prelude::*;

verus! {

/// The names and values of byte-string pairs.
pub open spec fn pairs_of(v: Seq<(Vec<u8>, Vec<u8>)>) -> Seq<(Seq<u8>, Seq<u8>)> {
    Seq::new(v.len(), |i: int| (v[i].0@, v[i].1@))
}

/// The map that inserting `pairs` one after another into `m` gives: a later
/// pair with the same name replaces an earlier one.
pub open spec fn insert_all<K, V>(m: Map<K, V>, pairs: Seq<(K, V)>) -> Map<K, V>
    decreases pairs.len(),
{
    if pairs.len() == 0 {
        m
    } else {
        insert_all(m, pairs.drop_last()).insert(pairs.last().0, pairs.last().1)
    }
}

/// The map of `pairs`, read in order.
pub open spec fn fields_map<K, V>(pairs: Seq<(K, V)>) -> Map<K, V> {
    insert_all(Map::empty(), pairs)
}

/// Inserting pairs into `m` is `m` overridden by the map of the pairs.
pub proof fn lemma_insert_all_union<K, V>(m: Map<K, V>, pairs: Seq<(K, V)>)
    ensures
        insert_all(m, pairs) == m.union_prefer_right(fields_map(pairs)),
    decreases pairs.len(),
{
    if pairs.len() == 0 {
        assert(m.union_prefer_right(Map::empty()) =~= m);
    } else {
        lemma_insert_all_union(m, pairs.drop_last());
        lemma_insert_all_union(Map::empty(), pairs.drop_last());
        assert(Map::<K, V>::empty().union_prefer_right(fields_map(pairs.drop_last()))
            =~= fields_map(pairs.drop_last()));
        assert(insert_all(m, pairs) =~= m.union_prefer_right(fields_map(pairs)));
    }
}

/// Whether the names of `pairs` are pairwise distinct.
pub open spec fn distinct_names<K, V>(pairs: Seq<(K, V)>) -> bool {
    forall|i: int, j: int| 0 <= i < j < pairs.len() ==> pairs[i].0 != pairs[j].0
}

/// With distinct names, the map holds exactly the listed names, each with its value.
proof fn lemma_distinct_lookup<K, V>(pairs: Seq<(K, V)>, i: int)
    requires
        distinct_names(pairs),
        0 <= i < pairs.len(),
    ensures
        fields_map(pairs).contains_key(pairs[i].0),
        fields_map(pairs)[pairs[i].0] == pairs[i].1,
    decreases pairs.len(),
{
    if i < pairs.len() - 1 {
        lemma_distinct_lookup(pairs.drop_last(), i);
    }
}

/// A name that no pair holds is not in the map.
proof fn lemma_absent<K, V>(pairs: Seq<(K, V)>, k: K)
    requires
        forall|i: int| 0 <= i < pairs.len() ==> pairs[i].0 != k,
    ensures
        !fields_map(pairs).contains_key(k),
    decreases pairs.len(),
{
    if pairs.len() > 0 {
        lemma_absent(pairs.drop_last(), k);
    }
}

/// With distinct names, replacing the value of pair `i` replaces it in the map.
proof fn lemma_update<K, V>(pairs: Seq<(K, V)>, i: int, v: V)
    requires
        distinct_names(pairs),
        0 <= i < pairs.len(),
    ensures
        fields_map(pairs.update(i, (pairs[i].0, v))) == fields_map(pairs).insert(pairs[i].0, v),
    decreases pairs.len(),
{
    let k = pairs[i].0;
    let p2 = pairs.update(i, (k, v));
    if i == pairs.len() - 1 {
        assert(p2.drop_last() =~= pairs.drop_last());
        assert(fields_map(p2) =~= fields_map(pairs).insert(k, v));
    } else {
        assert(p2.drop_last() =~= pairs.drop_last().update(i, (k, v)));
        lemma_update(pairs.drop_last(), i, v);
        assert(fields_map(p2) =~= fields_map(pairs).insert(k, v));
    }
}

/// Header fields: names and values, each name at most once.
#[derive(Debug)]
pub struct HeaderFields {
    entries: Vec<(Vec<u8>, Vec<u8>)>,
}

impl View for HeaderFields {
    type V = Map<Seq<u8>, Seq<u8>>;

    closed spec fn view(&self) -> Map<Seq<u8>, Seq<u8>> {
        fields_map(pairs_of(self.entries@))
    }
}

impl HeaderFields {
    #[verifier::type_invariant]
    closed spec fn names_distinct(self) -> bool {
        distinct_names(pairs_of(self.entries@))
    }

    /// No fields.
    pub fn new() -> (r: HeaderFields)
        ensures
            r@ == Map::<Seq<u8>, Seq<u8>>::empty(),
    {
        let r = HeaderFields { entries: Vec::new() };
        assert(pairs_of(r.entries@) =~= Seq::<(Seq<u8>, Seq<u8>)>::empty());
        r
    }

    /// The position of `name` among the entries, if it is there.
    fn position(&self, name: &Vec<u8>) -> (r: Option<usize>)
        ensures
            r matches Some(i) ==> i < self.entries.len() && pairs_of(self.entries@)[i as int].0
                == name@,
            r is None ==> forall|i: int|
                0 <= i < self.entries.len() ==> pairs_of(self.entries@)[i].0 != name@,
    {
        let mut i: usize = 0;
        while i < self.entries.len()
            invariant
                i <= self.entries.len(),
                forall|j: int| 0 <= j < i ==> pairs_of(self.entries@)[j].0 != name@,
            decreases self.entries.len() - i,
        {
            let eq = bytes_eq(&self.entries[i].0, name);
            if eq {
                return Some(i);
            }
            i = i + 1;
        }
        None
    }

    /// Sets the value of `name`, replacing the one it had.
    pub fn insert(&mut self, name: Vec<u8>, value: Vec<u8>)
        ensures
            final(self)@ == old(self)@.insert(name@, value@),
    {
        proof {
            use_type_invariant(&*self);
        }
        match self.position(&name) {
            Some(i) => {
                let ghost old_view = pairs_of(self.entries@);
                let mut entries = Vec::new();
                std::mem::swap(&mut entries, &mut self.entries);
                entries.set(i, (name, value));
                proof {
                    assert(pairs_of(entries@) =~= old_view.update(i as int, (old_view[i as int].0, value@)));
                    lemma_update(old_view, i as int, value@);
                }
                self.entries = entries;
            },
            None => {
                let ghost old_view = pairs_of(self.entries@);
                let mut entries = Vec::new();
                std::mem::swap(&mut entries, &mut self.entries);
                entries.push((name, value));
                proof {
                    assert(pairs_of(entries@) =~= old_view.push((name@, value@)));
                    assert(pairs_of(entries@).drop_last() =~= old_view);
                }
                self.entries = entries;
            },
        }
    }

    /// The value of `name`, if it has one.
    pub fn get(&self, name: &Vec<u8>) -> (r: Option<&Vec<u8>>)
        ensures
            r is Some <==> self@.contains_key(name@),
            r matches Some(v) ==> v@ == self@[name@],
    {
        proof {
            use_type_invariant(self);
        }
        match self.position(name) {
            Some(i) => {
                proof {
                    lemma_distinct_lookup(pairs_of(self.entries@), i as int);
                }
                Some(&self.entries[i].1)
            },
            None => {
                proof {
                    lemma_absent(pairs_of(self.entries@), name@);
                }
                None
            },
        }
    }

    /// Sets every field of `other`, replacing the values of names already here.
    pub fn insert_fields(&mut self, other: &HeaderFields)
        ensures
            final(self)@ == old(self)@.union_prefer_right(other@),
    {
        let ghost start = self@;
        let ghost pairs = pairs_of(other.entries@);
        let mut k: usize = 0;
        while k < other.entries.len()
            invariant
                k <= other.entries.len(),
                pairs == pairs_of(other.entries@),
                self@ == insert_all(start, pairs.take(k as int)),
            decreases other.entries.len() - k,
        {
            let name = copy_bytes(&other.entries[k].0);
            let value = copy_bytes(&other.entries[k].1);
            self.insert(name, value);
            proof {
                assert(pairs.take(k + 1).drop_last() =~= pairs.take(k as int));
            }
            k = k + 1;
        }
        proof {
            assert(pairs.take(k as int) =~= pairs);
            lemma_insert_all_union(start, pairs);
        }
    }

    /// The fields of `pairs` read in order; a later pair with a name replaces
    /// an earlier one.
    pub fn from_pairs(pairs: Vec<(Vec<u8>, Vec<u8>)>) -> (r: HeaderFields)
        ensures
            r@ == fields_map(pairs_of(pairs@)),
    {
        let ghost all = pairs_of(pairs@);
        let mut r = HeaderFields::new();
        let mut k: usize = 0;
        while k < pairs.len()
            invariant
                k <= pairs.len(),
                all == pairs_of(pairs@),
                r@ == insert_all(Map::empty(), all.take(k as int)),
            decreases pairs.len() - k,
        {
            let name = copy_bytes(&pairs[k].0);
            let value = copy_bytes(&pairs[k].1);
            r.insert(name, value);
            proof {
                assert(all.take(k + 1).drop_last() =~= all.take(k as int));
            }
            k = k + 1;
        }
        assert(all.take(k as int) =~= all);
        r
    }

    /// A copy of these fields.
    pub fn clone(&self) -> (r: HeaderFields)
        ensures
            r@ == self@,
    {
        let mut r = HeaderFields::new();
        r.insert_fields(self);
        assert(Map::<Seq<u8>, Seq<u8>>::empty().union_prefer_right(self@) =~= self@);
        r
    }
}

/// A copy of a byte string.
pub fn copy_bytes(v: &Vec<u8>) -> (r: Vec<u8>)
    ensures
        r@ == v@,
{
    let mut r = Vec::new();
    let mut i: usize = 0;
    while i < v.len()
        invariant
            i <= v.len(),
            r@ == v@.take(i as int),
        decreases v.len() - i,
    {
        r.push(v[i]);
        assert(v@.take(i + 1) =~= v@.take(i as int).push(v@[i as int]));
        i = i + 1;
    }
    assert(v@.take(i as int) =~= v@);
    r
}

/// Whether two byte strings are equal.
pub fn bytes_eq(a: &Vec<u8>, b: &Vec<u8>) -> (r: bool)
    ensures
        r == (a@ == b@),
{
    if a.len() != b.len() {
        return false;
    }
    let mut i: usize = 0;
    while i < a.len()
        invariant
            a.len() == b.len(),
            i <= a.len(),
            forall|j: int| 0 <= j < i ==> a@[j] == b@[j],
        decreases a.len() - i,
    {
        if a[i] != b[i] {
            return false;
        }
        i = i + 1;
    }
    assert(a@ =~= b@);
    true
}

} // verus!

verus! {

/// The names and values of string pairs.
pub open spec fn text_pairs_of(v: Seq<(String, String)>) -> Seq<(Seq<char>, Seq<char>)> {
    Seq::new(v.len(), |i: int| (v[i].0@, v[i].1@))
}

/// Header fields named by strings, each name at most once.
#[derive(Debug)]
pub struct TextFields {
    entries: Vec<(String, String)>,
}

impl View for TextFields {
    type V = Map<Seq<char>, Seq<char>>;

    closed spec fn view(&self) -> Map<Seq<char>, Seq<char>> {
        fields_map(text_pairs_of(self.entries@))
    }
}

impl TextFields {
    #[verifier::type_invariant]
    closed spec fn names_distinct(self) -> bool {
        distinct_names(text_pairs_of(self.entries@))
    }

    /// No fields.
    pub fn new() -> (r: TextFields)
        ensures
            r@ == Map::<Seq<char>, Seq<char>>::empty(),
    {
        let r = TextFields { entries: Vec::new() };
        assert(text_pairs_of(r.entries@) =~= Seq::<(Seq<char>, Seq<char>)>::empty());
        r
    }

    /// Sets the value of `name`, replacing the one it had.
    pub fn insert(&mut self, name: String, value: String)
        ensures
            final(self)@ == old(self)@.insert(name@, value@),
    {
        proof {
            use_type_invariant(&*self);
        }
        match self.position(&name) {
            Some(i) => {
                let ghost old_view = text_pairs_of(self.entries@);
                let mut entries = Vec::new();
                std::mem::swap(&mut entries, &mut self.entries);
                entries.set(i, (name, value));
                proof {
                    assert(text_pairs_of(entries@) =~= old_view.update(
                        i as int,
                        (old_view[i as int].0, value@),
                    ));
                    lemma_update(old_view, i as int, value@);
                }
                self.entries = entries;
            },
            None => {
                let ghost old_view = text_pairs_of(self.entries@);
                let mut entries = Vec::new();
                std::mem::swap(&mut entries, &mut self.entries);
                entries.push((name, value));
                proof {
                    assert(text_pairs_of(entries@) =~= old_view.push((name@, value@)));
                    assert(text_pairs_of(entries@).drop_last() =~= old_view);
                }
                self.entries = entries;
            },
        }
    }

    /// The position of `name` among the entries, if it is there.
    fn position(&self, name: &String) -> (r: Option<usize>)
        ensures
            r matches Some(i) ==> i < self.entries.len() && text_pairs_of(self.entries@)[i as int].0
                == name@,
            r is None ==> forall|i: int|
                0 <= i < self.entries.len() ==> text_pairs_of(self.entries@)[i].0 != name@,
    {
        let mut i: usize = 0;
        while i < self.entries.len()
            invariant
                i <= self.entries.len(),
                forall|j: int| 0 <= j < i ==> text_pairs_of(self.entries@)[j].0 != name@,
            decreases self.entries.len() - i,
        {
            if self.entries[i].0 == *name {
                return Some(i);
            }
            i = i + 1;
        }
        None
    }

    /// A copy of these fields.
    pub fn clone(&self) -> (r: TextFields)
        ensures
            r@ == self@,
    {
        proof {
            use_type_invariant(self);
        }
        let mut entries: Vec<(String, String)> = Vec::new();
        let mut k: usize = 0;
        while k < self.entries.len()
            invariant
                k <= self.entries.len(),
                text_pairs_of(entries@) =~= text_pairs_of(self.entries@).take(k as int),
            decreases self.entries.len() - k,
        {
            let ghost before = text_pairs_of(entries@);
            entries.push((self.entries[k].0.clone(), self.entries[k].1.clone()));
            assert(text_pairs_of(entries@) =~= before.push(text_pairs_of(self.entries@)[k as int]));
            assert(text_pairs_of(self.entries@).take(k + 1) =~= text_pairs_of(self.entries@).take(
                k as int,
            ).push(text_pairs_of(self.entries@)[k as int]));
            k = k + 1;
        }
        assert(text_pairs_of(self.entries@).take(k as int) =~= text_pairs_of(self.entries@));
        TextFields { entries: entries }
    }
}

} // verus!
