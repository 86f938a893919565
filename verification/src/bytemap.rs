//! An ordered mapping from byte-string keys to values.
//!
//! Entries keep their first-insertion order; inserting an existing key
//! replaces its value in place.  Where a caller needs the ascending key
//! order that a key-sorted registry iterates — the resolver walking the
//! top-level components — it sorts the entries with [`sort_entries`].

use vstd::prelude::*;

use crate::utils::bytes_eq;

verus! {

#[derive(Debug, Clone)]
pub struct ByteMap<V> {
    pub entries: Vec<(Vec<u8>, V)>,
}

/// Entries after binding a key to a value: the key's unique entry replaced
/// in place, or a new entry at the end.
pub open spec fn entries_insert<V>(s: Seq<(Vec<u8>, V)>, key: Vec<u8>, value: V) -> Seq<
    (Vec<u8>, V),
> {
    if exists|i: int| 0 <= i < s.len() && (#[trigger] s[i]).0@ == key@ {
        let i = choose|i: int| 0 <= i < s.len() && (#[trigger] s[i]).0@ == key@;
        s.update(i, (s[i].0, value))
    } else {
        s.push((key, value))
    }
}

/// The mapping that a sequence of entries denotes: later entries win.
pub open spec fn map_of<V>(s: Seq<(Vec<u8>, V)>) -> Map<Seq<u8>, V>
    decreases s.len(),
{
    if s.len() == 0 {
        Map::empty()
    } else {
        map_of(s.drop_last()).insert(s.last().0@, s.last().1)
    }
}

impl<V> ByteMap<V> {
    /// Keys are pairwise distinct.
    pub open spec fn wf(self) -> bool {
        forall|i: int, j: int|
            0 <= i < j < self.entries@.len() ==> (#[trigger] self.entries@[i]).0@ != (
            #[trigger] self.entries@[j]).0@
    }

    pub open spec fn as_map(self) -> Map<Seq<u8>, V> {
        map_of(self.entries@)
    }

    pub fn new() -> (r: ByteMap<V>)
        ensures
            r.wf(),
            r.as_map() == Map::<Seq<u8>, V>::empty(),
            r.entries@.len() == 0,
    {
        ByteMap { entries: Vec::new() }
    }

    fn index_of(&self, key: &[u8]) -> (r: Option<usize>)
        ensures
            match r {
                Some(i) => 0 <= i < self.entries@.len() && self.entries@[i as int].0@ == key@,
                None => forall|i: int|
                    0 <= i < self.entries@.len() ==> (#[trigger] self.entries@[i]).0@ != key@,
            },
    {
        let n = self.entries.len();
        let mut i: usize = 0;
        while i < n
            invariant
                0 <= i <= n,
                n == self.entries@.len(),
                forall|j: int| 0 <= j < i ==> (#[trigger] self.entries@[j]).0@ != key@,
            decreases n - i,
        {
            if bytes_eq(self.entries[i].0.as_slice(), key) {
                return Some(i);
            }
            i = i + 1;
        }
        None
    }

    /// Looks a key up in the mapping.
    pub fn get(&self, key: &[u8]) -> (r: Option<&V>)
        requires
            self.wf(),
        ensures
            match r {
                Some(v) => self.as_map().contains_key(key@) && *v == self.as_map()[key@],
                None => !self.as_map().contains_key(key@),
            },
    {
        match self.index_of(key) {
            Some(i) => {
                proof {
                    lemma_map_of_get(self.entries@, key@, i as int);
                }
                Some(&self.entries[i].1)
            },
            None => {
                proof {
                    lemma_map_of_no_key(self.entries@, key@);
                }
                None
            },
        }
    }

    pub fn contains_key(&self, key: &[u8]) -> (r: bool)
        requires
            self.wf(),
        ensures
            r == self.as_map().contains_key(key@),
    {
        match self.get(key) {
            Some(_) => true,
            None => false,
        }
    }

    /// Binds a key to a value: replaces in place when the key exists, else
    /// appends at the end.
    pub fn insert(&mut self, key: Vec<u8>, value: V)
        requires
            old(self).wf(),
        ensures
            final(self).wf(),
            final(self).as_map() == old(self).as_map().insert(key@, value),
            final(self).entries@ == entries_insert(old(self).entries@, key, value),
    {
        match self.index_of(key.as_slice()) {
            Some(i) => {
                proof {
                    lemma_map_of_get(self.entries@, key@, i as int);
                }
                let pair = self.entries.remove(i);
                self.entries.insert(i, (pair.0, value));
                proof {
                    assert(final(self).entries@ =~= old(self).entries@.update(
                        i as int,
                        (old(self).entries@[i as int].0, value),
                    ));
                    lemma_map_of_update(old(self).entries@, i as int, value);
                    let s = old(self).entries@;
                    let j = choose|j: int| 0 <= j < s.len() && (#[trigger] s[j]).0@ == key@;
                    assert(s[i as int].0@ == key@);
                    assert(j == i as int);
                    assert(final(self).entries@ =~= entries_insert(s, key, value));
                }
            },
            None => {
                proof {
                    lemma_map_of_no_key(self.entries@, key@);
                    assert(!(exists|i: int|
                        0 <= i < self.entries@.len() && (#[trigger] self.entries@[i]).0@ == key@));
                }
                self.entries.push((key, value));
                proof {
                    assert(final(self).entries@.drop_last() =~= old(self).entries@);
                    assert(final(self).entries@ =~= entries_insert(old(self).entries@, key, value));
                }
            },
        }
    }

    pub fn len(&self) -> (r: usize)
        ensures
            r == self.entries@.len(),
    {
        self.entries.len()
    }
}

/// An entry's key is in the mapping and yields that entry's value.
pub proof fn lemma_map_of_get<V>(s: Seq<(Vec<u8>, V)>, k: Seq<u8>, i: int)
    requires
        forall|p: int, q: int|
            0 <= p < q < s.len() ==> (#[trigger] s[p]).0@ != (#[trigger] s[q]).0@,
        0 <= i < s.len(),
        s[i].0@ == k,
    ensures
        map_of(s).contains_key(k),
        map_of(s)[k] == s[i].1,
    decreases s.len(),
{
    if i == s.len() - 1 {
    } else {
        assert(s.last().0@ != k);
        assert(s.drop_last()[i] == s[i]);
        lemma_map_of_get(s.drop_last(), k, i);
    }
}

/// A key on no entry is not in the mapping.
pub proof fn lemma_map_of_no_key<V>(s: Seq<(Vec<u8>, V)>, k: Seq<u8>)
    requires
        forall|i: int| 0 <= i < s.len() ==> (#[trigger] s[i]).0@ != k,
    ensures
        !map_of(s).contains_key(k),
    decreases s.len(),
{
    if s.len() > 0 {
        assert(forall|i: int| 0 <= i < s.drop_last().len() ==> (#[trigger] s.drop_last()[i]).0@ != k);
        lemma_map_of_no_key(s.drop_last(), k);
    }
}

/// Replacing the value at one entry updates exactly that key's binding.
proof fn lemma_map_of_update<V>(s: Seq<(Vec<u8>, V)>, i: int, v: V)
    requires
        forall|p: int, q: int|
            0 <= p < q < s.len() ==> (#[trigger] s[p]).0@ != (#[trigger] s[q]).0@,
        0 <= i < s.len(),
    ensures
        map_of(s.update(i, (s[i].0, v))) == map_of(s).insert(s[i].0@, v),
    decreases s.len(),
{
    let t = s.update(i, (s[i].0, v));
    if i == s.len() - 1 {
        assert(t.drop_last() =~= s.drop_last());
        assert(map_of(t) =~= map_of(s).insert(s[i].0@, v));
    } else {
        assert(t.drop_last() =~= s.drop_last().update(i, (s[i].0, v)));
        assert(s.drop_last()[i] == s[i]);
        lemma_map_of_update(s.drop_last(), i, v);
        assert(s.last().0@ != s[i].0@);
        assert(map_of(t) == map_of(t.drop_last()).insert(t.last().0@, t.last().1));
        assert(t.last() == s.last());
        assert(map_of(t) =~= map_of(s).insert(s[i].0@, v));
    }
}

/// The abstract value of a sequence of entries.
pub open spec fn entries_view<V: View>(s: Seq<(Vec<u8>, V)>) -> Seq<(Seq<u8>, V::V)> {
    s.map_values(|e: (Vec<u8>, V)| (e.0@, e.1@))
}

/// Binding a key in a sequence of abstract entries.
pub open spec fn view_insert<T>(s: Seq<(Seq<u8>, T)>, key: Seq<u8>, value: T) -> Seq<(Seq<u8>, T)> {
    if exists|i: int| 0 <= i < s.len() && (#[trigger] s[i]).0 == key {
        let i = choose|i: int| 0 <= i < s.len() && (#[trigger] s[i]).0 == key;
        s.update(i, (key, value))
    } else {
        s.push((key, value))
    }
}

/// Inserting an entry and taking the abstract value commute.
pub proof fn lemma_entries_insert_view<V: View>(s: Seq<(Vec<u8>, V)>, key: Vec<u8>, value: V)
    requires
        forall|i: int, j: int| 0 <= i < j < s.len() ==> (#[trigger] s[i]).0@ != (#[trigger] s[j]).0@,
    ensures
        entries_view(entries_insert(s, key, value)) =~= view_insert(entries_view(s), key@, value@),
{
    let sv = entries_view(s);
    assert(forall|i: int| 0 <= i < s.len() ==> (#[trigger] sv[i]) == (s[i].0@, s[i].1@));
    if exists|i: int| 0 <= i < s.len() && (#[trigger] s[i]).0@ == key@ {
        let i = choose|i: int| 0 <= i < s.len() && (#[trigger] s[i]).0@ == key@;
        assert(sv[i].0 == key@);
        assert(exists|j: int| 0 <= j < sv.len() && (#[trigger] sv[j]).0 == key@);
        let j = choose|j: int| 0 <= j < sv.len() && (#[trigger] sv[j]).0 == key@;
        assert(s[j].0@ == key@);
        assert(i == j);
    } else {
        assert(forall|j: int| 0 <= j < sv.len() ==> (#[trigger] sv[j]).0 != key@);
    }
}

/// Byte-lexicographic strict order on keys.
pub open spec fn lex_less(a: Seq<u8>, b: Seq<u8>) -> bool
    decreases a.len(),
{
    if b.len() == 0 {
        false
    } else if a.len() == 0 {
        true
    } else if a.first() < b.first() {
        true
    } else if a.first() > b.first() {
        false
    } else {
        lex_less(a.drop_first(), b.drop_first())
    }
}

/// An entry placed before the first strictly greater key.
pub open spec fn insert_sorted<T>(s: Seq<(Seq<u8>, T)>, e: (Seq<u8>, T)) -> Seq<(Seq<u8>, T)>
    decreases s.len(),
{
    if s.len() == 0 {
        seq![e]
    } else if lex_less(e.0, s.first().0) {
        seq![e] + s
    } else {
        seq![s.first()] + insert_sorted(s.drop_first(), e)
    }
}

/// The entries rearranged into ascending key order, by insertion; with
/// distinct keys this is the one ascending arrangement — the order in which
/// a key-sorted registry iterates.
pub open spec fn sort_entries<T>(s: Seq<(Seq<u8>, T)>) -> Seq<(Seq<u8>, T)>
    decreases s.len(),
{
    if s.len() == 0 {
        Seq::empty()
    } else {
        insert_sorted(sort_entries(s.drop_last()), s.last())
    }
}

/// An entry lands exactly before the first strictly greater key.
pub proof fn lemma_insert_sorted_at<T>(s: Seq<(Seq<u8>, T)>, e: (Seq<u8>, T), idx: int)
    requires
        0 <= idx <= s.len(),
        forall|j: int| 0 <= j < idx ==> !lex_less(e.0, (#[trigger] s[j]).0),
        idx < s.len() ==> lex_less(e.0, s[idx].0),
    ensures
        insert_sorted(s, e) =~= s.take(idx) + seq![e] + s.skip(idx),
    decreases s.len(),
{
    if s.len() == 0 {
    } else if idx == 0 {
        assert(seq![e] + s =~= s.take(0) + seq![e] + s.skip(0));
    } else {
        assert(!lex_less(e.0, s[0].0));
        assert(forall|j: int|
            0 <= j < idx - 1 ==> (#[trigger] s.drop_first()[j]) == s[j + 1]);
        lemma_insert_sorted_at(s.drop_first(), e, idx - 1);
        assert(insert_sorted(s, e) =~= seq![s.first()] + (s.drop_first().take(idx - 1) + seq![e]
            + s.drop_first().skip(idx - 1)));
    }
}

/// Byte-lexicographic comparison of two keys.
pub fn lex_less_bytes(a: &[u8], b: &[u8]) -> (r: bool)
    ensures
        r == lex_less(a@, b@),
{
    let an = a.len();
    let bn = b.len();
    let n = if an < bn {
        an
    } else {
        bn
    };
    let mut i: usize = 0;
    proof {
        assert(a@.skip(0) =~= a@);
        assert(b@.skip(0) =~= b@);
    }
    while i < n
        invariant
            0 <= i <= n,
            an == a@.len(),
            bn == b@.len(),
            n == if an < bn { an as int } else { bn as int },
            lex_less(a@, b@) == lex_less(a@.skip(i as int), b@.skip(i as int)),
        decreases n - i,
    {
        proof {
            assert(a@.skip(i as int).first() == a@[i as int]);
            assert(b@.skip(i as int).first() == b@[i as int]);
            assert(a@.skip(i as int).drop_first() =~= a@.skip(i + 1 as int));
            assert(b@.skip(i as int).drop_first() =~= b@.skip(i + 1 as int));
        }
        if a[i] < b[i] {
            return true;
        }
        if a[i] > b[i] {
            return false;
        }
        i = i + 1;
    }
    proof {
        if an < bn {
            assert(a@.skip(i as int).len() == 0);
            assert(b@.skip(i as int).len() > 0);
        } else {
            assert(b@.skip(i as int).len() == 0);
        }
    }
    an < bn
}

} // verus!
