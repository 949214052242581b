//! A string-keyed table with a mathematical map view.
//!
//! Both telemetry actors keep per-connection state keyed by connection
//! identifier and must also walk every connection when they flush or
//! snapshot. The table stores its entries as an ordered sequence of
//! unique-keyed pairs, so contracts can speak both of the map it
//! represents and of the order a walk visits it in.

use vstd::prelude::*;
use vstd::pervasive::VecAdditionalExecFns;

verus! {

/// Relies on `str`'s `PartialEq`: two string slices compare equal
/// exactly when they hold the same characters.
#[verifier::external_body]
pub(crate) fn str_eq(a: &str, b: &str) -> (r: bool)
    ensures
        r == (a@ == b@),
{
    a == b
}

/// The map represented by an association sequence: later pairs win,
/// though with unique keys no pair ever shadows another.
pub open spec fn assoc_map<V>(s: Seq<(String, V)>) -> Map<Seq<char>, V>
    decreases s.len(),
{
    if s.len() == 0 {
        Map::empty()
    } else {
        assoc_map(s.drop_last()).insert(s.last().0@, s.last().1)
    }
}

/// No two pairs share a key.
pub open spec fn unique_keys<V>(s: Seq<(String, V)>) -> bool {
    forall|i: int, j: int| 0 <= i < j < s.len() ==> s[i].0@ != s[j].0@
}

/// The index of the pair holding `k`; meaningful only when some pair
/// does.
pub open spec fn index_of_key<V>(s: Seq<(String, V)>, k: Seq<char>) -> int {
    choose|i: int| 0 <= i < s.len() && s[i].0@ == k
}

/// The position of `k` in a key sequence; meaningful only when present.
pub open spec fn key_index(keys: Seq<Seq<char>>, k: Seq<char>) -> int {
    choose|i: int| 0 <= i < keys.len() && keys[i] == k
}

proof fn lemma_unique_drop_last<V>(s: Seq<(String, V)>)
    requires
        unique_keys(s),
        s.len() > 0,
    ensures
        unique_keys(s.drop_last()),
{
    assert(forall|i: int|
        0 <= i < s.len() - 1 ==> s.drop_last()[i] == s[i]);
}

/// Every pair of a unique-keyed sequence is found in its map, with its
/// own value.
pub proof fn lemma_assoc_map_index<V>(s: Seq<(String, V)>, i: int)
    requires
        unique_keys(s),
        0 <= i < s.len(),
    ensures
        assoc_map(s).contains_key(s[i].0@),
        assoc_map(s)[s[i].0@] == s[i].1,
    decreases s.len(),
{
    if i == s.len() - 1 {
    } else {
        lemma_unique_drop_last(s);
        lemma_assoc_map_index(s.drop_last(), i);
        assert(s.drop_last()[i] == s[i]);
        assert(s[i].0@ != s.last().0@);
    }
}

/// A key no pair holds is not in the map.
pub proof fn lemma_assoc_map_absent<V>(s: Seq<(String, V)>, k: Seq<char>)
    requires
        forall|i: int| 0 <= i < s.len() ==> s[i].0@ != k,
    ensures
        !assoc_map(s).contains_key(k),
    decreases s.len(),
{
    if s.len() > 0 {
        assert(forall|i: int|
            0 <= i < s.len() - 1 ==> s.drop_last()[i] == s[i]);
        lemma_assoc_map_absent(s.drop_last(), k);
    }
}

/// Replacing the value of pair `i` (key unchanged) updates the map at
/// that key.
proof fn lemma_assoc_map_update<V>(s: Seq<(String, V)>, i: int, p: (String, V))
    requires
        unique_keys(s),
        0 <= i < s.len(),
        p.0@ == s[i].0@,
    ensures
        assoc_map(s.update(i, p)) == assoc_map(s).insert(p.0@, p.1),
        unique_keys(s.update(i, p)),
    decreases s.len(),
{
    let t = s.update(i, p);
    assert(unique_keys(t));
    if i == s.len() - 1 {
        assert(t.drop_last() =~= s.drop_last());
        assert(t.last() == p);
        assert(assoc_map(s.drop_last()).insert(p.0@, p.1) =~= assoc_map(s).insert(p.0@, p.1));
    } else {
        lemma_unique_drop_last(s);
        assert(t.drop_last() =~= s.drop_last().update(i, p));
        assert(s.drop_last()[i] == s[i]);
        lemma_assoc_map_update(s.drop_last(), i, p);
        assert(t.last() == s.last());
        assert(p.0@ != s.last().0@);
        assert(assoc_map(s.drop_last()).insert(p.0@, p.1).insert(s.last().0@, s.last().1)
            =~= assoc_map(s.drop_last()).insert(s.last().0@, s.last().1).insert(p.0@, p.1));
    }
}

/// Removing pair `i` removes exactly its key from the map.
proof fn lemma_assoc_map_remove<V>(s: Seq<(String, V)>, i: int)
    requires
        unique_keys(s),
        0 <= i < s.len(),
    ensures
        assoc_map(s.remove(i)) == assoc_map(s).remove(s[i].0@),
        unique_keys(s.remove(i)),
    decreases s.len(),
{
    let t = s.remove(i);
    assert(forall|j: int| 0 <= j < i ==> t[j] == s[j]);
    assert(forall|j: int| i <= j < t.len() ==> t[j] == s[j + 1]);
    assert(unique_keys(t));
    if i == s.len() - 1 {
        assert(t =~= s.drop_last());
        lemma_unique_drop_last(s);
        assert(forall|j: int| 0 <= j < t.len() ==> t[j].0@ != s[i].0@);
        lemma_assoc_map_absent(t, s[i].0@);
        assert(assoc_map(s) == assoc_map(t).insert(s[i].0@, s[i].1));
        assert(assoc_map(t) =~= assoc_map(t).insert(s[i].0@, s[i].1).remove(s[i].0@));
    } else {
        lemma_unique_drop_last(s);
        assert(t.drop_last() =~= s.drop_last().remove(i));
        assert(s.drop_last()[i] == s[i]);
        lemma_assoc_map_remove(s.drop_last(), i);
        assert(t.last() == s.last());
        assert(s[i].0@ != s.last().0@);
        assert(assoc_map(s.drop_last()).remove(s[i].0@).insert(s.last().0@, s.last().1)
            =~= assoc_map(s.drop_last()).insert(s.last().0@, s.last().1).remove(s[i].0@));
    }
}

/// String-keyed table: an insertion-ordered sequence of unique-keyed
/// pairs, read as the map `self@`.
pub struct StrTable<V> {
    items: Vec<(String, V)>,
}

impl<V> View for StrTable<V> {
    type V = Map<Seq<char>, V>;

    closed spec fn view(&self) -> Map<Seq<char>, V> {
        assoc_map(self.items@)
    }
}

impl<V> StrTable<V> {
    /// The entries, in insertion order.
    pub closed spec fn entries(&self) -> Seq<(String, V)> {
        self.items@
    }

    /// Well-formed: no two entries share a key.
    pub open spec fn wf(&self) -> bool {
        unique_keys(self.entries())
    }

    /// An empty table.
    pub fn new() -> (t: StrTable<V>)
        ensures
            t@ == Map::<Seq<char>, V>::empty(),
            t.entries() =~= Seq::<(String, V)>::empty(),
            t.wf(),
    {
        StrTable { items: Vec::new() }
    }

    /// Number of entries.
    pub fn len(&self) -> (n: usize)
        ensures
            n == self.entries().len(),
    {
        self.items.len()
    }

    /// The index of the entry holding `key`, if any.
    fn find(&self, key: &str) -> (r: Option<usize>)
        ensures
            r matches Some(i) ==> i < self.entries().len() && self.entries()[i as int].0@ == key@,
            r is None ==> forall|i: int|
                0 <= i < self.entries().len() ==> self.entries()[i].0@ != key@,
    {
        let n = self.items.len();
        let mut i: usize = 0;
        while i < n
            invariant
                i <= n,
                n == self.items@.len(),
                forall|j: int| 0 <= j < i ==> self.items@[j].0@ != key@,
            decreases n - i,
        {
            if str_eq(self.items[i].0.as_str(), key) {
                return Some(i);
            }
            i = i + 1;
        }
        None
    }

    /// The index of the entry holding `key`, if any.
    pub fn index_of(&self, key: &str) -> (r: Option<usize>)
        requires
            self.wf(),
        ensures
            r matches Some(i) ==> i < self.entries().len() && self.entries()[i as int].0@ == key@
                && self@.contains_key(key@) && self@[key@] == self.entries()[i as int].1,
            r is None ==> !self@.contains_key(key@),
    {
        match self.find(key) {
            Some(i) => {
                proof {
                    lemma_assoc_map_index(self.entries(), i as int);
                }
                Some(i)
            },
            None => {
                proof {
                    lemma_assoc_map_absent(self.entries(), key@);
                }
                None
            },
        }
    }

    /// Look the value for `key` up.
    pub fn get(&self, key: &str) -> (r: Option<&V>)
        requires
            self.wf(),
        ensures
            r matches Some(v) ==> self@.contains_key(key@) && *v == self@[key@],
            r is None ==> !self@.contains_key(key@),
    {
        match self.find(key) {
            Some(i) => {
                proof {
                    lemma_assoc_map_index(self.entries(), i as int);
                }
                Some(&self.items[i].1)
            },
            None => {
                proof {
                    lemma_assoc_map_absent(self.entries(), key@);
                }
                None
            },
        }
    }

    /// Whether `key` has an entry.
    pub fn contains_key(&self, key: &str) -> (r: bool)
        requires
            self.wf(),
        ensures
            r == self@.contains_key(key@),
    {
        match self.get(key) {
            Some(_) => true,
            None => false,
        }
    }

    /// Bind `key` to `value`: update the existing entry in place, or
    /// append a new one.
    pub fn set(&mut self, key: &str, value: V)
        requires
            old(self).wf(),
        ensures
            final(self)@ == old(self)@.insert(key@, value),
            final(self).wf(),
            old(self)@.contains_key(key@) ==> final(self).entries() == old(self).entries().update(
                index_of_key(old(self).entries(), key@),
                (old(self).entries()[index_of_key(old(self).entries(), key@)].0, value),
            ),
            !old(self)@.contains_key(key@) ==> final(self).entries().len() == old(self).entries().len() + 1
                && final(self).entries().last().0@ == key@
                && final(self).entries().last().1 == value
                && final(self).entries().drop_last() == old(self).entries(),
            forall|j: int|
                0 <= j < final(self).entries().len() ==> old(self).entries().contains(
                    #[trigger] final(self).entries()[j],
                ) || final(self).entries()[j].1 == value,
    {
        match self.find(key) {
            Some(i) => {
                proof {
                    lemma_assoc_map_index(self.entries(), i as int);
                }
                let key_copy = self.items[i].0.clone();
                let mut pair = (key_copy, value);
                self.items.set_and_swap(i, &mut pair);
                proof {
                    let s = old(self).entries();
                    assert(s[i as int].0@ == key@);
                    assert(index_of_key(s, key@) == i as int) by {
                        let w = index_of_key(s, key@);
                        assert(0 <= w < s.len() && s[w].0@ == key@);
                        if w != i as int {
                            assert(false);
                        }
                    }
                    lemma_assoc_map_update(
                        s,
                        i as int,
                        (s[i as int].0, self.items@[i as int].1),
                    );
                    assert(self.items@ =~= s.update(
                        i as int,
                        (s[i as int].0, self.items@[i as int].1),
                    ));
                    assert forall|j: int|
                        0 <= j < self.items@.len() implies old(self).entries().contains(
                        #[trigger] self.items@[j],
                    ) || self.items@[j].1 == self.items@[i as int].1 by {
                        if j != i as int {
                            assert(self.items@[j] == s[j]);
                        }
                    }
                }
            },
            None => {
                proof {
                    lemma_assoc_map_absent(self.entries(), key@);
                }
                let owned = key.to_owned();
                self.items.push((owned, value));
                proof {
                    let s = old(self).entries();
                    let t = self.items@;
                    assert(t.drop_last() =~= s);
                    assert(unique_keys(t));
                    assert forall|j: int|
                        0 <= j < t.len() implies old(self).entries().contains(#[trigger] t[j]) || (
                        t[j]).1 == t.last().1 by {
                        if j < t.len() - 1 {
                            assert(t[j] == s[j]);
                        }
                    }
                }
            },
        }
    }

    /// Replace the value of entry `i`, returning the old value; the key
    /// stays.
    pub fn replace_at(&mut self, i: usize, value: V) -> (prev: V)
        requires
            old(self).wf(),
            i < old(self).entries().len(),
        ensures
            prev == old(self).entries()[i as int].1,
            final(self).entries() == old(self).entries().update(
                i as int,
                (old(self).entries()[i as int].0, value),
            ),
            final(self)@ == old(self)@.insert(old(self).entries()[i as int].0@, value),
            final(self).wf(),
    {
        let key_copy = self.items[i].0.clone();
        let mut pair = (key_copy, value);
        self.items.set_and_swap(i, &mut pair);
        proof {
            let s = old(self).entries();
            lemma_assoc_map_update(s, i as int, (s[i as int].0, final(self).entries()[i as int].1));
            assert(final(self).entries() =~= s.update(
                i as int,
                (s[i as int].0, final(self).entries()[i as int].1),
            ));
        }
        pair.1
    }

    /// Drop the entry for `key`, if any.
    pub fn remove(&mut self, key: &str)
        requires
            old(self).wf(),
        ensures
            final(self)@ == old(self)@.remove(key@),
            final(self).wf(),
            !old(self)@.contains_key(key@) ==> final(self).entries() == old(self).entries(),
            old(self)@.contains_key(key@) ==> final(self).entries() == old(self).entries().remove(
                index_of_key(old(self).entries(), key@),
            ),
            forall|j: int|
                0 <= j < final(self).entries().len() ==> old(self).entries().contains(
                    #[trigger] final(self).entries()[j],
                ),
    {
        match self.find(key) {
            Some(i) => {
                proof {
                    let s = old(self).entries();
                    lemma_assoc_map_index(s, i as int);
                    assert(index_of_key(s, key@) == i as int) by {
                        let w = index_of_key(s, key@);
                        assert(0 <= w < s.len() && s[w].0@ == key@);
                        if w != i as int {
                            assert(false);
                        }
                    }
                    lemma_assoc_map_remove(s, i as int);
                }
                self.items.remove(i);
                proof {
                    assert(old(self).entries()[index_of_key(old(self).entries(), key@)].0@
                        == key@);
                    assert forall|j: int| 0 <= j < self.items@.len() implies old(
                        self,
                    ).entries().contains(#[trigger] self.items@[j]) by {
                        let s = old(self).entries();
                        if j < i as int {
                            assert(self.items@[j] == s[j]);
                        } else {
                            assert(self.items@[j] == s[j + 1]);
                        }
                    }
                }
            },
            None => {
                proof {
                    lemma_assoc_map_absent(self.entries(), key@);
                    assert(old(self)@.remove(key@) =~= old(self)@);
                    assert forall|j: int| 0 <= j < self.items@.len() implies old(
                        self,
                    ).entries().contains(#[trigger] self.items@[j]) by {
                        assert(old(self).entries()[j] == self.items@[j]);
                    }
                }
            },
        }
    }

    /// Take every entry out, leaving the table empty. The caller walks
    /// the returned pairs in insertion order.
    pub fn take_items(&mut self) -> (r: Vec<(String, V)>)
        ensures
            r@ == old(self).entries(),
            final(self).entries() =~= Seq::<(String, V)>::empty(),
            final(self)@ == Map::<Seq<char>, V>::empty(),
            final(self).wf(),
    {
        let n = self.items.len();
        let taken = self.items.split_off(0);
        proof {
            assert(taken@ =~= old(self).entries());
            assert(final(self).entries() =~= Seq::<(String, V)>::empty());
        }
        taken
    }

    /// A copy of the table, entry for entry.
    pub fn duplicate(&self) -> (r: StrTable<V>)
        where V: Copy
        ensures
            r.entries() == self.entries(),
            r@ == self@,
    {
        let n = self.items.len();
        let mut items: Vec<(String, V)> = Vec::new();
        let mut i: usize = 0;
        while i < n
            invariant
                i <= n,
                n == self.items@.len(),
                items@ =~= self.items@.subrange(0, i as int),
            decreases n - i,
        {
            let key = self.items[i].0.clone();
            let value = self.items[i].1;
            items.push((key, value));
            proof {
                assert(items@ =~= self.items@.subrange(0, i + 1));
            }
            i = i + 1;
        }
        proof {
            assert(self.items@.subrange(0, n as int) =~= self.items@);
        }
        StrTable { items }
    }

    /// The key of entry `i`.
    pub fn key_at(&self, i: usize) -> (k: &String)
        requires
            i < self.entries().len(),
        ensures
            *k == self.entries()[i as int].0,
    {
        &self.items[i].0
    }

    /// The value of entry `i`.
    pub fn value_at(&self, i: usize) -> (v: &V)
        requires
            i < self.entries().len(),
        ensures
            *v == self.entries()[i as int].1,
    {
        &self.items[i].1
    }
}

} // verus!
