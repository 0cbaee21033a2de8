//! An insertion-ordered table of uniquely named entries. It backs the
//! program store (namespace tables, definition tables) and the snapshot
//! file table, where later inserts with an existing name silently replace
//! the earlier entry ("last write wins") while first-insertion order is
//! kept for deterministic traversal.

use vstd::prelude::*;
use vstd::map::*;

verus! {

/// The map described by parallel name/value sequences, later pairs
/// overriding earlier ones with the same name.
pub open spec fn table_map<W>(ns: Seq<Seq<char>>, vs: Seq<W>) -> Map<Seq<char>, W>
    decreases ns.len(),
{
    if ns.len() == 0 || vs.len() == 0 {
        Map::empty()
    } else {
        table_map(ns.drop_last(), vs.drop_last()).insert(ns.last(), vs.last())
    }
}

/// No name occurs twice.
pub open spec fn distinct_names(ns: Seq<Seq<char>>) -> bool {
    forall|i: int, j: int| 0 <= i < j < ns.len() ==> ns[i] != ns[j]
}

/// A name is in the table's map exactly when it is among the names.
pub proof fn lemma_table_map_contains<W>(ns: Seq<Seq<char>>, vs: Seq<W>, k: Seq<char>)
    requires
        ns.len() == vs.len(),
    ensures
        table_map(ns, vs).contains_key(k) <==> ns.contains(k),
    decreases ns.len(),
{
    if ns.len() == 0 {
        assert(!ns.contains(k));
    } else {
        lemma_table_map_contains(ns.drop_last(), vs.drop_last(), k);
        if k == ns.last() {
            assert(ns[ns.len() - 1] == k);
            assert(ns.contains(k));
        } else {
            if ns.contains(k) {
                let i = choose|i: int| 0 <= i < ns.len() && ns[i] == k;
                assert(ns.drop_last()[i] == k);
                assert(ns.drop_last().contains(k));
            }
            if ns.drop_last().contains(k) {
                let i = choose|i: int| 0 <= i < ns.drop_last().len() && ns.drop_last()[i] == k;
                assert(ns[i] == k);
                assert(ns.contains(k));
            }
        }
    }
}

/// With distinct names, each name maps to the value stored beside it.
pub proof fn lemma_table_map_index<W>(ns: Seq<Seq<char>>, vs: Seq<W>, i: int)
    requires
        ns.len() == vs.len(),
        0 <= i < ns.len(),
        distinct_names(ns),
    ensures
        table_map(ns, vs).contains_key(ns[i]),
        table_map(ns, vs)[ns[i]] == vs[i],
    decreases ns.len(),
{
    if i == ns.len() - 1 {
    } else {
        assert(distinct_names(ns.drop_last()));
        lemma_table_map_index(ns.drop_last(), vs.drop_last(), i);
        assert(ns.drop_last()[i] == ns[i]);
        assert(ns.last() != ns[i]);
    }
}

/// Replacing the value beside name `ns[j]` updates exactly that key.
pub proof fn lemma_table_map_update<W>(ns: Seq<Seq<char>>, vs: Seq<W>, j: int, v: W)
    requires
        ns.len() == vs.len(),
        0 <= j < ns.len(),
        distinct_names(ns),
    ensures
        table_map(ns, vs.update(j, v)) == table_map(ns, vs).insert(ns[j], v),
    decreases ns.len(),
{
    let updated = vs.update(j, v);
    if j == ns.len() - 1 {
        assert(updated.drop_last() =~= vs.drop_last());
        assert(updated.last() == v);
        assert(table_map(ns.drop_last(), vs.drop_last()).insert(ns.last(), vs.last()).insert(
            ns.last(),
            v,
        ) =~= table_map(ns.drop_last(), vs.drop_last()).insert(ns.last(), v));
    } else {
        assert(distinct_names(ns.drop_last()));
        lemma_table_map_update(ns.drop_last(), vs.drop_last(), j, v);
        assert(updated.drop_last() =~= vs.drop_last().update(j, v));
        assert(updated.last() == vs.last());
        assert(ns.last() != ns[j]);
        assert(ns.drop_last()[j] == ns[j]);
        assert(table_map(ns.drop_last(), vs.drop_last()).insert(ns[j], v).insert(
            ns.last(),
            vs.last(),
        ) =~= table_map(ns.drop_last(), vs.drop_last()).insert(ns.last(), vs.last()).insert(
            ns[j],
            v,
        ));
    }
}

/// Removing the pair at `j` removes exactly its name from the map.
pub proof fn lemma_table_map_remove<W>(ns: Seq<Seq<char>>, vs: Seq<W>, j: int)
    requires
        ns.len() == vs.len(),
        0 <= j < ns.len(),
        distinct_names(ns),
    ensures
        table_map(ns.remove(j), vs.remove(j)) == table_map(ns, vs).remove(ns[j]),
    decreases ns.len(),
{
    lemma_table_map_contains(ns.drop_last(), vs.drop_last(), ns[j]);
    if j == ns.len() - 1 {
        assert(ns.remove(j) =~= ns.drop_last());
        assert(vs.remove(j) =~= vs.drop_last());
        assert(!ns.drop_last().contains(ns[j])) by {
            if ns.drop_last().contains(ns[j]) {
                let i = choose|i: int|
                    0 <= i < ns.drop_last().len() && ns.drop_last()[i] == ns[j];
                assert(ns[i] == ns[j]);
            }
        }
        assert(table_map(ns.drop_last(), vs.drop_last()) =~= table_map(
            ns.drop_last(),
            vs.drop_last(),
        ).insert(ns.last(), vs.last()).remove(ns[j]));
    } else {
        assert(distinct_names(ns.drop_last()));
        lemma_table_map_remove(ns.drop_last(), vs.drop_last(), j);
        assert(ns.remove(j).drop_last() =~= ns.drop_last().remove(j));
        assert(vs.remove(j).drop_last() =~= vs.drop_last().remove(j));
        assert(ns.remove(j).last() == ns.last());
        assert(vs.remove(j).last() == vs.last());
        assert(ns.drop_last()[j] == ns[j]);
        assert(ns.last() != ns[j]);
        assert(table_map(ns.drop_last(), vs.drop_last()).remove(ns[j]).insert(
            ns.last(),
            vs.last(),
        ) =~= table_map(ns.drop_last(), vs.drop_last()).insert(ns.last(), vs.last()).remove(
            ns[j],
        ));
    }
}

/// Appending a pair inserts its name.
pub proof fn lemma_table_map_push<W>(ns: Seq<Seq<char>>, vs: Seq<W>, k: Seq<char>, v: W)
    requires
        ns.len() == vs.len(),
    ensures
        table_map(ns.push(k), vs.push(v)) == table_map(ns, vs).insert(k, v),
{
    assert(ns.push(k).drop_last() =~= ns);
    assert(vs.push(v).drop_last() =~= vs);
    assert(ns.push(k).last() == k);
    assert(vs.push(v).last() == v);
}

/// An insertion-ordered table of named entries; names are unique.
pub struct NameTable<T: View> {
    entries: Vec<(String, T)>,
}

spec fn entry_names<T: View>(s: Seq<(String, T)>) -> Seq<Seq<char>> {
    Seq::new(s.len(), |i: int| s[i].0@)
}

spec fn entry_vals<T: View>(s: Seq<(String, T)>) -> Seq<T::V> {
    Seq::new(s.len(), |i: int| s[i].1@)
}

impl<T: View> View for NameTable<T> {
    type V = Map<Seq<char>, T::V>;

    closed spec fn view(&self) -> Map<Seq<char>, T::V> {
        table_map(self.names(), self.vals())
    }
}

impl<T: View> NameTable<T> {
    /// The names, in first-insertion order.
    pub closed spec fn names(&self) -> Seq<Seq<char>> {
        entry_names(self.entries@)
    }

    /// The values, in the same order as `names`.
    pub closed spec fn vals(&self) -> Seq<T::V> {
        entry_vals(self.entries@)
    }

    #[verifier::type_invariant]
    closed spec fn inv(&self) -> bool {
        distinct_names(self.names())
    }

    /// An empty table.
    pub fn new() -> (r: NameTable<T>)
        ensures
            r@ == Map::<Seq<char>, T::V>::empty(),
            r.names() == Seq::<Seq<char>>::empty(),
    {
        let r = NameTable { entries: Vec::new() };
        proof {
            assert(r.names() =~= Seq::<Seq<char>>::empty());
            assert(r@ =~= Map::<Seq<char>, T::V>::empty());
        }
        r
    }

    /// How many entries the table holds; restates the table's standing
    /// facts for callers: names are distinct, and the map's keys are
    /// exactly the names.
    pub fn len(&self) -> (r: usize)
        ensures
            r == self.names().len(),
            self.vals().len() == self.names().len(),
            distinct_names(self.names()),
            forall|k: Seq<char>| self@.contains_key(k) <==> self.names().contains(k),
            self@ == table_map(self.names(), self.vals()),
    {
        proof {
            use_type_invariant(self);
            assert forall|k: Seq<char>| self@.contains_key(k) <==> self.names().contains(k) by {
                lemma_table_map_contains(self.names(), self.vals(), k);
            }
        }
        self.entries.len()
    }

    /// Looks a name up; absence is a normal result.
    pub fn get(&self, key: &String) -> (r: Option<&T>)
        ensures
            r is Some <==> self@.contains_key(key@),
            r is Some ==> r->Some_0@ == self@[key@],
    {
        proof {
            use_type_invariant(self);
        }
        let n = self.entries.len();
        let mut j: usize = 0;
        while j < n
            invariant
                n == self.entries@.len(),
                j <= n,
                forall|i: int| 0 <= i < j ==> self.names()[i] != key@,
            decreases n - j,
        {
            if self.entries[j].0 == *key {
                proof {
                    use_type_invariant(self);
                    lemma_table_map_index(self.names(), self.vals(), j as int);
                }
                return Option::Some(&self.entries[j].1);
            }
            j = j + 1;
        }
        proof {
            use_type_invariant(self);
            lemma_table_map_contains(self.names(), self.vals(), key@);
            if self.names().contains(key@) {
                let i = choose|i: int| 0 <= i < self.names().len() && self.names()[i] == key@;
                assert(false);
            }
        }
        Option::None
    }

    /// Inserts or replaces the entry under `key`: the map gains or updates
    /// that key; the name order is unchanged for a replacement and gains
    /// the new name at the end otherwise.
    pub fn insert(&mut self, key: String, val: T)
        ensures
            final(self)@ == old(self)@.insert(key@, val@),
            old(self)@.contains_key(key@) ==> final(self).names() == old(self).names(),
            !old(self)@.contains_key(key@) ==> final(self).names() == old(self).names().push(
                key@,
            ),
            final(self).vals().len() == final(self).names().len(),
    {
        proof {
            use_type_invariant(&*self);
        }
        let ghost old_names = self.names();
        let ghost old_vals = self.vals();
        let mut entries: Vec<(String, T)> = Vec::new();
        core::mem::swap(&mut entries, &mut self.entries);
        let n = entries.len();
        let mut j: usize = 0;
        while j < n
            invariant
                n == entries@.len(),
                j <= n,
                entry_names(entries@) == old_names,
                entry_vals(entries@) == old_vals,
                distinct_names(old_names),
                old(self).names() == old_names,
                old(self).vals() == old_vals,
                forall|i: int| 0 <= i < j ==> old_names[i] != key@,
            decreases n - j,
        {
            if entries[j].0 == *(&key) {
                proof {
                    assert(entry_names(entries@)[j as int] == entries@[j as int].0@);
                    assert(old_names[j as int] == key@);
                    assert(old_names.contains(key@));
                    lemma_table_map_contains(old_names, old_vals, key@);
                    lemma_table_map_update(old_names, old_vals, j as int, val@);
                }
                entries.remove(j);
                entries.insert(j, (key, val));
                proof {
                    assert(entry_names(entries@) =~= old_names);
                    assert(entry_vals(entries@) =~= old_vals.update(j as int, val@));
                }
                core::mem::swap(&mut entries, &mut self.entries);
                proof {
                    assert(self.names() == old_names);
                    assert(self.vals() == old_vals.update(j as int, val@));
                    assert(self@ == table_map(old_names, old_vals).insert(key@, val@));
                    assert(old(self)@ == table_map(old_names, old_vals));
                }
                return ;
            }
            j = j + 1;
        }
        proof {
            lemma_table_map_contains(old_names, old_vals, key@);
            if old_names.contains(key@) {
                let i = choose|i: int| 0 <= i < old_names.len() && old_names[i] == key@;
                assert(false);
            }
            lemma_table_map_push(old_names, old_vals, key@, val@);
        }
        entries.push((key, val));
        proof {
            assert(entry_names(entries@) =~= old_names.push(key@));
            assert(entry_vals(entries@) =~= old_vals.push(val@));
            assert(distinct_names(entry_names(entries@)));
        }
        core::mem::swap(&mut entries, &mut self.entries);
    }

    /// Removes and returns the entry under `key`, if any.
    pub fn take(&mut self, key: &String) -> (r: Option<T>)
        ensures
            r is Some <==> old(self)@.contains_key(key@),
            r is Some ==> r->Some_0@ == old(self)@[key@],
            final(self)@ == old(self)@.remove(key@),
            !final(self)@.contains_key(key@),
    {
        proof {
            use_type_invariant(&*self);
        }
        let ghost old_names = self.names();
        let ghost old_vals = self.vals();
        let mut entries: Vec<(String, T)> = Vec::new();
        core::mem::swap(&mut entries, &mut self.entries);
        let n = entries.len();
        let mut j: usize = 0;
        while j < n
            invariant
                n == entries@.len(),
                j <= n,
                entry_names(entries@) == old_names,
                entry_vals(entries@) == old_vals,
                distinct_names(old_names),
                old(self).names() == old_names,
                old(self).vals() == old_vals,
                forall|i: int| 0 <= i < j ==> old_names[i] != key@,
            decreases n - j,
        {
            if entries[j].0 == *key {
                proof {
                    assert(entry_names(entries@)[j as int] == entries@[j as int].0@);
                    assert(old_names[j as int] == key@);
                    assert(old_names.contains(key@));
                    lemma_table_map_contains(old_names, old_vals, key@);
                    lemma_table_map_index(old_names, old_vals, j as int);
                    lemma_table_map_remove(old_names, old_vals, j as int);
                }
                let (_, v) = entries.remove(j);
                proof {
                    assert(entry_names(entries@) =~= old_names.remove(j as int));
                    assert(entry_vals(entries@) =~= old_vals.remove(j as int));
                    assert(distinct_names(old_names.remove(j as int))) by {
                        assert forall|a: int, b: int|
                            0 <= a < b < old_names.remove(j as int).len() implies old_names.remove(
                            j as int,
                        )[a] != old_names.remove(j as int)[b] by {
                            let a1: int = if a < j { a } else { a + 1 };
                            let b1: int = if b < j { b } else { b + 1 };
                            assert(old_names.remove(j as int)[a] == old_names[a1]);
                            assert(old_names.remove(j as int)[b] == old_names[b1]);
                        }
                    }
                }
                core::mem::swap(&mut entries, &mut self.entries);
                proof {
                    lemma_table_map_contains(self.names(), self.vals(), key@);
                    assert(!self.names().contains(key@)) by {
                        if self.names().contains(key@) {
                            let i = choose|i: int|
                                0 <= i < self.names().len() && self.names()[i] == key@;
                            let i1: int = if i < j { i } else { i + 1 };
                            assert(self.names()[i] == old_names[i1]);
                        }
                    }
                }
                return Option::Some(v);
            }
            j = j + 1;
        }
        proof {
            lemma_table_map_contains(old_names, old_vals, key@);
            if old_names.contains(key@) {
                let i = choose|i: int| 0 <= i < old_names.len() && old_names[i] == key@;
                assert(false);
            }
            assert(table_map(old_names, old_vals).remove(key@) =~= table_map(
                old_names,
                old_vals,
            ));
        }
        core::mem::swap(&mut entries, &mut self.entries);
        Option::None
    }

    /// Removes and returns the first entry in insertion order.
    pub fn pop_first(&mut self) -> (r: (String, T))
        requires
            old(self).names().len() > 0,
        ensures
            r.0@ == old(self).names()[0],
            r.1@ == old(self).vals()[0],
            final(self).names() == old(self).names().drop_first(),
            final(self).vals() == old(self).vals().drop_first(),
            final(self)@ == old(self)@.remove(old(self).names()[0]),
            old(self)@.contains_key(old(self).names()[0]),
            old(self)@[old(self).names()[0]] == old(self).vals()[0],
    {
        proof {
            use_type_invariant(&*self);
        }
        let ghost old_names = self.names();
        let ghost old_vals = self.vals();
        proof {
            lemma_table_map_index(old_names, old_vals, 0);
            lemma_table_map_remove(old_names, old_vals, 0);
        }
        let mut entries: Vec<(String, T)> = Vec::new();
        core::mem::swap(&mut entries, &mut self.entries);
        let (k, v) = entries.remove(0);
        proof {
            assert(entry_names(entries@) =~= old_names.remove(0));
            assert(entry_vals(entries@) =~= old_vals.remove(0));
            assert(old_names.remove(0) =~= old_names.drop_first());
            assert(old_vals.remove(0) =~= old_vals.drop_first());
            assert(distinct_names(old_names.drop_first())) by {
                assert forall|a: int, b: int|
                    0 <= a < b < old_names.drop_first().len() implies old_names.drop_first()[a]
                    != old_names.drop_first()[b] by {
                    assert(old_names.drop_first()[a] == old_names[a + 1]);
                    assert(old_names.drop_first()[b] == old_names[b + 1]);
                }
            }
        }
        core::mem::swap(&mut entries, &mut self.entries);
        (k, v)
    }

    /// The entry value at position `i`, as a mathematical value.
    pub closed spec fn raw_at(&self, i: int) -> T {
        self.entries@[i].1
    }

    /// The entry at position `i` in first-insertion order, together with
    /// what the map says about it.
    pub fn entry_at(&self, i: usize) -> (r: (&String, &T))
        requires
            i < self.names().len(),
        ensures
            r.0@ == self.names()[i as int],
            r.1@ == self.vals()[i as int],
            *(r.1) == self.raw_at(i as int),
            self@.contains_key(self.names()[i as int]),
            self@[self.names()[i as int]] == self.vals()[i as int],
    {
        proof {
            use_type_invariant(self);
            lemma_table_map_index(self.names(), self.vals(), i as int);
        }
        let e = &self.entries[i];
        (&e.0, &e.1)
    }
}

} // verus!
