//! A table from names to items, kept as a list in which no name occurs
//! twice. Contracts see it as a map.

use crate::text::text_is;
use vstd::prelude::*;

verus! {

/// One entry of a table.
pub struct Entry<T> {
    pub key: String,
    pub item: T,
}

/// Whether some entry has the name `k`.
pub open spec fn has_key<T>(es: Seq<Entry<T>>, k: Seq<char>) -> bool {
    exists|i: int| 0 <= i < es.len() && #[trigger] es[i].key@ == k
}

/// The place of an entry with the name `k`.
pub open spec fn position<T>(es: Seq<Entry<T>>, k: Seq<char>) -> int {
    choose|i: int| 0 <= i < es.len() && #[trigger] es[i].key@ == k
}

/// Whether no name occurs twice.
pub open spec fn distinct<T>(es: Seq<Entry<T>>) -> bool {
    forall|i: int, j: int|
        0 <= i < j < es.len() ==> #[trigger] es[i].key@ != #[trigger] es[j].key@
}

/// The map that a list of entries stands for.
pub open spec fn entries_map<T>(es: Seq<Entry<T>>) -> Map<Seq<char>, T> {
    Map::new(|k: Seq<char>| has_key(es, k), |k: Seq<char>| es[position(es, k)].item)
}

/// A table from names to items.
pub struct Table<T> {
    entries: Vec<Entry<T>>,
}

impl<T> View for Table<T> {
    type V = Map<Seq<char>, T>;

    closed spec fn view(&self) -> Map<Seq<char>, T> {
        entries_map(self.entries@)
    }
}

/// In a list without repeated names, the entry at `i` is the one that its
/// name leads to.
pub proof fn lemma_position<T>(es: Seq<Entry<T>>, i: int)
    requires
        distinct(es),
        0 <= i < es.len(),
    ensures
        has_key(es, es[i].key@),
        position(es, es[i].key@) == i,
{
    let k = es[i].key@;
    let p = position(es, k);
    assert(0 <= p < es.len() && es[p].key@ == k);
    if p < i {
        assert(es[p].key@ != es[i].key@);
    } else if i < p {
        assert(es[i].key@ != es[p].key@);
    }
}

impl<T> Table<T> {
    /// Whether no name occurs twice. Every table that this module hands out
    /// is well formed, and its methods keep it so.
    pub closed spec fn wf(&self) -> bool {
        distinct(self.entries@)
    }

    /// The entries, in the order in which the names came.
    pub closed spec fn slots(&self) -> Seq<Entry<T>> {
        self.entries@
    }

    /// An empty table.
    pub fn new() -> (r: Self)
        ensures
            r.wf(),
            r@ == Map::<Seq<char>, T>::empty(),
            r.slots().len() == 0,
    {
        let r = Table { entries: Vec::new() };
        assert(r@ =~= Map::<Seq<char>, T>::empty());
        r
    }

    /// The number of entries.
    pub fn len(&self) -> (n: usize)
        requires
            self.wf(),
        ensures
            n == self.slots().len(),
            distinct(self.slots()),
            self@ == entries_map(self.slots()),
    {
        self.entries.len()
    }

    /// The entry at `i`.
    pub fn slot(&self, i: usize) -> (e: &Entry<T>)
        requires
            self.wf(),
            i < self.slots().len(),
        ensures
            *e == self.slots()[i as int],
            self@.contains_key(e.key@),
            self@[e.key@] == e.item,
    {
        proof {
            lemma_position(self.entries@, i as int);
        }
        &self.entries[i]
    }

    /// The place of the entry named `key`, if there is one.
    fn find(&self, key: &str) -> (r: Option<usize>)
        requires
            self.wf(),
        ensures
            match r {
                Some(i) => i < self.entries.len() && self.entries[i as int].key@ == key@
                    && has_key(self.entries@, key@) && position(self.entries@, key@) == i,
                None => !has_key(self.entries@, key@),
            },
    {
        let mut i: usize = 0;
        while i < self.entries.len()
            invariant
                self.wf(),
                i <= self.entries.len(),
                forall|k: int| 0 <= k < i ==> #[trigger] self.entries[k].key@ != key@,
            decreases self.entries.len() - i,
        {
            if text_is(self.entries[i].key.as_str(), key) {
                proof {
                    lemma_position(self.entries@, i as int);
                }
                return Some(i);
            }
            i += 1;
        }
        None
    }

    /// Whether the table has an entry named `key`.
    pub fn contains(&self, key: &str) -> (r: bool)
        requires
            self.wf(),
        ensures
            r == self@.contains_key(key@),
    {
        self.find(key).is_some()
    }

    /// The item named `key`, if there is one.
    pub fn get(&self, key: &str) -> (r: Option<&T>)
        requires
            self.wf(),
        ensures
            match r {
                Some(item) => self@.contains_key(key@) && self@[key@] == *item,
                None => !self@.contains_key(key@),
            },
    {
        match self.find(key) {
            Some(i) => Some(&self.entries[i].item),
            None => None,
        }
    }

    /// Binds `key` to `item`, in place of what it was bound to.
    pub fn insert(&mut self, key: String, item: T)
        requires
            old(self).wf(),
        ensures
            final(self).wf(),
            final(self)@ == old(self)@.insert(key@, item),
    {
        let ghost before = self.entries@;
        let entry = Entry { key, item };
        match self.find(entry.key.as_str()) {
            Some(i) => {
                self.entries.set(i, entry);
                proof {
                    let after = self.entries@;
                    assert(distinct(after)) by {
                        assert forall|a: int, b: int| 0 <= a < b < after.len() implies #[trigger] after[a].key@
                            != #[trigger] after[b].key@ by {
                            assert(after[a].key@ == before[a].key@);
                            assert(after[b].key@ == before[b].key@);
                        }
                    }
                    assert forall|k: Seq<char>| has_key(after, k) == has_key(before, k) by {
                        if has_key(after, k) {
                            let p = position(after, k);
                            assert(before[p].key@ == k);
                        }
                        if has_key(before, k) {
                            let p = position(before, k);
                            assert(after[p].key@ == k);
                        }
                    }
                    assert forall|k: Seq<char>| has_key(after, k) implies #[trigger] entries_map(
                        after,
                    )[k] == entries_map(before).insert(entry.key@, entry.item)[k] by {
                        let p = position(after, k);
                        lemma_position(after, p);
                        lemma_position(before, p);
                    }
                    assert(entries_map(after) =~= entries_map(before).insert(
                        entry.key@,
                        entry.item,
                    ));
                }
            },
            None => {
                self.entries.push(entry);
                proof {
                    let after = self.entries@;
                    let n = before.len() as int;
                    assert(distinct(after)) by {
                        assert forall|a: int, b: int| 0 <= a < b < after.len() implies #[trigger] after[a].key@
                            != #[trigger] after[b].key@ by {
                            assert(after[a] == before[a]);
                            if b < n {
                                assert(after[b] == before[b]);
                            }
                        }
                    }
                    assert(after[n].key@ == entry.key@);
                    assert forall|k: Seq<char>|
                        has_key(after, k) == (has_key(before, k) || k == entry.key@) by {
                        if has_key(after, k) {
                            let p = position(after, k);
                            if p < n {
                                assert(before[p].key@ == k);
                            }
                        }
                        if has_key(before, k) {
                            let p = position(before, k);
                            assert(after[p].key@ == k);
                        }
                    }
                    assert forall|k: Seq<char>| has_key(after, k) implies #[trigger] entries_map(
                        after,
                    )[k] == entries_map(before).insert(entry.key@, entry.item)[k] by {
                        let p = position(after, k);
                        lemma_position(after, p);
                        if p < n {
                            assert(after[p] == before[p]);
                            lemma_position(before, p);
                        }
                    }
                    assert(entries_map(after) =~= entries_map(before).insert(
                        entry.key@,
                        entry.item,
                    ));
                }
            },
        }
    }

    /// Takes out the entry named `key`, if there is one.
    pub fn remove(&mut self, key: &str)
        requires
            old(self).wf(),
        ensures
            final(self).wf(),
            final(self)@ == old(self)@.remove(key@),
    {
        let ghost before = self.entries@;
        match self.find(key) {
            Some(i) => {
                self.entries.remove(i);
                proof {
                    let after = self.entries@;
                    assert(after == before.remove(i as int));
                    assert forall|a: int| 0 <= a < after.len() implies #[trigger] after[a]
                        == before[if a < i {
                        a
                    } else {
                        a + 1
                    }] by {}
                    assert(distinct(after)) by {
                        assert forall|a: int, b: int| 0 <= a < b < after.len() implies #[trigger] after[a].key@
                            != #[trigger] after[b].key@ by {
                            let a2 = if a < i {
                                a
                            } else {
                                a + 1
                            };
                            let b2 = if b < i {
                                b
                            } else {
                                b + 1
                            };
                            assert(after[a] == before[a2]);
                            assert(after[b] == before[b2]);
                            assert(before[a2].key@ != before[b2].key@);
                        }
                    }
                    assert forall|k: Seq<char>|
                        has_key(after, k) == (has_key(before, k) && k != key@) by {
                        if has_key(after, k) {
                            let p = position(after, k);
                            let p2 = if p < i {
                                p
                            } else {
                                p + 1
                            };
                            assert(after[p] == before[p2]);
                            assert(before[p2].key@ == k);
                            lemma_position(before, p2);
                        }
                        if has_key(before, k) && k != key@ {
                            let p = position(before, k);
                            let p2 = if p < i {
                                p
                            } else {
                                p - 1
                            };
                            assert(after[p2] == before[p]);
                            assert(after[p2].key@ == k);
                        }
                    }
                    assert forall|k: Seq<char>| has_key(after, k) implies #[trigger] entries_map(
                        after,
                    )[k] == entries_map(before)[k] by {
                        let p = position(after, k);
                        let p2 = if p < i {
                            p
                        } else {
                            p + 1
                        };
                        assert(after[p] == before[p2]);
                        lemma_position(after, p);
                        lemma_position(before, p2);
                    }
                    assert(entries_map(after) =~= entries_map(before).remove(key@));
                }
            },
            None => {
                assert(entries_map(before) =~= entries_map(before).remove(key@));
            },
        }
    }
}

} // verus!
