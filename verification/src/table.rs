//! An insertion-ordered table from names to values.
//!
//! The table is a vector of entries. Its meaning is a map: scanning the
//! entries from the first to the last, a later entry for a name overrides an
//! earlier one. `insert` overwrites in place, so a table built from `new` by
//! `insert` never holds a name twice.

use vstd::prelude::*;

verus! {

/// One name with the value bound to it.
pub struct Entry<V> {
    pub key: String,
    pub value: V,
}

/// An insertion-ordered table from names to values.
pub struct Table<V> {
    entries: Vec<Entry<V>>,
}

/// The map that a sequence of entries stands for.
pub open spec fn entries_map<V>(entries: Seq<Entry<V>>) -> Map<Seq<char>, V>
    decreases entries.len(),
{
    if entries.len() == 0 {
        Map::empty()
    } else {
        entries_map(entries.drop_last()).insert(entries.last().key@, entries.last().value)
    }
}

/// No name occurs in two entries.
pub open spec fn entries_distinct<V>(entries: Seq<Entry<V>>) -> bool {
    forall|i: int, j: int|
        0 <= i < j < entries.len() ==> (#[trigger] entries[i]).key@ != (#[trigger] entries[j]).key@
}

/// A name that no entry from `from` on carries is bound as the entries
/// before `from` bind it.
pub proof fn lemma_map_ignores_other_names<V>(entries: Seq<Entry<V>>, from: int, key: Seq<char>)
    requires
        0 <= from <= entries.len(),
        forall|j: int| from <= j < entries.len() ==> (#[trigger] entries[j]).key@ != key,
    ensures
        entries_map(entries).contains_key(key) == entries_map(
            entries.subrange(0, from),
        ).contains_key(key),
        entries_map(entries).contains_key(key) ==> entries_map(entries)[key] == entries_map(
            entries.subrange(0, from),
        )[key],
    decreases entries.len(),
{
    if from == entries.len() {
        assert(entries.subrange(0, from) =~= entries);
    } else {
        let shorter = entries.drop_last();
        assert(entries.last().key@ != key);
        lemma_map_ignores_other_names(shorter, from, key);
        assert(shorter.subrange(0, from) =~= entries.subrange(0, from));
    }
}

/// The last entry that carries a name decides what the name is bound to.
pub proof fn lemma_map_last_match<V>(entries: Seq<Entry<V>>, at: int, key: Seq<char>)
    requires
        0 <= at < entries.len(),
        entries[at].key@ == key,
        forall|j: int| at < j < entries.len() ==> (#[trigger] entries[j]).key@ != key,
    ensures
        entries_map(entries).contains_key(key),
        entries_map(entries)[key] == entries[at].value,
{
    lemma_map_ignores_other_names(entries, at + 1, key);
    let upto = entries.subrange(0, at + 1);
    assert(upto.last() == entries[at]);
    assert(entries_map(upto) == entries_map(upto.drop_last()).insert(key, entries[at].value));
}

/// A name that no entry carries is not bound.
pub proof fn lemma_map_no_match<V>(entries: Seq<Entry<V>>, key: Seq<char>)
    requires
        forall|j: int| 0 <= j < entries.len() ==> (#[trigger] entries[j]).key@ != key,
    ensures
        !entries_map(entries).contains_key(key),
{
    lemma_map_ignores_other_names(entries, 0, key);
    assert(entries.subrange(0, 0).len() == 0);
}

/// Overwriting the last entry that carries a name is an insertion into the
/// map.
pub proof fn lemma_map_overwrite<V>(entries: Seq<Entry<V>>, at: int, entry: Entry<V>)
    requires
        0 <= at < entries.len(),
        entries[at].key@ == entry.key@,
        forall|j: int| at < j < entries.len() ==> (#[trigger] entries[j]).key@ != entry.key@,
    ensures
        entries_map(entries.update(at, entry)) == entries_map(entries).insert(
            entry.key@,
            entry.value,
        ),
    decreases entries.len(),
{
    let changed = entries.update(at, entry);
    if at == entries.len() - 1 {
        assert(changed.drop_last() =~= entries.drop_last());
        assert(entries_map(changed) =~= entries_map(entries).insert(entry.key@, entry.value));
    } else {
        lemma_map_overwrite(entries.drop_last(), at, entry);
        assert(changed.drop_last() =~= entries.drop_last().update(at, entry));
        assert(changed.last() == entries.last());
        assert(entries.last().key@ != entry.key@);
        assert(entries_map(changed) =~= entries_map(entries).insert(entry.key@, entry.value));
    }
}

impl<V> Table<V> {
    /// The map that the table stands for.
    pub closed spec fn view(&self) -> Map<Seq<char>, V> {
        entries_map(self.entries@)
    }

    /// No name occurs twice among the entries.
    pub closed spec fn distinct(&self) -> bool {
        entries_distinct(self.entries@)
    }

    /// The names in the order in which they were first bound.
    pub closed spec fn names(&self) -> Seq<Seq<char>> {
        Seq::new(self.entries@.len(), |i: int| self.entries@[i].key@)
    }

    /// The empty table.
    pub fn new() -> (table: Self)
        ensures
            table@ == Map::<Seq<char>, V>::empty(),
            table.distinct(),
            table.names().len() == 0,
    {
        Table { entries: Vec::new() }
    }

    /// The number of entries.
    pub fn len(&self) -> (n: usize)
        ensures
            n == self.names().len(),
    {
        self.entries.len()
    }

    /// Where the last entry for `key` stands, if there is one.
    fn position(&self, key: &str) -> (found: Option<usize>)
        ensures
            match found {
                Some(at) => {
                    &&& at < self.entries@.len()
                    &&& self.entries@[at as int].key@ == key@
                    &&& forall|j: int|
                        at < j < self.entries@.len() ==> (#[trigger] self.entries@[j]).key@ != key@
                },
                None => forall|j: int|
                    0 <= j < self.entries@.len() ==> (#[trigger] self.entries@[j]).key@ != key@,
            },
    {
        let wanted = String::from_str(key);
        let mut i: usize = self.entries.len();
        while i > 0
            invariant
                i <= self.entries@.len(),
                wanted@ == key@,
                forall|j: int|
                    i <= j < self.entries@.len() ==> (#[trigger] self.entries@[j]).key@ != key@,
            decreases i,
        {
            i = i - 1;
            if self.entries[i].key == wanted {
                return Some(i);
            }
        }
        None
    }

    /// The value bound to `key`, if any.
    pub fn get(&self, key: &str) -> (found: Option<&V>)
        ensures
            match found {
                Some(value) => self@.contains_key(key@) && *value == self@[key@],
                None => !self@.contains_key(key@),
            },
    {
        match self.position(key) {
            Some(at) => {
                proof {
                    lemma_map_last_match(self.entries@, at as int, key@);
                }
                Some(&self.entries[at].value)
            },
            None => {
                proof {
                    lemma_map_no_match(self.entries@, key@);
                }
                None
            },
        }
    }

    /// Whether `key` is bound.
    pub fn contains_key(&self, key: &str) -> (found: bool)
        ensures
            found == self@.contains_key(key@),
    {
        self.get(key).is_some()
    }

    /// Binds `key` to `value`. A name that was bound keeps its place among
    /// the entries and gets the new value; a new name goes to the end.
    pub fn insert(&mut self, key: String, value: V)
        ensures
            final(self)@ == old(self)@.insert(key@, value),
            old(self).distinct() ==> final(self).distinct(),
            old(self)@.contains_key(key@) ==> final(self).names() == old(self).names(),
            !old(self)@.contains_key(key@) ==> final(self).names() == old(self).names().push(key@),
    {
        let found = self.position(key.as_str());
        let entry = Entry { key, value };
        match found {
            Some(at) => {
                proof {
                    lemma_map_last_match(self.entries@, at as int, entry.key@);
                    lemma_map_overwrite(self.entries@, at as int, entry);
                }
                self.entries.set(at, entry);
                assert(self.names() =~= old(self).names());
            },
            None => {
                proof {
                    lemma_map_no_match(self.entries@, entry.key@);
                }
                self.entries.push(entry);
                assert(self.entries@.drop_last() =~= old(self).entries@);
                assert(self.names() =~= old(self).names().push(entry.key@));
            },
        }
    }

    /// Forgets every entry.
    pub fn clear(&mut self)
        ensures
            final(self)@ == Map::<Seq<char>, V>::empty(),
            final(self).distinct(),
            final(self).names().len() == 0,
    {
        self.entries.clear();
    }
}

} // verus!
