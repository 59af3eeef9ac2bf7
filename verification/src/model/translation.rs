//! The translation table of a tree block: short keys for taxon labels.

use vstd::prelude::*;

verus! {

/// One entry of a table: a key and the taxon label it stands for.
pub type Entry = (Seq<char>, Seq<char>);

/// The position among the first `n` entries whose key is `key`, or `-1`.
pub open spec fn key_index_in(entries: Seq<Entry>, key: Seq<char>, n: int) -> int
    decreases n,
{
    if n <= 0 {
        -1
    } else if entries[n - 1].0 == key {
        n - 1
    } else {
        key_index_in(entries, key, n - 1)
    }
}

/// The position of the entry whose key is `key`, or `-1`.
pub open spec fn key_index(entries: Seq<Entry>, key: Seq<char>) -> int {
    key_index_in(entries, key, entries.len() as int)
}

/// Whether no two entries share a key.
pub open spec fn keys_distinct(entries: Seq<Entry>) -> bool {
    forall|i: int, j: int|
        0 <= i < j < entries.len() ==> (#[trigger] entries[i]).0 != (#[trigger] entries[j]).0
}

/// The table after `key` was made to stand for `label`: the entry of that key
/// is replaced, or a new one is added at the end.
pub open spec fn table_insert(entries: Seq<Entry>, key: Seq<char>, label: Seq<char>) -> Seq<Entry> {
    if key_index(entries, key) >= 0 {
        entries.update(key_index(entries, key), (key, label))
    } else {
        entries.push((key, label))
    }
}

/// `key_index_in` names the last entry among the first `n` with that key.
pub proof fn lemma_key_index_in(entries: Seq<Entry>, key: Seq<char>, n: int)
    requires
        0 <= n <= entries.len(),
    ensures
        -1 <= key_index_in(entries, key, n) < n,
        key_index_in(entries, key, n) >= 0 ==> entries[key_index_in(entries, key, n)].0 == key,
        forall|k: int| key_index_in(entries, key, n) < k < n ==> (#[trigger] entries[k]).0 != key,
    decreases n,
{
    if n > 0 && entries[n - 1].0 != key {
        lemma_key_index_in(entries, key, n - 1);
    }
}

/// Inserting keeps the keys distinct.
pub proof fn lemma_table_insert(entries: Seq<Entry>, key: Seq<char>, label: Seq<char>)
    requires
        keys_distinct(entries),
    ensures
        keys_distinct(table_insert(entries, key, label)),
{
    lemma_key_index_in(entries, key, entries.len() as int);
    let after = table_insert(entries, key, label);
    assert forall|i: int, j: int| 0 <= i < j < after.len() implies (#[trigger] after[i]).0 != (
    #[trigger] after[j]).0 by {
        if key_index(entries, key) >= 0 {
            assert(entries[i].0 != entries[j].0);
        } else {
            if j < entries.len() {
                assert(entries[i].0 != entries[j].0);
            } else {
                assert(entries[i].0 != key);
            }
        }
    }
}

/// A translation table: keys, each standing for one taxon label. A key occurs
/// once; inserting it again replaces what it stands for.
#[derive(Debug)]
pub struct Translation {
    entries: Vec<(String, String)>,
}

impl Translation {
    /// The entries of the table, in the order in which their keys came.
    pub closed spec fn spec_entries(&self) -> Seq<Entry> {
        Seq::new(self.entries@.len(), |i: int| (self.entries@[i].0@, self.entries@[i].1@))
    }

    /// Whether no two entries share a key. Every table made by `new` and
    /// filled by `insert` is so.
    pub open spec fn wf(&self) -> bool {
        keys_distinct(self.spec_entries())
    }

    /// An empty table.
    pub fn new() -> (r: Self)
        ensures
            r.spec_entries() == Seq::<Entry>::empty(),
            r.wf(),
    {
        let r = Translation { entries: Vec::new() };
        assert(r.spec_entries() =~= Seq::<Entry>::empty());
        r
    }

    /// The position of the entry whose key is `key`.
    fn find(&self, key: &String) -> (r: Option<usize>)
        ensures
            match r {
                Some(i) => i == key_index(self.spec_entries(), key@) && i
                    < self.spec_entries().len(),
                None => key_index(self.spec_entries(), key@) == -1,
            },
    {
        let mut i: usize = self.entries.len();
        while i > 0
            invariant
                i <= self.entries.len(),
                key_index_in(self.spec_entries(), key@, i as int) == key_index(
                    self.spec_entries(),
                    key@,
                ),
            decreases i,
        {
            if self.entries[i - 1].0 == *key {
                return Some(i - 1);
            }
            i = i - 1;
        }
        None
    }

    /// Makes `key` stand for `label`.
    pub fn insert(&mut self, key: String, label: String)
        requires
            old(self).wf(),
        ensures
            final(self).spec_entries() == table_insert(old(self).spec_entries(), key@, label@),
            final(self).wf(),
    {
        proof {
            lemma_table_insert(self.spec_entries(), key@, label@);
        }
        match self.find(&key) {
            Some(i) => {
                self.entries.set(i, (key, label));
                assert(self.spec_entries() =~= table_insert(
                    old(self).spec_entries(),
                    key@,
                    label@,
                ));
            },
            None => {
                self.entries.push((key, label));
                assert(self.spec_entries() =~= table_insert(
                    old(self).spec_entries(),
                    key@,
                    label@,
                ));
            },
        }
    }

    /// The number of entries.
    pub fn len(&self) -> (r: usize)
        ensures
            r == self.spec_entries().len(),
    {
        self.entries.len()
    }

    /// The label that `key` stands for, if the table holds the key.
    pub fn get(&self, key: &str) -> (r: Option<&String>)
        ensures
            r is Some <==> key_index(self.spec_entries(), key@) >= 0,
            r matches Some(l) ==> l@ == self.spec_entries()[key_index(
                self.spec_entries(),
                key@,
            )].1,
    {
        let owned = key.to_owned();
        proof {
            lemma_key_index_in(self.spec_entries(), key@, self.spec_entries().len() as int);
        }
        match self.find(&owned) {
            Some(i) => Some(&self.entries[i].1),
            None => None,
        }
    }

    /// The key of the entry at position `index`.
    pub fn key_at(&self, index: usize) -> (r: &String)
        requires
            index < self.spec_entries().len(),
        ensures
            r@ == self.spec_entries()[index as int].0,
    {
        &self.entries[index].0
    }

    /// The label of the entry at position `index`.
    pub fn label_at(&self, index: usize) -> (r: &String)
        requires
            index < self.spec_entries().len(),
        ensures
            r@ == self.spec_entries()[index as int].1,
    {
        &self.entries[index].1
    }
}

} // verus!
