//! The shared map from leaf labels to small indices.

use vstd::prelude::*;
use vstd::string::*;
use crate::model::label_storage::LabelStorage;
use crate::model::label_storage::find_last;
use crate::model::label_storage::last_index_in;
use crate::model::label_storage::last_index_of;
use crate::model::label_storage::lemma_last_index_of;
use crate::model::label_storage::lemma_stored;
use crate::model::label_storage::stored;
use crate::model::label_storage::texts;
use crate::model::translation::Entry;
use crate::model::translation::Translation;
use crate::model::tree::LabelIndex;

verus! {

/// How many of the first `n` labels occur there for the first time.
pub open spec fn distinct_in(labels: Seq<Seq<char>>, n: int) -> nat
    decreases n,
{
    if n <= 0 {
        0
    } else {
        distinct_in(labels, n - 1) + if last_index_in(labels, labels[n - 1], n - 1) >= 0 {
            0nat
        } else {
            1nat
        }
    }
}

/// Whether every label that `entries` translate to is among `labels`.
pub open spec fn labels_known(entries: Seq<Entry>, labels: Seq<Seq<char>>) -> bool {
    forall|j: int| 0 <= j < entries.len() ==> labels.contains((#[trigger] entries[j]).1)
}

/// A map between leaf labels and the indices that stand for them in the
/// leaves of many trees. A label looked up by text is found at the last
/// position that holds it.
#[derive(Debug)]
pub struct LeafLabelMap {
    num_leaves: usize,
    labels: Vec<String>,
}

impl LeafLabelMap {
    /// The number of labels the map was made for.
    pub closed spec fn spec_num_leaves(&self) -> usize {
        self.num_leaves
    }

    /// An empty map, made for `num_leaves` labels.
    pub fn new(num_leaves: usize) -> (r: Self)
        ensures
            r.spec_labels() == Seq::<Seq<char>>::empty(),
            r.spec_num_leaves() == num_leaves,
    {
        let r = LeafLabelMap { num_leaves, labels: Vec::with_capacity(num_leaves) };
        assert(r.spec_labels() =~= Seq::<Seq<char>>::empty());
        r
    }

    /// Adds `label` at the end, whether or not the map holds it already.
    pub fn insert(&mut self, label: String)
        ensures
            final(self).spec_labels() == old(self).spec_labels().push(label@),
            final(self).spec_num_leaves() == old(self).spec_num_leaves(),
    {
        self.labels.push(label);
        assert(self.spec_labels() =~= old(self).spec_labels().push(label@));
    }

    /// The index of `s`, which is added at the end when the map does not hold
    /// it.
    pub fn get_or_insert(&mut self, s: &str) -> (r: LabelIndex)
        ensures
            final(self).spec_labels() == stored(old(self).spec_labels(), s@),
            final(self).spec_num_leaves() == old(self).spec_num_leaves(),
            r == last_index_of(final(self).spec_labels(), s@),
            r < final(self).spec_labels().len(),
    {
        let key = s.to_owned();
        proof {
            lemma_last_index_of(self.spec_labels(), s@);
            lemma_stored(self.spec_labels(), s@);
        }
        match find_last(&self.labels, &key, self.labels.len()) {
            Some(index) => index,
            None => {
                let index: usize = self.labels.len();
                self.labels.push(key);
                assert(self.spec_labels() =~= old(self).spec_labels().push(s@));
                index
            },
        }
    }

    /// The index of `s`, if the map holds it.
    pub fn get_index(&self, s: &str) -> (r: Option<LabelIndex>)
        ensures
            r is Some <==> self.spec_labels().contains(s@),
            r matches Some(i) ==> i == last_index_of(self.spec_labels(), s@),
    {
        let key = s.to_owned();
        proof {
            lemma_last_index_of(self.spec_labels(), s@);
        }
        find_last(&self.labels, &key, self.labels.len())
    }

    /// The label at `index`, if the map holds that many.
    pub fn get_label(&self, index: usize) -> (r: Option<&str>)
        ensures
            r is Some <==> index < self.spec_labels().len(),
            r matches Some(l) ==> l@ == self.spec_labels()[index as int],
    {
        if index < self.labels.len() {
            Some(self.labels[index].as_str())
        } else {
            None
        }
    }

    /// Whether the map holds `label`.
    pub fn contains_label(&self, label: &str) -> (r: bool)
        ensures
            r == self.spec_labels().contains(label@),
    {
        self.get_index(label).is_some()
    }

    /// The number of labels held.
    pub fn num_labels(&self) -> (r: usize)
        ensures
            r == self.spec_labels().len(),
    {
        self.labels.len()
    }

    /// Whether the map holds as many different labels as it was made for.
    pub fn is_full(&self) -> (r: bool)
        ensures
            r == (self.spec_num_leaves() == distinct_in(
                self.spec_labels(),
                self.spec_labels().len() as int,
            )),
    {
        let mut count: usize = 0;
        let mut i: usize = 0;
        while i < self.labels.len()
            invariant
                i <= self.labels.len(),
                count == distinct_in(self.spec_labels(), i as int),
                count <= i,
            decreases self.labels.len() - i,
        {
            match find_last(&self.labels, &self.labels[i], i) {
                Some(_) => {},
                None => {
                    count = count + 1;
                },
            }
            i = i + 1;
        }
        self.num_leaves == count
    }

    /// The labels, in index order.
    pub fn labels(&self) -> (r: &Vec<String>)
        ensures
            texts(r@) == self.spec_labels(),
    {
        &self.labels
    }

    /// Whether `translation` has as many entries as the map has labels and
    /// translates to labels of the map only.
    pub fn check_consistency_with_translation(&self, translation: &Translation) -> (r: bool)
        ensures
            r == (translation.spec_entries().len() == self.spec_labels().len() && labels_known(
                translation.spec_entries(),
                self.spec_labels(),
            )),
    {
        if translation.len() != self.labels.len() {
            return false;
        }
        let mut j: usize = 0;
        while j < translation.len()
            invariant
                j <= translation.spec_entries().len(),
                forall|k: int|
                    0 <= k < j ==> self.spec_labels().contains(
                        (#[trigger] translation.spec_entries()[k]).1,
                    ),
            decreases translation.spec_entries().len() - j,
        {
            if !self.contains_label(translation.label_at(j).as_str()) {
                assert(!self.spec_labels().contains(translation.spec_entries()[j as int].1));
                return false;
            }
            j = j + 1;
        }
        true
    }
}

impl LabelStorage for LeafLabelMap {
    type LabelRef = LabelIndex;

    closed spec fn spec_labels(&self) -> Seq<Seq<char>> {
        texts(self.labels@)
    }

    /// The reference to a label is its position.
    open spec fn spec_ref(labels: Seq<Seq<char>>, index: int) -> usize {
        index as usize
    }

    proof fn lemma_cloned_ref(a: usize, b: usize) {
    }

    /// An empty map, made for `num_labels` labels.
    fn with_capacity(num_labels: usize) -> (r: Self)
        ensures
            r.spec_num_leaves() == num_labels,
    {
        LeafLabelMap::new(num_labels)
    }

    fn store_and_ref(&mut self, label: &str) -> (r: usize) {
        self.get_or_insert(label)
    }

    fn check_and_ref(&self, label: &str) -> (r: Option<usize>) {
        self.get_index(label)
    }

    fn index_to_ref(&self, index: usize) -> (r: usize) {
        index
    }

    fn num_labels(&self) -> (r: usize) {
        self.labels.len()
    }
}

} // verus!
