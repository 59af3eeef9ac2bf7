//! The store that turns label texts into the references kept in leaves.

use vstd::prelude::*;

verus! {

/// The last position among the first `n` of `labels` that holds `label`, or
/// `-1` when none does.
pub open spec fn last_index_in(labels: Seq<Seq<char>>, label: Seq<char>, n: int) -> int
    decreases n,
{
    if n <= 0 {
        -1
    } else if labels[n - 1] == label {
        n - 1
    } else {
        last_index_in(labels, label, n - 1)
    }
}

/// The last position of `labels` that holds `label`, or `-1`.
pub open spec fn last_index_of(labels: Seq<Seq<char>>, label: Seq<char>) -> int {
    last_index_in(labels, label, labels.len() as int)
}

/// `labels` with `label` stored: unchanged when it is known already, else
/// with `label` added at the end.
pub open spec fn stored(labels: Seq<Seq<char>>, label: Seq<char>) -> Seq<Seq<char>> {
    if labels.contains(label) {
        labels
    } else {
        labels.push(label)
    }
}

/// `last_index_in` names the last holder of `label` among the first `n`.
pub proof fn lemma_last_index_in(labels: Seq<Seq<char>>, label: Seq<char>, n: int)
    requires
        0 <= n <= labels.len(),
    ensures
        -1 <= last_index_in(labels, label, n) < n,
        last_index_in(labels, label, n) >= 0 ==> labels[last_index_in(labels, label, n)] == label,
        forall|k: int| last_index_in(labels, label, n) < k < n ==> #[trigger] labels[k] != label,
    decreases n,
{
    if n > 0 && labels[n - 1] != label {
        lemma_last_index_in(labels, label, n - 1);
    }
}

/// A label is held exactly when it has a last position.
pub proof fn lemma_last_index_of(labels: Seq<Seq<char>>, label: Seq<char>)
    ensures
        labels.contains(label) <==> last_index_of(labels, label) >= 0,
        -1 <= last_index_of(labels, label) < labels.len(),
        last_index_of(labels, label) >= 0 ==> labels[last_index_of(labels, label)] == label,
{
    lemma_last_index_in(labels, label, labels.len() as int);
    if labels.contains(label) {
        let i = choose|i: int| 0 <= i < labels.len() && labels[i] == label;
        assert(labels[i] == label);
    }
}

/// After storing, the label is held, and the position it had before is the
/// position it has.
pub proof fn lemma_stored(labels: Seq<Seq<char>>, label: Seq<char>)
    ensures
        stored(labels, label).contains(label),
        0 <= last_index_of(stored(labels, label), label) < stored(labels, label).len(),
        labels.contains(label) ==> last_index_of(stored(labels, label), label) == last_index_of(
            labels,
            label,
        ),
        !labels.contains(label) ==> last_index_of(stored(labels, label), label) == labels.len(),
{
    lemma_last_index_of(labels, label);
    lemma_last_index_of(stored(labels, label), label);
    if !labels.contains(label) {
        assert(labels.push(label)[labels.len() as int] == label);
    }
}

/// A store of labels that hands out references to them.
///
/// The model of a store is the sequence of the labels it holds. A reference
/// is known by its view, which depends on the position it refers to and on
/// the labels held.
pub trait LabelStorage: Sized {
    /// What a leaf keeps to refer to its label.
    type LabelRef: View + Clone;

    /// The labels held, in the order in which they came.
    spec fn spec_labels(&self) -> Seq<Seq<char>>;

    /// The view of the reference to position `index` of `labels`.
    spec fn spec_ref(labels: Seq<Seq<char>>, index: int) -> <Self::LabelRef as View>::V;

    /// A copy of a reference refers to what the reference refers to.
    proof fn lemma_cloned_ref(a: Self::LabelRef, b: Self::LabelRef)
        requires
            cloned(a, b),
        ensures
            a@ == b@,
    ;

    /// An empty store. `num_labels` is the number of labels to expect.
    fn with_capacity(num_labels: usize) -> (r: Self)
        ensures
            r.spec_labels() == Seq::<Seq<char>>::empty(),
    ;

    /// Stores `label`, unless it is held already, and returns the reference
    /// to it.
    fn store_and_ref(&mut self, label: &str) -> (r: Self::LabelRef)
        ensures
            final(self).spec_labels() == stored(old(self).spec_labels(), label@),
            r@ == Self::spec_ref(
                final(self).spec_labels(),
                last_index_of(final(self).spec_labels(), label@),
            ),
    ;

    /// The reference to `label`, if it is held. The store is not changed.
    fn check_and_ref(&self, label: &str) -> (r: Option<Self::LabelRef>)
        ensures
            r is Some <==> self.spec_labels().contains(label@),
            r matches Some(x) ==> x@ == Self::spec_ref(
                self.spec_labels(),
                last_index_of(self.spec_labels(), label@),
            ),
    ;

    /// The reference to the label at position `index`, counted from zero.
    fn index_to_ref(&self, index: usize) -> (r: Self::LabelRef)
        requires
            index < self.spec_labels().len(),
        ensures
            r@ == Self::spec_ref(self.spec_labels(), index as int),
    ;

    /// The number of labels held.
    fn num_labels(&self) -> (r: usize)
        ensures
            r == self.spec_labels().len(),
    ;
}

/// The texts of `labels`.
pub open spec fn texts(labels: Seq<String>) -> Seq<Seq<char>> {
    Seq::new(labels.len(), |i: int| labels[i]@)
}

/// The last position among the first `n` of `labels` that holds `key`.
pub fn find_last(labels: &Vec<String>, key: &String, n: usize) -> (r: Option<usize>)
    requires
        n <= labels.len(),
    ensures
        match r {
            Some(i) => i == last_index_in(texts(labels@), key@, n as int),
            None => last_index_in(texts(labels@), key@, n as int) == -1,
        },
{
    let mut i: usize = n;
    while i > 0
        invariant
            i <= n <= labels.len(),
            last_index_in(texts(labels@), key@, i as int) == last_index_in(
                texts(labels@),
                key@,
                n as int,
            ),
        decreases i,
    {
        if labels[i - 1] == *key {
            return Some(i - 1);
        }
        i = i - 1;
    }
    None
}

} // verus!
