//! Resolution of the tip labels of a tree to references into a label store.

use vstd::prelude::*;
use vstd::string::*;
use crate::model::label_storage::LabelStorage;
use crate::model::label_storage::last_index_of;
use crate::model::label_storage::stored;
use crate::model::leaf_label_map::labels_known;
use crate::model::translation::Entry;
use crate::model::translation::Translation;
use crate::parser::number::decimal_digits;
use crate::parser::number::parse_unsigned;
use crate::parser::number::push_decimal;
use crate::parser::number::unsigned_of;

verus! {

/// Why a label did not resolve.
#[derive(Debug)]
pub struct LabelResolvingError(pub String);

impl View for LabelResolvingError {
    type V = Seq<char>;

    open spec fn view(&self) -> Seq<char> {
        self.0@
    }
}

impl LabelResolvingError {
    /// The reason, in words.
    pub fn message(&self) -> (r: &String)
        ensures
            r@ == self@,
    {
        &self.0
    }
}

/// What resolving a label comes to.
pub ghost enum Resolution<RV> {
    /// The label resolves to the reference with this view.
    Resolved(RV),
    /// The label is a number that names no position of the taxon list.
    OutOfBounds { index: usize, max: usize },
    /// The label is no number, and only numbers are resolved.
    NotInteger,
    /// The label is neither a key, nor a position, nor a taxon label.
    Unknown,
}

/// What a resolver resolves by, apart from the labels of its store.
pub ghost enum ResolverModel<RV> {
    /// Labels are stored as they are.
    Verbatim,
    /// Keys and the views of the references they stand for.
    Table(Seq<(Seq<char>, RV)>),
    /// The views of the references that the numbers from one on stand for.
    Array(Seq<RV>),
}

/// The position among the first `n` pairs whose key is `key`, or `-1`.
pub open spec fn pair_index_in<RV>(pairs: Seq<(Seq<char>, RV)>, key: Seq<char>, n: int) -> int
    decreases n,
{
    if n <= 0 {
        -1
    } else if pairs[n - 1].0 == key {
        n - 1
    } else {
        pair_index_in(pairs, key, n - 1)
    }
}

/// The position of the pair whose key is `key`, or `-1`.
pub open spec fn pair_index<RV>(pairs: Seq<(Seq<char>, RV)>, key: Seq<char>) -> int {
    pair_index_in(pairs, key, pairs.len() as int)
}

/// `pair_index_in` stays among the first `n` pairs and names one with that
/// key.
pub proof fn lemma_pair_index_in<RV>(pairs: Seq<(Seq<char>, RV)>, key: Seq<char>, n: int)
    requires
        0 <= n <= pairs.len(),
    ensures
        -1 <= pair_index_in(pairs, key, n) < n,
        pair_index_in(pairs, key, n) >= 0 ==> pairs[pair_index_in(pairs, key, n)].0 == key,
    decreases n,
{
    if n > 0 && pairs[n - 1].0 != key {
        lemma_pair_index_in(pairs, key, n - 1);
    }
}

/// The labels of a store after `token` was resolved: a verbatim resolver
/// stores it, the others leave the store as it is.
pub open spec fn labels_after<RV>(
    model: ResolverModel<RV>,
    labels: Seq<Seq<char>>,
    token: Seq<char>,
) -> Seq<Seq<char>> {
    match model {
        ResolverModel::Verbatim => stored(labels, token),
        _ => labels,
    }
}

/// What resolving `token` comes to, over a store that holds `labels`. For a
/// table the three stages apply in their order, and the first that succeeds
/// decides: key of the table, position in the taxon list, taxon label.
pub open spec fn resolve_in<S: LabelStorage>(
    model: ResolverModel<<S::LabelRef as View>::V>,
    labels: Seq<Seq<char>>,
    token: Seq<char>,
) -> Resolution<<S::LabelRef as View>::V> {
    match model {
        ResolverModel::Verbatim => Resolution::Resolved(
            S::spec_ref(stored(labels, token), last_index_of(stored(labels, token), token)),
        ),
        ResolverModel::Table(pairs) => {
            if pair_index(pairs, token) >= 0 {
                Resolution::Resolved(pairs[pair_index(pairs, token)].1)
            } else {
                match unsigned_of(token) {
                    Some(k) => if k == 0 || k > labels.len() {
                        Resolution::OutOfBounds { index: k, max: labels.len() as usize }
                    } else {
                        Resolution::Resolved(S::spec_ref(labels, k - 1))
                    },
                    None => if labels.contains(token) {
                        Resolution::Resolved(S::spec_ref(labels, last_index_of(labels, token)))
                    } else {
                        Resolution::Unknown
                    },
                }
            }
        },
        ResolverModel::Array(refs) => match unsigned_of(token) {
            Some(k) => if k == 0 || k > refs.len() {
                Resolution::OutOfBounds { index: k, max: refs.len() as usize }
            } else {
                Resolution::Resolved(refs[k - 1])
            },
            None => Resolution::NotInteger,
        },
    }
}

/// The words in which a failure to resolve `token` is reported.
pub open spec fn resolution_message<RV>(resolution: Resolution<RV>, token: Seq<char>) -> Seq<
    char,
> {
    match resolution {
        Resolution::Resolved(_) => Seq::empty(),
        Resolution::OutOfBounds { index, max } => "Label index "@ + decimal_digits(index as nat)
            + " out of bounds (1-based indexing, valid range: 1-"@ + decimal_digits(max as nat)
            + ")"@,
        Resolution::NotInteger => "Resolver requires integer labels, got '"@ + token + "'"@,
        Resolution::Unknown => "Resolver could not resolve "@ + token,
    }
}

/// A key of the table decides, whatever else the label could be read as: a
/// label that is a key resolves to what the key stands for, also where it is
/// a number or a taxon label as well.
pub proof fn lemma_table_key_wins<S: LabelStorage>(
    pairs: Seq<(Seq<char>, <S::LabelRef as View>::V)>,
    labels: Seq<Seq<char>>,
    token: Seq<char>,
)
    requires
        pair_index(pairs, token) >= 0,
    ensures
        resolve_in::<S>(ResolverModel::Table(pairs), labels, token) == Resolution::Resolved(
            pairs[pair_index(pairs, token)].1,
        ),
        pairs[pair_index(pairs, token)].0 == token,
{
    lemma_pair_index_in(pairs, token, pairs.len() as int);
}

/// The keys and reference views of a table.
pub open spec fn pairs_model<R: View>(pairs: Seq<(String, R)>) -> Seq<(Seq<char>, R::V)> {
    Seq::new(pairs.len(), |i: int| (pairs[i].0@, pairs[i].1@))
}

/// The reference views of an array.
pub open spec fn refs_model<R: View>(refs: Seq<R>) -> Seq<R::V> {
    Seq::new(refs.len(), |i: int| refs[i]@)
}

/// Whether the number `number` is among the first `n` keys of `entries`.
pub open spec fn is_key_in(entries: Seq<Entry>, number: int, n: int) -> bool {
    exists|j: int| 0 <= j < n && #[trigger] unsigned_of(entries[j].0) == Some(number as usize)
}

/// Whether the number `number` is a key of `entries`.
pub open spec fn is_key(entries: Seq<Entry>, number: int) -> bool {
    is_key_in(entries, number, entries.len() as int)
}

/// Whether `slot` is filled with a reference of view `view`.
pub open spec fn slot_holds<S: LabelStorage>(
    slot: Option<S::LabelRef>,
    view: <S::LabelRef as View>::V,
) -> bool {
    slot is Some && slot->0@ == view
}

/// Whether every key of `entries` is a number from one up to `n`, no two keys
/// are one number, every number from one to `n` is a key, and every label
/// translated to is among `labels`.
pub open spec fn integer_table_ok(entries: Seq<Entry>, labels: Seq<Seq<char>>) -> bool {
    &&& labels_known(entries, labels)
    &&& forall|j: int|
        0 <= j < entries.len() ==> unsigned_of((#[trigger] entries[j]).0) is Some && 1
            <= unsigned_of(entries[j].0)->0 <= labels.len()
    &&& forall|i: int, j: int|
        0 <= i < j < entries.len() ==> unsigned_of((#[trigger] entries[i]).0) != unsigned_of(
            (#[trigger] entries[j]).0,
        )
    &&& forall|p: int| 0 <= p < labels.len() ==> #[trigger] is_key(entries, p + 1)
}

/// Turns the tip labels of a tree into references to the labels of a store,
/// in one of three ways, chosen once for a run.
#[derive(Debug)]
pub enum LabelResolver<S: LabelStorage> {
    /// Every label is stored as it is and resolves to itself.
    VerbatimLabels(S),
    /// A label resolves as a key of the table, else as a position of the
    /// taxon list counted from one, else as a taxon label.
    NexusLabels { index_map: Vec<(String, S::LabelRef)>, storage: S },
    /// A label resolves as a position of the array, counted from one.
    NexusIntegerLabels { index_array: Vec<S::LabelRef>, storage: S },
}

impl<S: LabelStorage> LabelResolver<S> {
    /// The store that the resolver owns.
    pub open spec fn spec_storage(&self) -> S {
        match self {
            LabelResolver::VerbatimLabels(storage) => *storage,
            LabelResolver::NexusLabels { storage, .. } => *storage,
            LabelResolver::NexusIntegerLabels { storage, .. } => *storage,
        }
    }

    /// The labels of the store.
    pub open spec fn spec_labels(&self) -> Seq<Seq<char>> {
        self.spec_storage().spec_labels()
    }

    /// What the resolver resolves by.
    pub open spec fn spec_model(&self) -> ResolverModel<<S::LabelRef as View>::V> {
        match self {
            LabelResolver::VerbatimLabels(_) => ResolverModel::Verbatim,
            LabelResolver::NexusLabels { index_map, .. } => ResolverModel::Table(
                pairs_model(index_map@),
            ),
            LabelResolver::NexusIntegerLabels { index_array, .. } => ResolverModel::Array(
                refs_model(index_array@),
            ),
        }
    }

    /// What resolving `token` comes to.
    pub open spec fn spec_resolve(&self, token: Seq<char>) -> Resolution<
        <S::LabelRef as View>::V,
    > {
        resolve_in::<S>(self.spec_model(), self.spec_labels(), token)
    }

    /// A resolver that stores every label as it is.
    pub fn new_verbatim_labels_resolver(storage: S) -> (r: Self)
        ensures
            r == LabelResolver::VerbatimLabels(storage),
    {
        LabelResolver::VerbatimLabels(storage)
    }

    /// The table that maps each key of `translation` to the reference of the
    /// label it stands for, if `storage` holds every such label.
    pub fn label_table(translation: &Translation, storage: &S) -> (r: Option<
        Vec<(String, S::LabelRef)>,
    >)
        ensures
            r is Some <==> labels_known(translation.spec_entries(), storage.spec_labels()),
            r matches Some(table) ==> {
                &&& table@.len() == translation.spec_entries().len()
                &&& forall|j: int|
                    0 <= j < table@.len() ==> {
                        &&& (#[trigger] table@[j]).0@ == translation.spec_entries()[j].0
                        &&& table@[j].1@ == S::spec_ref(
                            storage.spec_labels(),
                            last_index_of(storage.spec_labels(), translation.spec_entries()[j].1),
                        )
                    }
            },
    {
        let mut table: Vec<(String, S::LabelRef)> = Vec::with_capacity(translation.len());
        let mut j: usize = 0;
        while j < translation.len()
            invariant
                j <= translation.spec_entries().len(),
                table@.len() == j,
                forall|k: int|
                    0 <= k < j ==> {
                        &&& (#[trigger] table@[k]).0@ == translation.spec_entries()[k].0
                        &&& table@[k].1@ == S::spec_ref(
                            storage.spec_labels(),
                            last_index_of(storage.spec_labels(), translation.spec_entries()[k].1),
                        )
                    },
                forall|k: int|
                    0 <= k < j ==> storage.spec_labels().contains(
                        (#[trigger] translation.spec_entries()[k]).1,
                    ),
            decreases translation.spec_entries().len() - j,
        {
            match storage.check_and_ref(translation.label_at(j).as_str()) {
                Some(label_ref) => {
                    table.push((translation.key_at(j).clone(), label_ref));
                },
                None => {
                    assert(!storage.spec_labels().contains(translation.spec_entries()[j as int].1));
                    return None;
                },
            }
            j = j + 1;
        }
        Some(table)
    }

    /// A resolver that looks labels up as keys of `translation` first.
    pub fn new_nexus_labels_resolver(translation: Translation, storage: S) -> (r: Self)
        requires
            labels_known(translation.spec_entries(), storage.spec_labels()),
        ensures
            r matches LabelResolver::NexusLabels { index_map, storage: kept } && kept == storage
                && index_map@.len() == translation.spec_entries().len() && forall|j: int|
                0 <= j < index_map@.len() ==> {
                    &&& (#[trigger] index_map@[j]).0@ == translation.spec_entries()[j].0
                    &&& index_map@[j].1@ == S::spec_ref(
                        storage.spec_labels(),
                        last_index_of(storage.spec_labels(), translation.spec_entries()[j].1),
                    )
                },
    {
        let index_map = Self::label_table(&translation, &storage).unwrap();
        LabelResolver::NexusLabels { index_map, storage }
    }

    /// The array that holds, at the position before each number, the
    /// reference of the label that the number stands for in `translation`, if
    /// the table is fit for that.
    pub fn integer_table(translation: &Translation, storage: &S) -> (r: Option<Vec<S::LabelRef>>)
        ensures
            r is Some <==> integer_table_ok(translation.spec_entries(), storage.spec_labels()),
            r matches Some(array) ==> {
                &&& array@.len() == storage.spec_labels().len()
                &&& forall|j: int|
                    0 <= j < translation.spec_entries().len() ==> (#[trigger] array@[unsigned_of(
                        translation.spec_entries()[j].0,
                    )->0 - 1])@ == S::spec_ref(
                        storage.spec_labels(),
                        last_index_of(storage.spec_labels(), translation.spec_entries()[j].1),
                    )
            },
    {
        let ghost entries = translation.spec_entries();
        let ghost labels = storage.spec_labels();
        let n: usize = storage.num_labels();
        let mut slots: Vec<Option<S::LabelRef>> = Vec::new();
        let mut p: usize = 0;
        while p < n
            invariant
                p <= n,
                slots@.len() == p,
                forall|q: int| 0 <= q < p ==> (#[trigger] slots@[q]) is None,
            decreases n - p,
        {
            slots.push(None);
            p = p + 1;
        }
        let mut j: usize = 0;
        while j < translation.len()
            invariant
                entries == translation.spec_entries(),
                labels == storage.spec_labels(),
                n == labels.len(),
                j <= entries.len(),
                slots@.len() == n,
                forall|k: int|
                    0 <= k < j ==> labels.contains((#[trigger] entries[k]).1) && unsigned_of(
                        entries[k].0,
                    ) is Some && 1 <= unsigned_of(entries[k].0)->0 <= n,
                forall|a: int, b: int|
                    0 <= a < b < j ==> unsigned_of((#[trigger] entries[a]).0) != unsigned_of(
                        (#[trigger] entries[b]).0,
                    ),
                forall|q: int|
                    0 <= q < n ==> ((#[trigger] slots@[q]) is Some <==> is_key_in(
                        entries,
                        q + 1,
                        j as int,
                    )),
                forall|k: int|
                    0 <= k < j ==> slot_holds::<S>(
                        #[trigger] slots@[unsigned_of(entries[k].0)->0 - 1],
                        S::spec_ref(labels, last_index_of(labels, entries[k].1)),
                    ),
            decreases entries.len() - j,
        {
            let number = parse_unsigned(translation.key_at(j).as_str());
            let value: usize = match number {
                Some(v) => v,
                None => {
                    assert(unsigned_of(entries[j as int].0) is None);
                    return None;
                },
            };
            if value == 0 || value > n {
                assert(!(1 <= unsigned_of(entries[j as int].0)->0 <= n));
                return None;
            }
            let label_ref = match storage.check_and_ref(translation.label_at(j).as_str()) {
                Some(r) => r,
                None => {
                    assert(!labels.contains(entries[j as int].1));
                    return None;
                },
            };
            if slots[value - 1].is_some() {
                proof {
                    let k = choose|k: int|
                        0 <= k < j && #[trigger] unsigned_of(entries[k].0) == Some(value);
                    assert(unsigned_of(entries[k].0) == unsigned_of(entries[j as int].0));
                }
                return None;
            }
            let ghost before = slots@;
            slots.set(value - 1, Some(label_ref));
            proof {
                assert forall|q: int| 0 <= q < n implies ((#[trigger] slots@[q]) is Some
                    <==> is_key_in(entries, q + 1, j + 1)) by {
                    if q == value - 1 {
                        assert(unsigned_of(entries[j as int].0) == Some((q + 1) as usize));
                    } else {
                        if before[q] is Some {
                            let k = choose|k: int|
                                0 <= k < j && #[trigger] unsigned_of(entries[k].0) == Some(
                                    (q + 1) as usize,
                                );
                            assert(0 <= k < j + 1 && unsigned_of(entries[k].0) == Some(
                                (q + 1) as usize,
                            ));
                        }
                    }
                }
                assert forall|k: int| 0 <= k < j + 1 implies slot_holds::<S>(
                    #[trigger] slots@[unsigned_of(entries[k].0)->0 - 1],
                    S::spec_ref(labels, last_index_of(labels, entries[k].1)),
                ) by {
                    if k < j {
                        assert(unsigned_of(entries[k].0) != unsigned_of(entries[j as int].0)) by {
                            let q = unsigned_of(entries[k].0)->0 - 1;
                            assert(before[q] is Some);
                        }
                        assert(slot_holds::<S>(
                            before[unsigned_of(entries[k].0)->0 - 1],
                            S::spec_ref(labels, last_index_of(labels, entries[k].1)),
                        ));
                    }
                }
                assert forall|a: int, b: int| 0 <= a < b < j + 1 implies unsigned_of(
                    (#[trigger] entries[a]).0,
                ) != unsigned_of((#[trigger] entries[b]).0) by {
                    if b == j {
                        let q = unsigned_of(entries[a].0)->0 - 1;
                        assert(before[q] is Some);
                    }
                }
            }
            j = j + 1;
        }
        let mut array: Vec<S::LabelRef> = Vec::with_capacity(n);
        let mut q: usize = 0;
        while q < n
            invariant
                q <= n,
                slots@.len() == n,
                array@.len() == q,
                entries == translation.spec_entries(),
                labels == storage.spec_labels(),
                n == labels.len(),
                forall|i: int| 0 <= i < q ==> slot_holds::<S>(#[trigger] slots@[i], array@[i]@),
                forall|k: int|
                    0 <= k < entries.len() ==> labels.contains((#[trigger] entries[k]).1)
                        && unsigned_of(entries[k].0) is Some && 1 <= unsigned_of(entries[k].0)->0
                        <= n,
                forall|a: int, b: int|
                    0 <= a < b < entries.len() ==> unsigned_of((#[trigger] entries[a]).0)
                        != unsigned_of((#[trigger] entries[b]).0),
                forall|i: int|
                    0 <= i < n ==> ((#[trigger] slots@[i]) is Some <==> is_key(entries, i + 1)),
                forall|k: int|
                    0 <= k < entries.len() ==> slot_holds::<S>(
                        #[trigger] slots@[unsigned_of(entries[k].0)->0 - 1],
                        S::spec_ref(labels, last_index_of(labels, entries[k].1)),
                    ),
            decreases n - q,
        {
            match slots[q].clone() {
                Some(r) => {
                    proof {
                        S::lemma_cloned_ref(slots@[q as int]->0, r);
                    }
                    array.push(r);
                },
                None => {
                    assert(slots@[q as int] is None);
                    assert(!is_key(entries, q + 1));
                    return None;
                },
            }
            q = q + 1;
        }
        proof {
            assert forall|p: int| 0 <= p < labels.len() implies #[trigger] is_key(
                entries,
                p + 1,
            ) by {
                assert(slot_holds::<S>(slots@[p], array@[p]@));
            }
            assert forall|k: int| 0 <= k < entries.len() implies (#[trigger] array@[unsigned_of(
                entries[k].0,
            )->0 - 1])@ == S::spec_ref(labels, last_index_of(labels, entries[k].1)) by {
                let at = unsigned_of(entries[k].0)->0 - 1;
                assert(slot_holds::<S>(slots@[at], array@[at]@));
                assert(slot_holds::<S>(
                    slots@[at],
                    S::spec_ref(labels, last_index_of(labels, entries[k].1)),
                ));
            }
        }
        Some(array)
    }

    /// A resolver that reads every label as a position of the array built
    /// from `translation`.
    pub fn new_nexus_integer_labels_resolver(translation: Translation, storage: S) -> (r: Self)
        requires
            integer_table_ok(translation.spec_entries(), storage.spec_labels()),
        ensures
            r matches LabelResolver::NexusIntegerLabels { index_array, storage: kept } && kept
                == storage && index_array@.len() == storage.spec_labels().len() && forall|j: int|
                0 <= j < translation.spec_entries().len() ==> (#[trigger] index_array@[unsigned_of(
                    translation.spec_entries()[j].0,
                )->0 - 1])@ == S::spec_ref(
                    storage.spec_labels(),
                    last_index_of(storage.spec_labels(), translation.spec_entries()[j].1),
                ),
    {
        let index_array = Self::integer_table(&translation, &storage).unwrap();
        LabelResolver::NexusIntegerLabels { index_array, storage }
    }

    /// Resolves `parsed_label`.
    ///
    /// A verbatim resolver stores the label and always succeeds. A table
    /// resolver tries the label as a key, as a position and as a taxon label,
    /// in this order. An array resolver reads it as a position only.
    pub fn resolve_label(&mut self, parsed_label: &str) -> (r: Result<
        S::LabelRef,
        LabelResolvingError,
    >)
        ensures
            final(self).spec_model() == old(self).spec_model(),
            final(self).spec_labels() == labels_after(
                old(self).spec_model(),
                old(self).spec_labels(),
                parsed_label@,
            ),
            !(*old(self) is VerbatimLabels) ==> *final(self) == *old(self),
            match r {
                Ok(x) => old(self).spec_resolve(parsed_label@) == Resolution::Resolved(x@),
                Err(e) => !(old(self).spec_resolve(parsed_label@) is Resolved) && e@
                    == resolution_message(old(self).spec_resolve(parsed_label@), parsed_label@),
            },
    {
        match self {
            LabelResolver::VerbatimLabels(storage) => Ok(storage.store_and_ref(parsed_label)),
            LabelResolver::NexusLabels { index_map, storage } => {
                let key = parsed_label.to_owned();
                proof {
                    lemma_pair_index_in(
                        pairs_model(index_map@),
                        key@,
                        index_map@.len() as int,
                    );
                }
                match find_pair::<S>(index_map, &key) {
                    Some(at) => {
                        let found = index_map[at].1.clone();
                        proof {
                            S::lemma_cloned_ref(index_map@[at as int].1, found);
                        }
                        return Ok(found);
                    },
                    None => {},
                }
                let count: usize = storage.num_labels();
                match parse_unsigned(parsed_label) {
                    Some(nexus_index) => {
                        if nexus_index == 0 || nexus_index > count {
                            return Err(out_of_bounds_error(nexus_index, count));
                        }
                        return Ok(storage.index_to_ref(nexus_index - 1));
                    },
                    None => {},
                }
                match storage.check_and_ref(parsed_label) {
                    Some(found) => Ok(found),
                    None => {
                        let mut message = String::from_str("Resolver could not resolve ");
                        message.append(parsed_label);
                        Err(LabelResolvingError(message))
                    },
                }
            },
            LabelResolver::NexusIntegerLabels { index_array, .. } => {
                match parse_unsigned(parsed_label) {
                    Some(nexus_index) => {
                        if nexus_index == 0 || nexus_index > index_array.len() {
                            return Err(out_of_bounds_error(nexus_index, index_array.len()));
                        }
                        let found = index_array[nexus_index - 1].clone();
                        proof {
                            S::lemma_cloned_ref(index_array@[nexus_index - 1], found);
                        }
                        Ok(found)
                    },
                    None => {
                        let mut message = String::from_str("Resolver requires integer labels, got '");
                        message.append(parsed_label);
                        message.append("'");
                        Err(LabelResolvingError(message))
                    },
                }
            },
        }
    }

    /// Gives up the resolver for the store it owns.
    pub fn into_label_storage(self) -> (r: S)
        ensures
            r == self.spec_storage(),
    {
        match self {
            LabelResolver::VerbatimLabels(storage) => storage,
            LabelResolver::NexusLabels { storage, .. } => storage,
            LabelResolver::NexusIntegerLabels { storage, .. } => storage,
        }
    }

    /// The store that the resolver owns.
    pub fn label_storage(&self) -> (r: &S)
        ensures
            *r == self.spec_storage(),
    {
        match self {
            LabelResolver::VerbatimLabels(storage) => storage,
            LabelResolver::NexusLabels { storage, .. } => storage,
            LabelResolver::NexusIntegerLabels { storage, .. } => storage,
        }
    }
}

/// The position of the pair whose key is `key`.
fn find_pair<S: LabelStorage>(pairs: &Vec<(String, S::LabelRef)>, key: &String) -> (r: Option<
    usize,
>)
    ensures
        match r {
            Some(i) => i == pair_index(pairs_model(pairs@), key@) && i < pairs@.len(),
            None => pair_index(pairs_model(pairs@), key@) == -1,
        },
{
    let mut i: usize = pairs.len();
    while i > 0
        invariant
            i <= pairs@.len(),
            pair_index_in(pairs_model(pairs@), key@, i as int) == pair_index(
                pairs_model(pairs@),
                key@,
            ),
        decreases i,
    {
        if pairs[i - 1].0 == *key {
            return Some(i - 1);
        }
        i = i - 1;
    }
    None
}

/// The error for a number that names no position.
fn out_of_bounds_error(index: usize, max: usize) -> (r: LabelResolvingError)
    ensures
        r@ == "Label index "@ + decimal_digits(index as nat)
            + " out of bounds (1-based indexing, valid range: 1-"@ + decimal_digits(max as nat)
            + ")"@,
{
    let mut message = String::from_str("Label index ");
    push_decimal(&mut message, index);
    message.append(" out of bounds (1-based indexing, valid range: 1-");
    push_decimal(&mut message, max);
    message.append(")");
    LabelResolvingError(message)
}

} // verus!
