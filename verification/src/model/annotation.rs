//! Annotations of vertices: typed values under keys.

use vstd::prelude::*;
use vstd::string::*;

verus! {

/// The value of an annotation. A number with a fraction or an exponent is
/// kept as it was written.
#[derive(Debug)]
pub enum AnnotationValue {
    /// A decimal number that is no whole number, as written.
    Float(String),
    /// A whole number.
    Int(i64),
    /// Any other text.
    String(String),
}

/// The mathematical content of an `AnnotationValue`.
pub ghost enum ValueModel {
    Float(Seq<char>),
    Int(i64),
    String(Seq<char>),
}

impl View for AnnotationValue {
    type V = ValueModel;

    open spec fn view(&self) -> ValueModel {
        match self {
            AnnotationValue::Float(text) => ValueModel::Float(text@),
            AnnotationValue::Int(n) => ValueModel::Int(*n),
            AnnotationValue::String(text) => ValueModel::String(text@),
        }
    }
}

/// One annotation: a key, the position of a vertex, and a value.
pub type Note = (Seq<char>, usize, ValueModel);

/// The value that the last of the first `n` notes gives to `key` at vertex
/// `vertex`.
pub open spec fn note_in(notes: Seq<Note>, key: Seq<char>, vertex: usize, n: int) -> Option<
    ValueModel,
>
    decreases n,
{
    if n <= 0 {
        None
    } else if notes[n - 1].0 == key && notes[n - 1].1 == vertex {
        Some(notes[n - 1].2)
    } else {
        note_in(notes, key, vertex, n - 1)
    }
}

/// The value that `notes` give to `key` at vertex `vertex`: that of the last
/// note for both.
pub open spec fn note_of(notes: Seq<Note>, key: Seq<char>, vertex: usize) -> Option<ValueModel> {
    note_in(notes, key, vertex, notes.len() as int)
}

/// Whether one of the first `n` notes is for `key`.
pub open spec fn key_noted_in(notes: Seq<Note>, key: Seq<char>, n: int) -> bool
    decreases n,
{
    if n <= 0 {
        false
    } else {
        notes[n - 1].0 == key || key_noted_in(notes, key, n - 1)
    }
}

/// The annotations of the vertices of a tree: for each key, a value for some
/// of the vertices. A later annotation of one vertex under one key replaces
/// an earlier one.
#[derive(Debug)]
pub struct Annotations {
    notes: Vec<(String, usize, AnnotationValue)>,
    num_vertices: usize,
}

impl View for Annotations {
    type V = Seq<Note>;

    closed spec fn view(&self) -> Seq<Note> {
        Seq::new(
            self.notes@.len(),
            |i: int| (self.notes@[i].0@, self.notes@[i].1, self.notes@[i].2@),
        )
    }
}

impl Annotations {
    /// The number of vertices that the per-key arrays cover.
    pub closed spec fn spec_num_vertices(&self) -> usize {
        self.num_vertices
    }

    /// No annotations, for a tree of `num_vertices` vertices.
    pub fn new(num_vertices: usize) -> (r: Self)
        ensures
            r@ == Seq::<Note>::empty(),
            r.spec_num_vertices() == num_vertices,
    {
        let r = Annotations { notes: Vec::new(), num_vertices };
        assert(r@ =~= Seq::<Note>::empty());
        r
    }

    /// The position of the last note for `key` and `vertex_index` among the
    /// first `n`.
    fn find(&self, key: &String, vertex_index: usize) -> (r: Option<usize>)
        ensures
            match r {
                Some(i) => i < self@.len() && note_of(self@, key@, vertex_index) == Some(
                    self@[i as int].2,
                ),
                None => note_of(self@, key@, vertex_index) is None,
            },
    {
        let mut i: usize = self.notes.len();
        while i > 0
            invariant
                i <= self@.len(),
                note_in(self@, key@, vertex_index, i as int) == note_of(self@, key@, vertex_index),
            decreases i,
        {
            if self.notes[i - 1].1 == vertex_index && self.notes[i - 1].0 == *key {
                return Some(i - 1);
            }
            i = i - 1;
        }
        None
    }

    /// The value under `key` at vertex `vertex_index`, if there is one.
    pub fn get(&self, key: &str, vertex_index: usize) -> (r: Option<&AnnotationValue>)
        ensures
            r is Some == note_of(self@, key@, vertex_index) is Some,
            r matches Some(v) ==> Some(v@) == note_of(self@, key@, vertex_index),
    {
        let owned = key.to_owned();
        match self.find(&owned, vertex_index) {
            Some(i) => Some(&self.notes[i].2),
            None => None,
        }
    }

    /// Whether any vertex has a value under `key`.
    pub fn has_key(&self, key: &str) -> (r: bool)
        ensures
            r == key_noted_in(self@, key@, self@.len() as int),
    {
        let owned = key.to_owned();
        let mut i: usize = self.notes.len();
        while i > 0
            invariant
                i <= self@.len(),
                owned@ == key@,
                key_noted_in(self@, key@, i as int) == key_noted_in(
                    self@,
                    key@,
                    self@.len() as int,
                ),
            decreases i,
        {
            if self.notes[i - 1].0 == owned {
                return true;
            }
            i = i - 1;
        }
        false
    }

    /// The values under `key`, one per vertex, where any vertex has one.
    pub fn get_all_for_key(&self, key: &str) -> (r: Option<Vec<Option<&AnnotationValue>>>)
        ensures
            r is Some == key_noted_in(self@, key@, self@.len() as int),
            r matches Some(column) ==> {
                &&& column@.len() == self.spec_num_vertices()
                &&& forall|i: int|
                    0 <= i < column@.len() ==> match #[trigger] column@[i] {
                        Some(v) => Some(v@) == note_of(self@, key@, i as usize),
                        None => note_of(self@, key@, i as usize) is None,
                    }
            },
    {
        if !self.has_key(key) {
            return None;
        }
        let owned = key.to_owned();
        let mut column: Vec<Option<&AnnotationValue>> = Vec::new();
        let mut v: usize = 0;
        while v < self.num_vertices
            invariant
                v <= self.num_vertices,
                owned@ == key@,
                column@.len() == v,
                forall|i: int|
                    0 <= i < v ==> match #[trigger] column@[i] {
                        Some(x) => Some(x@) == note_of(self@, key@, i as usize),
                        None => note_of(self@, key@, i as usize) is None,
                    },
            decreases self.num_vertices - v,
        {
            match self.find(&owned, v) {
                Some(i) => {
                    column.push(Some(&self.notes[i].2));
                },
                None => {
                    column.push(None);
                },
            }
            v = v + 1;
        }
        Some(column)
    }

    /// Puts `value` under `key` at vertex `vertex_index`. The per-key arrays
    /// grow to cover the vertex.
    pub fn add(&mut self, key: String, vertex_index: usize, value: AnnotationValue)
        ensures
            final(self)@ == old(self)@.push((key@, vertex_index, value@)),
            final(self).spec_num_vertices() == (if vertex_index < old(self).spec_num_vertices()
                || vertex_index == usize::MAX {
                old(self).spec_num_vertices()
            } else {
                (vertex_index + 1) as usize
            }),
    {
        if vertex_index >= self.num_vertices && vertex_index < usize::MAX {
            self.num_vertices = vertex_index + 1;
        }
        self.notes.push((key, vertex_index, value));
        assert(self@ =~= old(self)@.push((key@, vertex_index, value@)));
    }
}

} // verus!
