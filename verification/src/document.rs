//! The document model: a tree of scalars, sequences and mappings that stands
//! for a configuration document and for a mask alike.

use crate::error::{ErrorKind, SyncError, SyncErrorView};
use vstd::prelude::*;

verus! {

/// A scalar as a mathematical value.
pub enum ScalarView {
    Null,
    Bool(bool),
    Integer(int),
    Number(Seq<char>),
    Text(Seq<char>),
}

/// A document tree as a mathematical value. A mapping is the sequence of its
/// entries, each a key and the tree under it, in the order of declaration.
pub enum Doc {
    Scalar(ScalarView),
    Sequence(Seq<Doc>),
    Mapping(Seq<(Seq<char>, Doc)>),
}

/// The place of the first entry at or after `start` whose key is `key`; the
/// number of entries where there is none.
pub open spec fn index_from(fields: Seq<(Seq<char>, Doc)>, key: Seq<char>, start: int) -> int
    decreases fields.len() - start,
{
    if start < 0 || start >= fields.len() {
        fields.len() as int
    } else if fields[start].0 == key {
        start
    } else {
        index_from(fields, key, start + 1)
    }
}

/// The place of the first entry under `key`; the number of entries where
/// the mapping has none.
pub open spec fn index_of(fields: Seq<(Seq<char>, Doc)>, key: Seq<char>) -> int {
    index_from(fields, key, 0)
}

/// Whether a mapping has an entry under `key`.
pub open spec fn has_key(fields: Seq<(Seq<char>, Doc)>, key: Seq<char>) -> bool {
    index_of(fields, key) < fields.len()
}

/// The tree that a mapping holds under `key`, if it holds one.
pub open spec fn lookup(fields: Seq<(Seq<char>, Doc)>, key: Seq<char>) -> Option<Doc> {
    if has_key(fields, key) {
        Some(fields[index_of(fields, key)].1)
    } else {
        None
    }
}

/// The mapping with `value` under `key`: in the place of the entry that was
/// under `key`, or behind the last entry where there was none.
pub open spec fn with_entry(fields: Seq<(Seq<char>, Doc)>, key: Seq<char>, value: Doc) -> Seq<
    (Seq<char>, Doc),
> {
    if has_key(fields, key) {
        fields.update(index_of(fields, key), (key, value))
    } else {
        fields.push((key, value))
    }
}

/// No two entries of a mapping share a key.
pub open spec fn distinct_keys(fields: Seq<(Seq<char>, Doc)>) -> bool {
    forall|i: int, j: int|
        0 <= i < j < fields.len() ==> (#[trigger] fields[i]).0 != (#[trigger] fields[j]).0
}

/// Every mapping in the tree, at any depth, has distinct keys.
pub open spec fn well_formed(doc: Doc) -> bool
    decreases doc,
{
    match doc {
        Doc::Scalar(_) => true,
        Doc::Sequence(items) => forall|i: int|
            0 <= i < items.len() ==> well_formed(#[trigger] items[i]),
        Doc::Mapping(fields) => well_formed_fields(fields),
    }
}

/// The entries have distinct keys, and so has every mapping below them.
pub open spec fn well_formed_fields(fields: Seq<(Seq<char>, Doc)>) -> bool
    decreases fields,
{
    &&& distinct_keys(fields)
    &&& forall|i: int| 0 <= i < fields.len() ==> well_formed((#[trigger] fields[i]).1)
}

/// `index_of` is the place of the first entry under the key: no entry before
/// it has the key, and the entry there has it, where there is one.
pub proof fn lemma_index_of(fields: Seq<(Seq<char>, Doc)>, key: Seq<char>)
    ensures
        0 <= index_of(fields, key) <= fields.len(),
        has_key(fields, key) ==> fields[index_of(fields, key)].0 == key,
        forall|j: int| 0 <= j < index_of(fields, key) ==> (#[trigger] fields[j]).0 != key,
{
    lemma_index_from(fields, key, 0);
}

/// An entry under the key before which no entry has the key is where
/// `index_of` points.
pub proof fn lemma_index_of_first(fields: Seq<(Seq<char>, Doc)>, key: Seq<char>, at: int)
    requires
        0 <= at < fields.len(),
        fields[at].0 == key,
        forall|j: int| 0 <= j < at ==> (#[trigger] fields[j]).0 != key,
    ensures
        index_of(fields, key) == at,
        lookup(fields, key) == Some(fields[at].1),
{
    lemma_index_of(fields, key);
}

/// Where keys are distinct, every entry is the one found under its key.
pub proof fn lemma_index_of_entry(fields: Seq<(Seq<char>, Doc)>, at: int)
    requires
        distinct_keys(fields),
        0 <= at < fields.len(),
    ensures
        index_of(fields, fields[at].0) == at,
        lookup(fields, fields[at].0) == Some(fields[at].1),
{
    lemma_index_of(fields, fields[at].0);
}

/// Where no entry has the key, the mapping has nothing under it.
pub proof fn lemma_index_of_absent(fields: Seq<(Seq<char>, Doc)>, key: Seq<char>)
    requires
        forall|j: int| 0 <= j < fields.len() ==> (#[trigger] fields[j]).0 != key,
    ensures
        !has_key(fields, key),
        lookup(fields, key) is None,
{
    lemma_index_of(fields, key);
}

/// A mapping has an entry under a key exactly when one of its entries has
/// that key.
pub proof fn lemma_has_key(fields: Seq<(Seq<char>, Doc)>, key: Seq<char>)
    ensures
        has_key(fields, key) <==> exists|i: int|
            0 <= i < fields.len() && (#[trigger] fields[i]).0 == key,
{
    lemma_index_of(fields, key);
    if has_key(fields, key) {
        assert(fields[index_of(fields, key)].0 == key);
    }
}

/// What a mapping with one more entry behind the last holds under a key: what
/// it held before, and the new tree where it held nothing under the key of
/// the new entry.
pub proof fn lemma_lookup_push(
    fields: Seq<(Seq<char>, Doc)>,
    entry: (Seq<char>, Doc),
    key: Seq<char>,
)
    ensures
        lookup(fields.push(entry), key) == if has_key(fields, key) {
            lookup(fields, key)
        } else if entry.0 == key {
            Some(entry.1)
        } else {
            None
        },
{
    let longer = fields.push(entry);
    lemma_index_of(fields, key);
    if has_key(fields, key) {
        let at = index_of(fields, key);
        assert(longer[at] == fields[at]);
        assert forall|j: int| 0 <= j < at implies (#[trigger] longer[j]).0 != key by {
            assert(longer[j] == fields[j]);
        }
        lemma_index_of_first(longer, key, at);
    } else {
        assert forall|j: int| 0 <= j < fields.len() implies (#[trigger] longer[j]).0 != key by {
            assert(longer[j] == fields[j]);
        }
        if entry.0 == key {
            lemma_index_of_first(longer, key, fields.len() as int);
        } else {
            lemma_index_of_absent(longer, key);
        }
    }
}

proof fn lemma_index_from(fields: Seq<(Seq<char>, Doc)>, key: Seq<char>, start: int)
    requires
        0 <= start,
    ensures
        start <= index_from(fields, key, start) || index_from(fields, key, start) == fields.len(),
        0 <= index_from(fields, key, start) <= fields.len(),
        index_from(fields, key, start) < fields.len() ==> fields[index_from(
            fields,
            key,
            start,
        )].0 == key,
        forall|j: int|
            start <= j < index_from(fields, key, start) ==> (#[trigger] fields[j]).0 != key,
    decreases fields.len() - start,
{
    if start < fields.len() && fields[start].0 != key {
        lemma_index_from(fields, key, start + 1);
    }
}

/// A scalar: null, a boolean, a number or a text. An integer that fits `i64`
/// is held as such; any other number is held as the text that writes it.
#[derive(Debug, PartialEq, Eq)]
pub enum Scalar {
    Null,
    Bool(bool),
    Integer(i64),
    Number(String),
    Text(String),
}

/// A node of a document tree.
#[derive(Debug)]
pub enum DocumentNode {
    Scalar(Scalar),
    Sequence(Vec<DocumentNode>),
    Mapping(Mapping),
}

/// A mapping from text keys to nodes. No key occurs twice; the entries keep
/// the order in which they were added.
#[derive(Debug)]
pub struct Mapping {
    entries: Vec<(String, DocumentNode)>,
}

impl View for Scalar {
    type V = ScalarView;

    open spec fn view(&self) -> ScalarView {
        match self {
            Scalar::Null => ScalarView::Null,
            Scalar::Bool(b) => ScalarView::Bool(*b),
            Scalar::Integer(i) => ScalarView::Integer(*i as int),
            Scalar::Number(text) => ScalarView::Number(text@),
            Scalar::Text(text) => ScalarView::Text(text@),
        }
    }
}

/// The trees that a sequence of nodes stands for, in their order.
pub open spec fn nodes_view(items: Seq<DocumentNode>) -> Seq<Doc>
    decreases items,
{
    Seq::new(
        items.len(),
        |i: int|
            if 0 <= i < items.len() {
                items[i]@
            } else {
                Doc::Scalar(ScalarView::Null)
            },
    )
}

/// The entries that a sequence of keys and nodes stands for, in their order.
pub open spec fn entries_view(entries: Seq<(String, DocumentNode)>) -> Seq<(Seq<char>, Doc)>
    decreases entries,
{
    Seq::new(
        entries.len(),
        |i: int|
            if 0 <= i < entries.len() {
                (entries[i].0@, entries[i].1@)
            } else {
                (Seq::empty(), Doc::Scalar(ScalarView::Null))
            },
    )
}

impl View for DocumentNode {
    type V = Doc;

    open spec fn view(&self) -> Doc
        decreases self,
    {
        match self {
            DocumentNode::Scalar(scalar) => Doc::Scalar(scalar@),
            DocumentNode::Sequence(items) => Doc::Sequence(nodes_view(items@)),
            DocumentNode::Mapping(mapping) => Doc::Mapping(mapping@),
        }
    }
}

impl View for Mapping {
    type V = Seq<(Seq<char>, Doc)>;

    closed spec fn view(&self) -> Seq<(Seq<char>, Doc)>
        decreases self,
    {
        entries_view(self.entries@)
    }
}

impl Mapping {
    #[verifier::type_invariant]
    spec fn keys_are_distinct(self) -> bool {
        distinct_keys(self@)
    }

    /// The empty mapping.
    pub fn new() -> (mapping: Mapping)
        ensures
            mapping@ == Seq::<(Seq<char>, Doc)>::empty(),
    {
        let mapping = Mapping { entries: Vec::new() };
        assert(mapping@ =~= Seq::<(Seq<char>, Doc)>::empty());
        mapping
    }

    /// The number of entries.
    pub fn len(&self) -> (n: usize)
        ensures
            n == self@.len(),
    {
        self.entries.len()
    }

    /// Whether the mapping has no entry.
    pub fn is_empty(&self) -> (empty: bool)
        ensures
            empty == (self@.len() == 0),
    {
        self.entries.len() == 0
    }

    /// The entry at `index`, counting from the first that was added.
    pub fn entry(&self, index: usize) -> (found: Option<(&String, &DocumentNode)>)
        ensures
            distinct_keys(self@),
            match found {
                Some((key, value)) => index < self@.len() && (key@, value@) == self@[index as int],
                None => index >= self@.len(),
            },
    {
        proof {
            use_type_invariant(self);
        }
        if index < self.entries.len() {
            let pair = &self.entries[index];
            Some((&pair.0, &pair.1))
        } else {
            None
        }
    }

    /// Where the entry under `key` stands, if there is one.
    pub fn position(&self, key: &str) -> (found: Option<usize>)
        ensures
            match found {
                Some(index) => has_key(self@, key@) && index == index_of(self@, key@),
                None => !has_key(self@, key@),
            },
    {
        let wanted = key.to_owned();
        let mut index: usize = 0;
        while index < self.entries.len()
            invariant
                index <= self@.len(),
                self@.len() == self.entries@.len(),
                wanted@ == key@,
                forall|j: int| 0 <= j < index ==> (#[trigger] self@[j]).0 != key@,
            decreases self.entries.len() - index,
        {
            if self.entries[index].0 == wanted {
                proof {
                    lemma_index_of_first(self@, key@, index as int);
                }
                return Some(index);
            }
            index += 1;
        }
        proof {
            lemma_index_of_absent(self@, key@);
        }
        None
    }

    /// The node under `key`, if there is one.
    pub fn get(&self, key: &str) -> (found: Option<&DocumentNode>)
        ensures
            match found {
                Some(value) => lookup(self@, key@) == Some(value@),
                None => lookup(self@, key@) is None,
            },
    {
        match self.position(key) {
            Some(index) => Some(&self.entries[index].1),
            None => None,
        }
    }

    /// Whether there is an entry under `key`.
    pub fn contains_key(&self, key: &str) -> (present: bool)
        ensures
            present == has_key(self@, key@),
    {
        self.position(key).is_some()
    }

    /// Puts `value` under `key`. An entry that was under `key` keeps its
    /// place and gets the new value; a new key goes behind the last entry.
    pub fn insert(&mut self, key: String, value: DocumentNode)
        ensures
            final(self)@ == with_entry(old(self)@, key@, value@),
    {
        proof {
            use_type_invariant(&*self);
            lemma_index_of(self@, key@);
        }
        let found = self.position(key.as_str());
        let ghost before = self@;
        let mut entries: Vec<(String, DocumentNode)> = Vec::new();
        std::mem::swap(&mut entries, &mut self.entries);
        match found {
            Some(index) => {
                entries.set(index, (key, value));
            },
            None => {
                entries.push((key, value));
            },
        }
        let ghost after = Mapping { entries }@;
        assert(after =~= with_entry(before, key@, value@));
        assert(distinct_keys(after)) by {
            assert forall|i: int, j: int| 0 <= i < j < after.len() implies (#[trigger] after[i]).0
                != (#[trigger] after[j]).0 by {
                if i < before.len() && j < before.len() {
                    assert(before[i].0 != before[j].0);
                }
            }
        }
        self.entries = entries;
    }
}

/// Whether two texts are the same.
pub fn same_text(left: &str, right: &str) -> (same: bool)
    ensures
        same == (left@ == right@),
{
    left.to_owned() == right.to_owned()
}

/// The error of a node that was asked for as a shape that it has not; its
/// words name the shape that was wanted.
pub open spec fn mismatch(wanted: Seq<char>) -> SyncErrorView {
    SyncErrorView { kind: ErrorKind::TypeMismatch, detail: wanted }
}

impl DocumentNode {
    /// The node as a mapping; a type mismatch where it is none.
    pub fn as_mapping(&self) -> (found: Result<&Mapping, SyncError>)
        ensures
            match found {
                Ok(mapping) => self@ == Doc::Mapping(mapping@),
                Err(error) => !(self@ is Mapping) && error@ == mismatch("mapping"@),
            },
    {
        match self {
            DocumentNode::Mapping(mapping) => Ok(mapping),
            _ => Err(SyncError::new(ErrorKind::TypeMismatch, "mapping")),
        }
    }

    /// The node as a sequence; a type mismatch where it is none.
    pub fn as_sequence(&self) -> (found: Result<&Vec<DocumentNode>, SyncError>)
        ensures
            match found {
                Ok(items) => self@ == Doc::Sequence(nodes_view(items@)),
                Err(error) => !(self@ is Sequence) && error@ == mismatch("sequence"@),
            },
    {
        match self {
            DocumentNode::Sequence(items) => Ok(items),
            _ => Err(SyncError::new(ErrorKind::TypeMismatch, "sequence")),
        }
    }

    /// The node as a text; a type mismatch where it is none.
    pub fn as_str(&self) -> (found: Result<&str, SyncError>)
        ensures
            match found {
                Ok(text) => self@ == Doc::Scalar(ScalarView::Text(text@)),
                Err(error) => !(self@ matches Doc::Scalar(ScalarView::Text(_))) && error@
                    == mismatch("text"@),
            },
    {
        match self {
            DocumentNode::Scalar(Scalar::Text(text)) => Ok(text.as_str()),
            _ => Err(SyncError::new(ErrorKind::TypeMismatch, "text")),
        }
    }

    /// The node as an integer; a type mismatch where it is none.
    pub fn as_i64(&self) -> (found: Result<i64, SyncError>)
        ensures
            match found {
                Ok(number) => self@ == Doc::Scalar(ScalarView::Integer(number as int)),
                Err(error) => !(self@ matches Doc::Scalar(ScalarView::Integer(_))) && error@
                    == mismatch("integer"@),
            },
    {
        match self {
            DocumentNode::Scalar(Scalar::Integer(number)) => Ok(*number),
            _ => Err(SyncError::new(ErrorKind::TypeMismatch, "integer")),
        }
    }
}

impl Clone for Scalar {
    fn clone(&self) -> (copy: Scalar)
        ensures
            copy@ == self@,
    {
        match self {
            Scalar::Null => Scalar::Null,
            Scalar::Bool(b) => Scalar::Bool(*b),
            Scalar::Integer(i) => Scalar::Integer(*i),
            Scalar::Number(text) => Scalar::Number(text.clone()),
            Scalar::Text(text) => Scalar::Text(text.clone()),
        }
    }
}

impl Clone for DocumentNode {
    fn clone(&self) -> (copy: DocumentNode)
        ensures
            copy@ == self@,
        decreases self,
    {
        match self {
            DocumentNode::Scalar(scalar) => DocumentNode::Scalar(scalar.clone()),
            DocumentNode::Sequence(items) => DocumentNode::Sequence(clone_nodes(items)),
            DocumentNode::Mapping(mapping) => DocumentNode::Mapping(mapping.clone()),
        }
    }
}

fn clone_nodes(items: &Vec<DocumentNode>) -> (copies: Vec<DocumentNode>)
    ensures
        nodes_view(copies@) == nodes_view(items@),
    decreases items,
{
    let mut copies: Vec<DocumentNode> = Vec::new();
    let mut index: usize = 0;
    while index < items.len()
        invariant
            index <= items.len(),
            copies.len() == index,
            forall|j: int| 0 <= j < index ==> copies[j]@ == items[j]@,
        decreases items.len() - index,
    {
        let copy = items[index].clone();
        copies.push(copy);
        index += 1;
    }
    assert(nodes_view(copies@) =~= nodes_view(items@));
    copies
}

impl Clone for Mapping {
    fn clone(&self) -> (copy: Mapping)
        ensures
            copy@ == self@,
        decreases self,
    {
        proof {
            use_type_invariant(self);
        }
        let mut entries: Vec<(String, DocumentNode)> = Vec::new();
        let mut index: usize = 0;
        while index < self.entries.len()
            invariant
                index <= self.entries.len(),
                entries.len() == index,
                forall|j: int|
                    0 <= j < index ==> entries[j].0@ == self.entries[j].0@ && entries[j].1@
                        == self.entries[j].1@,
            decreases self.entries.len() - index,
        {
            let key = self.entries[index].0.clone();
            let value = self.entries[index].1.clone();
            entries.push((key, value));
            index += 1;
        }
        let ghost copied = Mapping { entries };
        assert(copied@ =~= self@);
        Mapping { entries }
    }
}

} // verus!
