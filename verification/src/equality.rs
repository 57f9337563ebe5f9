//! Equality of documents. Two mappings are equal where they hold equal trees
//! under the same keys, in whatever order.

use crate::document::{
    lemma_index_of_entry, lookup, nodes_view, same_text, well_formed, well_formed_fields, Doc,
    DocumentNode, Mapping, Scalar,
};
use vstd::prelude::*;
use vstd::std_specs::cmp::PartialEqSpecImpl;

verus! {

/// Whether two trees are equal: two scalars where they are the same scalar,
/// two sequences where they are as long and equal place by place, two
/// mappings where they have as many entries and the second holds, under each
/// key of the first, a tree equal to the one that the first holds.
pub open spec fn equivalent(left: Doc, right: Doc) -> bool
    decreases left,
{
    match (left, right) {
        (Doc::Scalar(a), Doc::Scalar(b)) => a == b,
        (Doc::Sequence(a), Doc::Sequence(b)) => equivalent_items(a, b),
        (Doc::Mapping(a), Doc::Mapping(b)) => equivalent_fields(a, b),
        _ => false,
    }
}

/// Whether two sequences are as long and hold equal trees place by place.
pub open spec fn equivalent_items(left: Seq<Doc>, right: Seq<Doc>) -> bool
    decreases left,
{
    &&& left.len() == right.len()
    &&& forall|i: int| 0 <= i < left.len() ==> equivalent(#[trigger] left[i], right[i])
}

/// Whether the tree that `right` holds under the key of the entry is equal to
/// the tree of the entry.
pub open spec fn entry_matches(entry: (Seq<char>, Doc), right: Seq<(Seq<char>, Doc)>) -> bool
    decreases entry,
{
    match lookup(right, entry.0) {
        Some(other) => equivalent(entry.1, other),
        None => false,
    }
}

/// Whether two mappings have as many entries and `right` holds an equal tree
/// under each key of `left`.
pub open spec fn equivalent_fields(
    left: Seq<(Seq<char>, Doc)>,
    right: Seq<(Seq<char>, Doc)>,
) -> bool
    decreases left,
{
    &&& left.len() == right.len()
    &&& forall|i: int| 0 <= i < left.len() ==> entry_matches(#[trigger] left[i], right)
}

/// A well-formed tree is equal to itself.
pub proof fn equivalent_to_itself(tree: Doc)
    requires
        well_formed(tree),
    ensures
        equivalent(tree, tree),
    decreases tree,
{
    match tree {
        Doc::Scalar(_) => {},
        Doc::Sequence(items) => {
            assert forall|i: int| 0 <= i < items.len() implies equivalent(
                #[trigger] items[i],
                items[i],
            ) by {
                equivalent_to_itself(items[i]);
            }
        },
        Doc::Mapping(fields) => {
            assert(well_formed_fields(fields));
            assert forall|i: int| 0 <= i < fields.len() implies entry_matches(
                #[trigger] fields[i],
                fields,
            ) by {
                lemma_index_of_entry(fields, i);
                assert(well_formed(fields[i].1));
                equivalent_to_itself(fields[i].1);
            }
        },
    }
}

/// Whether two scalars are the same.
pub fn same_scalar(left: &Scalar, right: &Scalar) -> (same: bool)
    ensures
        same == (left@ == right@),
{
    match (left, right) {
        (Scalar::Null, Scalar::Null) => true,
        (Scalar::Bool(a), Scalar::Bool(b)) => *a == *b,
        (Scalar::Integer(a), Scalar::Integer(b)) => *a == *b,
        (Scalar::Number(a), Scalar::Number(b)) => same_text(a.as_str(), b.as_str()),
        (Scalar::Text(a), Scalar::Text(b)) => same_text(a.as_str(), b.as_str()),
        _ => false,
    }
}

/// Whether two nodes are equal.
pub fn same_node(left: &DocumentNode, right: &DocumentNode) -> (same: bool)
    ensures
        same == equivalent(left@, right@),
    decreases left@,
{
    match (left, right) {
        (DocumentNode::Scalar(a), DocumentNode::Scalar(b)) => same_scalar(a, b),
        (DocumentNode::Sequence(a), DocumentNode::Sequence(b)) => {
            assert(left@->Sequence_0 == nodes_view(a@));
            same_nodes(a, b)
        },
        (DocumentNode::Mapping(a), DocumentNode::Mapping(b)) => {
            assert(left@->Mapping_0 == a@);
            same_mapping(a, b)
        },
        _ => false,
    }
}

fn same_nodes(left: &Vec<DocumentNode>, right: &Vec<DocumentNode>) -> (same: bool)
    ensures
        same == equivalent_items(nodes_view(left@), nodes_view(right@)),
    decreases nodes_view(left@),
{
    if left.len() != right.len() {
        return false;
    }
    let mut index: usize = 0;
    while index < left.len()
        invariant
            index <= left.len(),
            left.len() == right.len(),
            forall|j: int|
                0 <= j < index ==> equivalent(
                    #[trigger] nodes_view(left@)[j],
                    nodes_view(right@)[j],
                ),
        decreases left.len() - index,
    {
        proof {
            assert(nodes_view(left@)[index as int] == left[index as int]@);
            assert(nodes_view(right@)[index as int] == right[index as int]@);
        }
        if !same_node(&left[index], &right[index]) {
            return false;
        }
        index += 1;
    }
    true
}

/// Whether two mappings are equal.
pub fn same_mapping(left: &Mapping, right: &Mapping) -> (same: bool)
    ensures
        same == equivalent_fields(left@, right@),
    decreases left@,
{
    if left.len() != right.len() {
        return false;
    }
    let mut index: usize = 0;
    while index < left.len()
        invariant
            index <= left@.len(),
            left@.len() == right@.len(),
            forall|j: int| 0 <= j < index ==> entry_matches(#[trigger] left@[j], right@),
        decreases left@.len() - index,
    {
        match left.entry(index) {
            Some((key, value)) => {
                assert(left@[index as int].1 == value@);
                let matched = match right.get(key.as_str()) {
                    Some(other) => same_node(value, other),
                    None => false,
                };
                assert(matched == entry_matches(left@[index as int], right@));
                if !matched {
                    return false;
                }
            },
            None => {},
        }
        index += 1;
    }
    true
}

impl PartialEq for DocumentNode {
    fn eq(&self, other: &DocumentNode) -> (same: bool) {
        same_node(self, other)
    }
}

impl PartialEqSpecImpl for DocumentNode {
    open spec fn obeys_eq_spec() -> bool {
        true
    }

    open spec fn eq_spec(&self, other: &DocumentNode) -> bool {
        equivalent(self@, other@)
    }
}

impl PartialEq for Mapping {
    fn eq(&self, other: &Mapping) -> (same: bool) {
        same_mapping(self, other)
    }
}

impl PartialEqSpecImpl for Mapping {
    open spec fn obeys_eq_spec() -> bool {
        true
    }

    open spec fn eq_spec(&self, other: &Mapping) -> bool {
        equivalent_fields(self@, other@)
    }
}

} // verus!
