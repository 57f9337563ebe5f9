//! The mask engine: what is left of a document once the subtrees that a mask
//! names are taken out.

use crate::document::{
    distinct_keys, has_key, lemma_has_key, lemma_index_of_absent, lemma_index_of_entry,
    lemma_lookup_push, lookup, well_formed, well_formed_fields, Doc, DocumentNode, Mapping,
};
use vstd::prelude::*;

verus! {

/// What is kept of the tree under one key of a document. `rule` is what the
/// mask holds under that key. With no rule the tree is kept whole. With a rule,
/// and both the tree and the rule mappings, what the rule leaves of the tree is
/// kept, unless it leaves nothing. In every other case nothing is kept.
pub open spec fn masked_value(value: Doc, rule: Option<Doc>) -> Option<Doc>
    decreases value,
{
    match rule {
        None => Some(value),
        Some(Doc::Mapping(hidden)) => match value {
            Doc::Mapping(fields) => {
                let kept = masked(fields, hidden);
                if kept.len() == 0 {
                    None
                } else {
                    Some(Doc::Mapping(kept))
                }
            },
            _ => None,
        },
        Some(_) => None,
    }
}

/// What is left of the mapping `fields` under the mask `hidden`: each entry in
/// its turn, with what `masked_value` keeps of its tree, and without the
/// entries of which nothing is kept.
pub open spec fn masked(fields: Seq<(Seq<char>, Doc)>, hidden: Seq<(Seq<char>, Doc)>) -> Seq<
    (Seq<char>, Doc),
>
    decreases fields,
{
    if fields.len() == 0 {
        Seq::empty()
    } else {
        let before = masked(fields.drop_last(), hidden);
        match masked_value(fields.last().1, lookup(hidden, fields.last().0)) {
            Some(kept) => before.push((fields.last().0, kept)),
            None => before,
        }
    }
}

/// Every entry that a mask leaves stood in the mapping under the same key, and
/// a mask leaves no more entries than there were.
pub proof fn masked_keeps_keys(fields: Seq<(Seq<char>, Doc)>, hidden: Seq<(Seq<char>, Doc)>)
    ensures
        masked(fields, hidden).len() <= fields.len(),
        forall|j: int|
            0 <= j < masked(fields, hidden).len() ==> exists|i: int|
                0 <= i < fields.len() && (#[trigger] fields[i]).0 == (#[trigger] masked(
                    fields,
                    hidden,
                )[j]).0,
    decreases fields.len(),
{
    if fields.len() > 0 {
        let shorter = fields.drop_last();
        masked_keeps_keys(shorter, hidden);
        let before = masked(shorter, hidden);
        let after = masked(fields, hidden);
        assert forall|j: int| 0 <= j < after.len() implies exists|i: int|
            0 <= i < fields.len() && (#[trigger] fields[i]).0 == (#[trigger] after[j]).0 by {
            if j < before.len() {
                assert(after[j] == before[j]);
                let i = choose|i: int|
                    0 <= i < shorter.len() && (#[trigger] shorter[i]).0 == before[j].0;
                assert(fields[i] == shorter[i]);
            } else {
                assert(fields[fields.len() - 1].0 == after[j].0);
            }
        }
    }
}

/// A mask leaves the keys distinct.
pub proof fn masked_keeps_keys_distinct(
    fields: Seq<(Seq<char>, Doc)>,
    hidden: Seq<(Seq<char>, Doc)>,
)
    requires
        distinct_keys(fields),
    ensures
        distinct_keys(masked(fields, hidden)),
    decreases fields.len(),
{
    if fields.len() > 0 {
        let shorter = fields.drop_last();
        assert(distinct_keys(shorter)) by {
            assert forall|i: int, j: int| 0 <= i < j < shorter.len() implies (
            #[trigger] shorter[i]).0 != (#[trigger] shorter[j]).0 by {
                assert(fields[i].0 != fields[j].0);
            }
        }
        masked_keeps_keys_distinct(shorter, hidden);
        masked_keeps_keys(shorter, hidden);
        let before = masked(shorter, hidden);
        let after = masked(fields, hidden);
        assert forall|i: int, j: int| 0 <= i < j < after.len() implies (#[trigger] after[i]).0 != (
        #[trigger] after[j]).0 by {
            if j < before.len() {
                assert(before[i].0 != before[j].0);
            } else {
                let from = choose|k: int|
                    0 <= k < shorter.len() && (#[trigger] shorter[k]).0 == before[i].0;
                assert(fields[from].0 != fields[fields.len() - 1].0);
            }
        }
    }
}

/// Takes out of `config` what the mask `ignore` names. A key that the mask
/// does not hold keeps its tree unchanged. A key that the mask holds keeps what
/// the mask leaves of its tree where both the tree and the mask's tree are
/// mappings and something is left; otherwise the key goes, whatever stood
/// under it. The keys that stay keep their order.
pub fn filter_config(config: &Mapping, ignore: &Mapping) -> (result: Mapping)
    ensures
        result@ == masked(config@, ignore@),
    decreases config@,
{
    let mut result = Mapping::new();
    let mut index: usize = 0;
    while index < config.len()
        invariant
            index <= config@.len(),
            result@ == masked(config@.take(index as int), ignore@),
        decreases config@.len() - index,
    {
        let ghost done = config@.take(index as int);
        let ghost next = config@.take(index + 1);
        proof {
            assert(next.drop_last() =~= done);
            assert(next.last() == config@[index as int]);
        }
        match config.entry(index) {
            Some((key, value)) => {
                let kept = match ignore.get(key.as_str()) {
                    None => Some(value.clone()),
                    Some(rule) => match (value, rule) {
                        (DocumentNode::Mapping(fields), DocumentNode::Mapping(hidden)) => {
                            let left = filter_config(fields, hidden);
                            if left.is_empty() {
                                None
                            } else {
                                Some(DocumentNode::Mapping(left))
                            }
                        },
                        _ => None,
                    },
                };
                assert(kept matches Some(node) ==> masked_value(
                    config@[index as int].1,
                    lookup(ignore@, key@),
                ) == Some(node@));
                assert(kept is None ==> masked_value(
                    config@[index as int].1,
                    lookup(ignore@, key@),
                ) is None);
                if let Some(node) = kept {
                    proof {
                        masked_keeps_keys(done, ignore@);
                        assert forall|j: int| 0 <= j < result@.len() implies (
                        #[trigger] result@[j]).0 != key@ by {
                            let from = choose|i: int|
                                0 <= i < done.len() && (#[trigger] done[i]).0 == result@[j].0;
                            assert(config@[from].0 != config@[index as int].0);
                        }
                        lemma_index_of_absent(result@, key@);
                    }
                    result.insert(key.clone(), node);
                }
            },
            None => {},
        }
        index += 1;
    }
    proof {
        assert(config@.take(index as int) =~= config@);
    }
    result
}

/// A mask leaves nothing of a mapping exactly when it keeps nothing of any
/// entry.
pub proof fn masked_is_empty(fields: Seq<(Seq<char>, Doc)>, hidden: Seq<(Seq<char>, Doc)>)
    ensures
        masked(fields, hidden).len() == 0 <==> forall|i: int|
            0 <= i < fields.len() ==> masked_value(
                (#[trigger] fields[i]).1,
                lookup(hidden, fields[i].0),
            ) is None,
    decreases fields.len(),
{
    if fields.len() > 0 {
        let shorter = fields.drop_last();
        masked_is_empty(shorter, hidden);
        if masked(fields, hidden).len() == 0 {
            assert forall|i: int| 0 <= i < fields.len() implies masked_value(
                (#[trigger] fields[i]).1,
                lookup(hidden, fields[i].0),
            ) is None by {
                if i < shorter.len() {
                    assert(fields[i] == shorter[i]);
                }
            }
        } else {
            if masked(shorter, hidden).len() != 0 {
                let i = choose|i: int|
                    0 <= i < shorter.len() && !(masked_value(
                        (#[trigger] shorter[i]).1,
                        lookup(hidden, shorter[i].0),
                    ) is None);
                assert(fields[i] == shorter[i]);
            } else {
                assert(fields[fields.len() - 1] == fields.last());
            }
        }
    }
}

/// The empty mask takes nothing out: what is left is the mapping itself.
pub proof fn empty_mask_keeps_all(fields: Seq<(Seq<char>, Doc)>)
    ensures
        masked(fields, Seq::empty()) == fields,
    decreases fields.len(),
{
    if fields.len() > 0 {
        let nothing = Seq::<(Seq<char>, Doc)>::empty();
        empty_mask_keeps_all(fields.drop_last());
        assert(lookup(nothing, fields.last().0) is None);
        assert(masked_value(fields.last().1, lookup(nothing, fields.last().0)) == Some(
            fields.last().1,
        ));
        assert(masked(fields, nothing) == fields.drop_last().push(
            (fields.last().0, fields.last().1),
        ));
        assert(fields.drop_last().push(fields.last()) =~= fields);
    } else {
        assert(fields =~= Seq::empty());
    }
}

/// A mask none of whose keys the mapping holds takes nothing out.
pub proof fn unmatched_mask_keeps_all(
    fields: Seq<(Seq<char>, Doc)>,
    hidden: Seq<(Seq<char>, Doc)>,
)
    requires
        forall|key: Seq<char>| has_key(hidden, key) ==> !has_key(fields, key),
    ensures
        masked(fields, hidden) == fields,
    decreases fields.len(),
{
    if fields.len() > 0 {
        let shorter = fields.drop_last();
        assert forall|key: Seq<char>| has_key(hidden, key) implies !has_key(shorter, key) by {
            lemma_has_key(shorter, key);
            lemma_has_key(fields, key);
            if has_key(shorter, key) {
                let i = choose|i: int| 0 <= i < shorter.len() && (#[trigger] shorter[i]).0 == key;
                assert(fields[i] == shorter[i]);
            }
        }
        unmatched_mask_keeps_all(shorter, hidden);
        lemma_has_key(fields, fields.last().0);
        assert(fields[fields.len() - 1].0 == fields.last().0);
        assert(!has_key(hidden, fields.last().0));
        assert(masked_value(fields.last().1, lookup(hidden, fields.last().0)) == Some(
            fields.last().1,
        ));
        assert(masked(fields, hidden) == shorter.push((fields.last().0, fields.last().1)));
        assert(shorter.push(fields.last()) =~= fields);
    } else {
        assert(fields =~= Seq::empty());
    }
}

/// A mask with the keys of the mapping, under each of which both hold a
/// mapping of which the mask leaves nothing, leaves nothing at all.
pub proof fn full_mask_leaves_nothing(
    fields: Seq<(Seq<char>, Doc)>,
    hidden: Seq<(Seq<char>, Doc)>,
)
    requires
        distinct_keys(fields),
        forall|key: Seq<char>| has_key(fields, key) <==> has_key(hidden, key),
        forall|key: Seq<char>| #[trigger]
            has_key(fields, key) ==> {
                &&& lookup(fields, key) matches Some(Doc::Mapping(below))
                &&& lookup(hidden, key) matches Some(Doc::Mapping(hidden_below))
                &&& masked(below, hidden_below).len() == 0
            },
    ensures
        masked(fields, hidden) == Seq::<(Seq<char>, Doc)>::empty(),
{
    assert forall|i: int| 0 <= i < fields.len() implies masked_value(
        (#[trigger] fields[i]).1,
        lookup(hidden, fields[i].0),
    ) is None by {
        lemma_index_of_entry(fields, i);
        assert(has_key(fields, fields[i].0));
    }
    masked_is_empty(fields, hidden);
    assert(masked(fields, hidden) =~= Seq::empty());
}

/// What a masked mapping holds under a key is what is kept of the tree that
/// the mapping held under it; it holds nothing under a key that the mapping
/// did not hold.
pub proof fn masked_lookup(
    fields: Seq<(Seq<char>, Doc)>,
    hidden: Seq<(Seq<char>, Doc)>,
    key: Seq<char>,
)
    requires
        distinct_keys(fields),
    ensures
        lookup(masked(fields, hidden), key) == match lookup(fields, key) {
            Some(value) => masked_value(value, lookup(hidden, key)),
            None => None,
        },
    decreases fields.len(),
{
    if fields.len() == 0 {
        assert(lookup(fields, key) is None);
        assert(lookup(masked(fields, hidden), key) is None);
    } else {
        let shorter = fields.drop_last();
        let last = fields.last();
        assert(distinct_keys(shorter)) by {
            assert forall|i: int, j: int| 0 <= i < j < shorter.len() implies (
            #[trigger] shorter[i]).0 != (#[trigger] shorter[j]).0 by {
                assert(fields[i].0 != fields[j].0);
            }
        }
        masked_lookup(shorter, hidden, key);
        let before = masked(shorter, hidden);
        assert(shorter.push(last) =~= fields);
        lemma_lookup_push(shorter, last, key);
        if last.0 == key {
            assert(!has_key(shorter, key)) by {
                lemma_has_key(shorter, key);
                if has_key(shorter, key) {
                    let i = choose|i: int|
                        0 <= i < shorter.len() && (#[trigger] shorter[i]).0 == key;
                    assert(fields[i].0 != fields[fields.len() - 1].0);
                }
            }
            assert(lookup(before, key) is None);
        }
        match masked_value(last.1, lookup(hidden, last.0)) {
            Some(kept) => {
                lemma_lookup_push(before, (last.0, kept), key);
            },
            None => {},
        }
    }
}

/// A mask leaves a well-formed mapping well formed.
pub proof fn masked_is_well_formed(fields: Seq<(Seq<char>, Doc)>, hidden: Seq<(Seq<char>, Doc)>)
    requires
        well_formed_fields(fields),
    ensures
        well_formed_fields(masked(fields, hidden)),
    decreases fields,
{
    masked_keeps_keys_distinct(fields, hidden);
    if fields.len() > 0 {
        let shorter = fields.drop_last();
        let last = fields.last();
        assert(well_formed_fields(shorter)) by {
            assert forall|i: int, j: int| 0 <= i < j < shorter.len() implies (
            #[trigger] shorter[i]).0 != (#[trigger] shorter[j]).0 by {
                assert(fields[i].0 != fields[j].0);
            }
            assert forall|i: int| 0 <= i < shorter.len() implies well_formed(
                (#[trigger] shorter[i]).1,
            ) by {
                assert(shorter[i] == fields[i]);
            }
        }
        masked_is_well_formed(shorter, hidden);
        let before = masked(shorter, hidden);
        let after = masked(fields, hidden);
        assert(well_formed(fields[fields.len() - 1].1));
        match (last.1, lookup(hidden, last.0)) {
            (Doc::Mapping(below), Some(Doc::Mapping(hidden_below))) => {
                masked_is_well_formed(below, hidden_below);
            },
            _ => {},
        }
        assert forall|i: int| 0 <= i < after.len() implies well_formed((#[trigger] after[i]).1) by {
            if i < before.len() {
                assert(after[i] == before[i]);
                assert(well_formed(before[i].1));
            } else {
                let kept = masked_value(last.1, lookup(hidden, last.0));
                assert(after[i].1 == kept->Some_0);
                assert(well_formed(last.1));
            }
        }
    }
}

} // verus!
