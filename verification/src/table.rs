//! Searching a capability table.

use core::any::TypeId;
use crate::rtti::same_type_id;
use crate::rtti::type_id_precedes;
use crate::rtti::type_id_rank;
use crate::target::TraitcastTarget;
use vstd::prelude::*;

verus! {

/// The identifiers of a table's entries, in the table's order.
pub open spec fn target_ids(table: Seq<TraitcastTarget>) -> Seq<TypeId> {
    Seq::new(table.len(), |i: int| table[i]@.target)
}

/// Whether `i` is the first position of `ids` that holds `target`.
pub open spec fn is_first_match(ids: Seq<TypeId>, target: TypeId, i: int) -> bool {
    &&& 0 <= i < ids.len()
    &&& ids[i] == target
    &&& forall|j: int| 0 <= j < i ==> ids[j] != target
}

/// The first position of `ids` that holds `target`, if any position does.
pub open spec fn first_match(ids: Seq<TypeId>, target: TypeId) -> Option<int> {
    if exists|i: int| is_first_match(ids, target, i) {
        Some(choose|i: int| is_first_match(ids, target, i))
    } else {
        None
    }
}

/// No identifier occurs at two positions.
pub open spec fn distinct(ids: Seq<TypeId>) -> bool {
    forall|i: int, j: int| 0 <= i < j < ids.len() ==> ids[i] != ids[j]
}

/// The identifiers stand in strictly ascending order.
pub open spec fn ascending(ids: Seq<TypeId>) -> bool {
    forall|i: int, j: int|
        0 <= i < j < ids.len() ==> type_id_rank(ids[i]) < type_id_rank(ids[j])
}

/// At most one position is the first match.
pub proof fn lemma_first_match_unique(ids: Seq<TypeId>, target: TypeId, i: int, j: int)
    requires
        is_first_match(ids, target, i),
        is_first_match(ids, target, j),
    ensures
        i == j,
{
    if i < j {
        assert(ids[i] != target);
    } else if j < i {
        assert(ids[j] != target);
    }
}

/// A position known to be the first match is what `first_match` gives.
pub proof fn lemma_first_match_is(ids: Seq<TypeId>, target: TypeId, i: int)
    requires
        is_first_match(ids, target, i),
    ensures
        first_match(ids, target) == Some(i),
{
    let k = choose|k: int| is_first_match(ids, target, k);
    lemma_first_match_unique(ids, target, i, k);
}

/// Where no position holds the identifier, `first_match` gives nothing.
pub proof fn lemma_first_match_none(ids: Seq<TypeId>, target: TypeId)
    requires
        forall|j: int| 0 <= j < ids.len() ==> ids[j] != target,
    ensures
        first_match(ids, target) is None,
{
    assert forall|i: int| !is_first_match(ids, target, i) by {
        if 0 <= i < ids.len() {
            assert(ids[i] != target);
        }
    }
}

/// Searches `table` from the front for the first entry that converts to `target`.
pub fn find_target(table: &[TraitcastTarget], target: TypeId) -> (found: Option<usize>)
    ensures
        match found {
            Some(i) => first_match(target_ids(table@), target) == Some(i as int),
            None => first_match(target_ids(table@), target) is None,
        },
{
    let ghost ids = target_ids(table@);
    let mut i: usize = 0;
    while i < table.len()
        invariant
            i <= table.len(),
            ids == target_ids(table@),
            forall|j: int| 0 <= j < i ==> ids[j] != target,
        decreases table.len() - i,
    {
        let id = table[i].target_type_id();
        if same_type_id(&id, &target) {
            proof {
                lemma_first_match_is(ids, target, i as int);
            }
            return Some(i);
        }
        i += 1;
    }
    proof {
        lemma_first_match_none(ids, target);
    }
    None
}

/// In an ascending table no identifier occurs twice.
pub proof fn lemma_ascending_is_distinct(ids: Seq<TypeId>)
    requires
        ascending(ids),
    ensures
        distinct(ids),
{
    assert forall|i: int, j: int| 0 <= i < j < ids.len() implies ids[i] != ids[j] by {
        assert(type_id_rank(ids[i]) < type_id_rank(ids[j]));
    }
}

/// In a table without duplicates, a lookup for the identifier at any position
/// finds that position, and no other position holds the identifier.
pub proof fn lemma_declared_target_found_once(ids: Seq<TypeId>, i: int)
    requires
        distinct(ids),
        0 <= i < ids.len(),
    ensures
        first_match(ids, ids[i]) == Some(i),
        forall|j: int| 0 <= j < ids.len() && ids[j] == ids[i] ==> j == i,
{
    assert forall|j: int| 0 <= j < ids.len() && ids[j] == ids[i] implies j == i by {
        if j < i {
            assert(ids[j] != ids[i]);
        } else if i < j {
            assert(ids[i] != ids[j]);
        }
    }
    lemma_first_match_is(ids, ids[i], i);
}

/// A lookup finds something exactly when the identifier occurs in the table.
pub proof fn lemma_first_match_some_iff_contains(ids: Seq<TypeId>, target: TypeId)
    ensures
        first_match(ids, target) is Some <==> ids.contains(target),
        first_match(ids, target) matches Some(i) ==> is_first_match(ids, target, i),
{
    if ids.contains(target) {
        let k = choose|k: int| 0 <= k < ids.len() && ids[k] == target;
        lemma_least_match(ids, target, k);
    }
    if first_match(ids, target) is Some {
        let i = first_match(ids, target).unwrap();
        assert(is_first_match(ids, target, i));
        assert(ids[i] == target);
    }
}

/// Below any position that holds the identifier there is a first one.
proof fn lemma_least_match(ids: Seq<TypeId>, target: TypeId, k: int)
    requires
        0 <= k < ids.len(),
        ids[k] == target,
    ensures
        exists|i: int| is_first_match(ids, target, i),
    decreases k,
{
    if exists|j: int| 0 <= j < k && ids[j] == target {
        let j = choose|j: int| 0 <= j < k && ids[j] == target;
        lemma_least_match(ids, target, j);
    } else {
        assert(is_first_match(ids, target, k));
    }
}

/// Searches an ascending `table` by halving for the entry that converts to `target`.
///
/// The result is the one a search from the front gives.
pub fn find_target_sorted(table: &[TraitcastTarget], target: TypeId) -> (found: Option<usize>)
    requires
        ascending(target_ids(table@)),
    ensures
        match found {
            Some(i) => first_match(target_ids(table@), target) == Some(i as int),
            None => first_match(target_ids(table@), target) is None,
        },
{
    let ghost ids = target_ids(table@);
    let mut low: usize = 0;
    let mut high: usize = table.len();
    while low < high
        invariant
            low <= high <= table.len(),
            ids == target_ids(table@),
            ascending(ids),
            forall|j: int| 0 <= j < low ==> type_id_rank(ids[j]) < type_id_rank(target),
            forall|j: int| high <= j < ids.len() ==> type_id_rank(target) < type_id_rank(ids[j]),
        decreases high - low,
    {
        let middle = low + (high - low) / 2;
        let id = table[middle].target_type_id();
        assert(id == ids[middle as int]);
        if same_type_id(&id, &target) {
            proof {
                assert forall|j: int| 0 <= j < middle implies ids[j] != target by {
                    assert(type_id_rank(ids[j]) < type_id_rank(ids[middle as int]));
                }
                lemma_first_match_is(ids, target, middle as int);
            }
            return Some(middle);
        }
        if type_id_precedes(&id, &target) {
            proof {
                assert forall|j: int| 0 <= j < middle + 1 implies type_id_rank(ids[j])
                    < type_id_rank(target) by {
                    if j < middle {
                        assert(type_id_rank(ids[j]) < type_id_rank(ids[middle as int]));
                    }
                }
            }
            low = middle + 1;
        } else {
            proof {
                assert forall|j: int| middle <= j < ids.len() implies type_id_rank(target)
                    < type_id_rank(ids[j]) by {
                    if middle < j {
                        assert(type_id_rank(ids[middle as int]) < type_id_rank(ids[j]));
                    }
                }
            }
            high = middle;
        }
    }
    proof {
        assert forall|j: int| 0 <= j < ids.len() implies ids[j] != target by {
            if j < low {
                assert(type_id_rank(ids[j]) < type_id_rank(target));
            } else {
                assert(type_id_rank(target) < type_id_rank(ids[j]));
            }
        }
        lemma_first_match_none(ids, target);
    }
    None
}

/// Whether the entries of `table` stand in strictly ascending order of their
/// identifiers.
pub fn is_ascending(table: &[TraitcastTarget]) -> (sorted: bool)
    ensures
        sorted == ascending(target_ids(table@)),
{
    let ghost ids = target_ids(table@);
    if table.len() < 2 {
        return true;
    }
    let mut i: usize = 1;
    while i < table.len()
        invariant
            1 <= i <= table.len(),
            ids == target_ids(table@),
            forall|a: int, b: int| 0 <= a < b < i ==> type_id_rank(ids[a]) < type_id_rank(ids[b]),
        decreases table.len() - i,
    {
        let previous = table[i - 1].target_type_id();
        let current = table[i].target_type_id();
        if !type_id_precedes(&previous, &current) {
            assert(!(type_id_rank(ids[i - 1]) < type_id_rank(ids[i as int])));
            return false;
        }
        proof {
            assert forall|a: int, b: int| 0 <= a < b < i + 1 implies type_id_rank(ids[a])
                < type_id_rank(ids[b]) by {
                if b == i && a < i - 1 {
                    assert(type_id_rank(ids[a]) < type_id_rank(ids[i - 1]));
                }
            }
        }
        i += 1;
    }
    true
}

} // verus!
