//! Declaring the table of a concrete type.
//!
//! A table is made once, from the entries of the interfaces that the type
//! declares. An interface that is declared twice is refused before any table
//! exists, so a lookup never has to choose between two entries.

use core::any::TypeId;
use crate::rtti::same_type_id;
use crate::rtti::type_id_precedes;
use crate::rtti::type_id_rank;
use crate::table::ascending;
use crate::table::distinct;
use crate::table::find_target;
use crate::table::find_target_sorted;
use crate::table::first_match;
use crate::table::lemma_ascending_is_distinct;
use crate::table::lemma_first_match_some_iff_contains;
use crate::table::target_ids;
use crate::target::TraitcastTarget;
use vstd::prelude::*;
use vstd::seq_lib::to_multiset_build;
use vstd::seq_lib::to_multiset_contains;
use vstd::seq_lib::to_multiset_insert;

verus! {

/// The order in which a table keeps its entries, which decides how it is searched.
#[derive(Clone, Copy, Debug, PartialEq, Eq)]
pub enum TableOrder {
    /// The order of declaration. Lookups walk the table from the front.
    Declared,
    /// Ascending order of the identifiers. Lookups halve the table.
    Ascending,
}

/// Why a list of entries is not a table.
#[derive(Clone, Copy, Debug, PartialEq, Eq)]
pub enum DeclarationError {
    /// The entries at positions `first` and `second` convert to the same interface.
    DuplicateTarget { first: usize, second: usize },
}

/// Whether `second` is the first position of `ids` that repeats an earlier
/// identifier, and `first` the position where that identifier first stands.
pub open spec fn is_first_duplicate(ids: Seq<TypeId>, first: int, second: int) -> bool {
    &&& 0 <= first < second < ids.len()
    &&& ids[first] == ids[second]
    &&& forall|a: int| 0 <= a < first ==> ids[a] != ids[second]
    &&& distinct(ids.subrange(0, second))
}

/// Looks for an interface that is declared twice.
pub fn first_duplicate(table: &[TraitcastTarget]) -> (conflict: Option<(usize, usize)>)
    ensures
        match conflict {
            Some((first, second)) => is_first_duplicate(
                target_ids(table@),
                first as int,
                second as int,
            ),
            None => distinct(target_ids(table@)),
        },
{
    let ghost ids = target_ids(table@);
    let mut second: usize = 0;
    while second < table.len()
        invariant
            second <= table.len(),
            ids == target_ids(table@),
            distinct(ids.subrange(0, second as int)),
        decreases table.len() - second,
    {
        let id = table[second].target_type_id();
        let found = find_target(table, id);
        proof {
            lemma_first_match_some_iff_contains(ids, id);
            assert(ids[second as int] == id);
        }
        match found {
            Some(first) => {
                if first < second {
                    return Some((first, second));
                }
                proof {
                    assert(first == second) by {
                        if second < first {
                            assert(ids[second as int] != id);
                        }
                    }
                    let before = ids.subrange(0, second as int);
                    let through = ids.subrange(0, second + 1);
                    assert forall|a: int, b: int| 0 <= a < b < through.len() implies through[a]
                        != through[b] by {
                        if b < second {
                            assert(before[a] != before[b]);
                        } else {
                            assert(ids[a] != id);
                        }
                    }
                }
            },
            None => {
                proof {
                    assert(false);
                }
            },
        }
        second += 1;
    }
    proof {
        assert(ids.subrange(0, second as int) == ids);
    }
    None
}

/// The table of one concrete type: its entries, without duplicates, in the order
/// that its lookups rely on.
pub struct TraitcastTable {
    entries: Vec<TraitcastTarget>,
    order: TableOrder,
}

/// A table as its contracts speak of it.
pub struct TableView {
    /// The entries, in the order the table keeps them.
    pub entries: Seq<TraitcastTarget>,
    /// The order that the table was declared with.
    pub order: TableOrder,
}

impl View for TraitcastTable {
    type V = TableView;

    closed spec fn view(&self) -> TableView {
        TableView { entries: self.entries@, order: self.order }
    }
}

impl TraitcastTable {
    #[verifier::type_invariant]
    spec fn well_formed(&self) -> bool {
        &&& distinct(target_ids(self.entries@))
        &&& self.order == TableOrder::Ascending ==> ascending(target_ids(self.entries@))
    }

    /// Makes the table of a type from the entries of the interfaces it declares.
    ///
    /// A list that declares an interface twice is refused, and the error names
    /// the two positions. Otherwise the table holds exactly the given entries: in
    /// the given order for [`TableOrder::Declared`], in ascending order of their
    /// identifiers for [`TableOrder::Ascending`].
    pub fn declare(entries: Vec<TraitcastTarget>, order: TableOrder) -> (declared: Result<
        TraitcastTable,
        DeclarationError,
    >)
        ensures
            match declared {
                Ok(table) => {
                    &&& distinct(target_ids(entries@))
                    &&& table@.order == order
                    &&& table@.entries.to_multiset() == entries@.to_multiset()
                    &&& order == TableOrder::Declared ==> table@.entries == entries@
                    &&& order == TableOrder::Ascending ==> ascending(target_ids(table@.entries))
                },
                Err(DeclarationError::DuplicateTarget { first, second }) => is_first_duplicate(
                    target_ids(entries@),
                    first as int,
                    second as int,
                ),
            },
    {
        match first_duplicate(entries.as_slice()) {
            Some((first, second)) => Err(DeclarationError::DuplicateTarget { first, second }),
            None => {
                match order {
                    TableOrder::Declared => Ok(TraitcastTable { entries, order }),
                    TableOrder::Ascending => {
                        let sorted = sort_by_target(&entries);
                        proof {
                            lemma_ascending_is_distinct(target_ids(sorted@));
                        }
                        Ok(TraitcastTable { entries: sorted, order })
                    },
                }
            },
        }
    }

    /// The entries of the table: no interface twice, and in ascending order
    /// where the table is searched by halving.
    pub fn entries(&self) -> (entries: &[TraitcastTarget])
        ensures
            entries@ == self@.entries,
            distinct(target_ids(self@.entries)),
            self@.order == TableOrder::Ascending ==> ascending(target_ids(self@.entries)),
    {
        proof {
            use_type_invariant(self);
        }
        self.entries.as_slice()
    }

    /// The order the table keeps its entries in.
    pub fn table_order(&self) -> (order: TableOrder)
        ensures
            order == self@.order,
    {
        self.order
    }

    /// Looks up the entry that converts to `target`, searching as the table's
    /// order allows. Whatever the order, the result is the one a search from the
    /// front gives.
    pub fn find(&self, target: TypeId) -> (found: Option<&TraitcastTarget>)
        ensures
            match first_match(target_ids(self@.entries), target) {
                Some(i) => found == Some(&self@.entries[i]),
                None => found is None,
            },
    {
        proof {
            use_type_invariant(self);
        }
        let table = self.entries.as_slice();
        let position = match self.order {
            TableOrder::Declared => find_target(table, target),
            TableOrder::Ascending => find_target_sorted(table, target),
        };
        match position {
            Some(i) => Some(&table[i]),
            None => None,
        }
    }
}

/// The entries of `entries` in ascending order of their identifiers.
fn sort_by_target(entries: &Vec<TraitcastTarget>) -> (sorted: Vec<TraitcastTarget>)
    requires
        distinct(target_ids(entries@)),
    ensures
        ascending(target_ids(sorted@)),
        sorted@.to_multiset() == entries@.to_multiset(),
{
    let ghost ids = target_ids(entries@);
    let mut sorted: Vec<TraitcastTarget> = Vec::new();
    let mut taken: usize = 0;
    proof {
        assert(sorted@ == entries@.subrange(0, 0));
    }
    while taken < entries.len()
        invariant
            taken <= entries.len(),
            ids == target_ids(entries@),
            distinct(ids),
            ascending(target_ids(sorted@)),
            sorted@.to_multiset() == entries@.subrange(0, taken as int).to_multiset(),
        decreases entries.len() - taken,
    {
        let entry = entries[taken];
        let id = entry.target_type_id();
        let ghost before = sorted@;
        let ghost before_ids = target_ids(before);
        let mut position: usize = 0;
        while position < sorted.len() && type_id_precedes(
            &sorted[position].target_type_id(),
            &id,
        )
            invariant
                position <= sorted.len(),
                sorted@ == before,
                before_ids == target_ids(before),
                forall|q: int| 0 <= q < position ==> type_id_rank(before_ids[q]) < type_id_rank(id),
            decreases sorted.len() - position,
        {
            position += 1;
        }
        if position < sorted.len() {
            let next = sorted[position].target_type_id();
            let same = same_type_id(&next, &id);
            proof {
                let prefix = entries@.subrange(0, taken as int);
                to_multiset_contains(before, before[position as int]);
                to_multiset_contains(prefix, before[position as int]);
                let i = choose|i: int| 0 <= i < prefix.len() && prefix[i] == before[position as int];
                assert(ids[i] == next);
                assert(ids[i] != ids[taken as int]);
                assert(!same);
                assert(type_id_rank(id) < type_id_rank(before_ids[position as int]));
            }
        }
        sorted.insert(position, entry);
        proof {
            let after_ids = target_ids(sorted@);
            assert forall|a: int, b: int| 0 <= a < b < after_ids.len() implies type_id_rank(
                after_ids[a],
            ) < type_id_rank(after_ids[b]) by {
                let from_a = if a < position { a } else { a - 1 };
                let from_b = if b < position { b } else { b - 1 };
                if a != position {
                    assert(after_ids[a] == before_ids[from_a]);
                }
                if b != position {
                    assert(after_ids[b] == before_ids[from_b]);
                }
                if a != position && b != position {
                    assert(type_id_rank(before_ids[from_a]) < type_id_rank(before_ids[from_b]));
                } else if b == position {
                    assert(type_id_rank(before_ids[a]) < type_id_rank(id));
                } else {
                    if from_b > position {
                        assert(type_id_rank(before_ids[position as int]) < type_id_rank(
                            before_ids[from_b],
                        ));
                    }
                }
            }
            to_multiset_insert(before, position as int, entry);
            let prefix = entries@.subrange(0, taken as int);
            assert(entries@.subrange(0, taken + 1) == prefix.push(entry));
            to_multiset_build(prefix, entry);
        }
        taken += 1;
    }
    proof {
        assert(entries@.subrange(0, taken as int) == entries@);
    }
    sorted
}

} // verus!
