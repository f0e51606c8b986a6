//! The diagnostic rendering of a castable value.

use crate::castable::TraitcastableAny;
use crate::target::TraitcastTarget;
use vstd::prelude::*;
use vstd::string::*;

verus! {

/// The names of a table's entries, in the table's order.
pub open spec fn target_names(table: Seq<TraitcastTarget>) -> Seq<Seq<char>> {
    Seq::new(table.len(), |i: int| table[i]@.name)
}

/// The names, each but the first led by a comma and a space.
pub open spec fn comma_separated(names: Seq<Seq<char>>) -> Seq<char>
    decreases names.len(),
{
    if names.len() == 0 {
        Seq::empty()
    } else if names.len() == 1 {
        names[0]
    } else {
        comma_separated(names.drop_last()) + ", "@ + names.last()
    }
}

/// What a value with this table is rendered as: the names of the interfaces it
/// can be cast to, in braces.
pub open spec fn rendering(table: Seq<TraitcastTarget>) -> Seq<char> {
    "TraitcastableAny to {"@ + comma_separated(target_names(table)) + "}"@
}

/// Renders the names of the entries of `table`.
pub fn render_targets(table: &[TraitcastTarget]) -> (text: String)
    ensures
        text@ == rendering(table@),
{
    let mut text = String::from_str("TraitcastableAny to {");
    let ghost names = target_names(table@);
    let mut i: usize = 0;
    while i < table.len()
        invariant
            i <= table.len(),
            names == target_names(table@),
            text@ == "TraitcastableAny to {"@ + comma_separated(names.subrange(0, i as int)),
        decreases table.len() - i,
    {
        if i != 0 {
            text.append(", ");
        }
        text.append(table[i].target_type_name());
        proof {
            let through = names.subrange(0, i + 1);
            assert(through.drop_last() == names.subrange(0, i as int));
            assert(through.last() == table@[i as int]@.name);
        }
        i += 1;
    }
    proof {
        assert(names.subrange(0, i as int) == names);
    }
    text.append("}");
    text
}

impl dyn TraitcastableAny {
    /// Lists the interfaces this value can be cast to, for logs and inspection.
    pub fn fmt(&self) -> (text: String)
        ensures
            text@ == rendering(self.targets()),
    {
        render_targets(self.traitcast_targets())
    }
}

} // verus!
