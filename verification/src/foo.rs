//! A small castable type, and casting with a table that the caller holds.

use core::any::TypeId;
use crate::castable::TraitcastableAny;
use crate::castable::TraitcastableTo;
use crate::declare::TableOrder;
use crate::declare::TraitcastTable;
use crate::erased::any_box;
use crate::erased::any_mut;
use crate::erased::any_ref;
use crate::erased::AnyBox;
use crate::erased::AnyMut;
use crate::erased::AnyRef;
use crate::erased::invoke_ref;
use crate::rtti::type_id_of;
use crate::table::distinct;
use crate::table::find_target;
use crate::table::first_match;
use crate::table::target_ids;
use crate::target::TraitcastTarget;
use vstd::prelude::*;
use vstd::slice::slice_to_vec;

verus! {

/// Casts `source` to the interface identified by `target`, with the table given.
///
/// Where the table holds no entry for `target`, the cast is refused. Otherwise
/// the result is whatever the conversion of the first entry for `target` makes
/// of `source`.
pub fn trait_cast_to<'a, Target: ?Sized + 'static>(
    source: &'a dyn TraitcastableAny,
    trait_cast_target: &[TraitcastTarget],
    target: TypeId,
) -> (cast: Option<&'a Target>)
    ensures
        first_match(target_ids(trait_cast_target@), target) is None ==> cast is None,
{
    match find_target(trait_cast_target, target) {
        Some(i) => invoke_ref::<Target>(trait_cast_target[i].ref_converter(), source),
        None => None,
    }
}

/// Casts `source` to the interface `Target`, with the table given.
pub fn trait_cast<'a, Target: ?Sized + 'static>(
    source: &'a dyn TraitcastableAny,
    trait_cast_target: &[TraitcastTarget],
) -> (cast: Option<&'a Target>)
    ensures
        trait_cast_target@.len() == 0 ==> cast is None,
{
    trait_cast_to::<Target>(source, trait_cast_target, type_id_of::<Target>())
}

/// An interface with one observation.
pub trait Baup {
    /// What the value has to say.
    fn baup(&self) -> u8;
}

/// A value that can be cast to [`Baup`].
pub struct Foo {
    member: u8,
    table: TraitcastTable,
    own: TraitcastTarget,
}

impl Foo {
    /// Every `Foo` has the table that declares [`Baup`] and nothing else.
    #[verifier::type_invariant]
    spec fn declares_baup(&self) -> bool {
        &&& self.table@.entries.len() == 1
        &&& self.table@.entries[0]@.name == "Baup"@
    }

    /// The number this value holds.
    pub closed spec fn member(&self) -> u8 {
        self.member
    }

    /// The entries of this value's table.
    pub closed spec fn table_view(&self) -> Seq<TraitcastTarget> {
        self.table@.entries
    }

    /// The entry that converts a `Foo` to itself.
    pub closed spec fn own(&self) -> TraitcastTarget {
        self.own
    }

    /// A value holding `member`, with the table that declares [`Baup`].
    pub fn new(member: u8) -> (foo: Foo)
        ensures
            foo.member() == member,
            foo.targets().len() == 1,
            foo.targets()[0]@.name == "Baup"@,
    {
        let mut entries: Vec<TraitcastTarget> = Vec::new();
        entries.push(TraitcastTarget::from::<Foo, dyn Baup>("Baup"));
        let declared = TraitcastTable::declare(entries, TableOrder::Declared);
        let table = declared.unwrap();
        Foo { member, table, own: TraitcastTarget::concrete::<Foo>("Foo") }
    }

    /// The entries of the interfaces that this value can be cast to, as a table of
    /// the caller's own: the one entry for [`Baup`].
    pub fn traitcastable_from(&self) -> (entries: Vec<TraitcastTarget>)
        ensures
            entries@ == self.targets(),
            entries@.len() == 1,
            entries@[0]@.name == "Baup"@,
            distinct(target_ids(entries@)),
    {
        proof {
            use_type_invariant(self);
        }
        slice_to_vec(self.table.entries())
    }

    /// The by-reference conversion to [`Baup`]: `input` as a `Baup` if it is a
    /// `Foo`, nothing otherwise.
    pub fn to_dyn_baup(input: &dyn TraitcastableAny) -> Option<&(dyn Baup + 'static)> {
        match input.downcast_to_concrete_ref::<Foo>() {
            Some(foo) => Some(foo),
            None => None,
        }
    }
}

impl Baup for Foo {
    fn baup(&self) -> (said: u8)
        ensures
            said == self.member(),
    {
        self.member
    }
}

impl TraitcastableAny for Foo {
    open spec fn targets(&self) -> Seq<TraitcastTarget> {
        self.table_view()
    }

    open spec fn concrete(&self) -> TraitcastTarget {
        self.own()
    }

    fn traitcast_targets(&self) -> (table: &[TraitcastTarget]) {
        self.table.entries()
    }

    fn concrete_target(&self) -> (entry: TraitcastTarget) {
        self.own
    }

    fn as_any(&self) -> AnyRef<'_> {
        any_ref(self)
    }

    fn as_any_mut(&mut self) -> AnyMut<'_> {
        any_mut(self)
    }

    fn into_any(self: Box<Self>) -> AnyBox {
        any_box(self)
    }
}

impl TraitcastableTo<dyn Baup> for Foo {
    fn to_dyn_ref(input: &dyn TraitcastableAny) -> Option<&(dyn Baup + 'static)> {
        Foo::to_dyn_baup(input)
    }

    /// `Baup` observes and never changes a value, so `Foo` offers no exclusive
    /// cast to it.
    fn to_dyn_mut<'a>(input: &'a mut (dyn TraitcastableAny + 'static)) -> (cast: Option<
        &'a mut (dyn Baup + 'static),
    >)
        ensures
            cast is None,
    {
        None
    }

    /// The box as a boxed `Baup` if it holds a `Foo`. A box that is refused comes
    /// back as the downcast to `Foo` returned it.
    fn to_dyn_box(input: Box<dyn TraitcastableAny>) -> (cast: Result<
        Box<dyn Baup>,
        Box<dyn TraitcastableAny>,
    >) {
        match input.downcast_to_concrete_box::<Foo>() {
            Ok(foo) => Ok(foo),
            Err(back) => {
                let refused = Err(back);
                refused
            },
        }
    }
}

} // verus!
