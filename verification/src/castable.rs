//! The interfaces a castable type implements.

use core::any::TypeId;
use crate::erased::AnyBox;
use crate::erased::AnyMut;
use crate::erased::AnyRef;
use crate::erased::concrete_type_id;
use crate::table::find_target;
use crate::table::first_match;
use crate::table::target_ids;
use crate::target::TraitcastTarget;
use vstd::prelude::*;

verus! {

/// The base capability: a value that can say which interfaces it converts to.
///
/// The table belongs to the concrete type. It must hold only entries made with
/// [`TraitcastTarget::from`] for that same type: an entry made for another type
/// converts nothing. Beside the table stands the entry that converts the value to
/// its own concrete type, made with [`TraitcastTarget::concrete`].
pub trait TraitcastableAny: 'static {
    /// The table of this value's type. It is a function of the value: every call
    /// of [`traitcast_targets`](Self::traitcast_targets) returns these entries.
    ///
    /// A type whose implementation is verified says here what its table holds.
    /// Of any other type's table nothing is known but that it does not change.
    open spec fn targets(&self) -> Seq<TraitcastTarget> {
        arbitrary()
    }

    /// The entry that converts this value to its own concrete type. Every call of
    /// [`concrete_target`](Self::concrete_target) returns it.
    ///
    /// A type whose implementation is verified says here which entry that is.
    open spec fn concrete(&self) -> TraitcastTarget {
        arbitrary()
    }

    /// The entries for all interfaces this value can be cast to.
    fn traitcast_targets(&self) -> (table: &[TraitcastTarget])
        ensures
            table@ == self.targets(),
    ;

    /// The conversion of this value to its own concrete type:
    /// `TraitcastTarget::concrete::<Self>(name)`.
    fn concrete_target(&self) -> (entry: TraitcastTarget)
        ensures
            entry == self.concrete(),
    ;

    /// Looks up the entry that converts to `target`.
    ///
    /// The provided search walks the table from the front. An implementation may
    /// search another way, as long as it returns the first entry for `target` and
    /// returns nothing only when there is none.
    fn find_traitcast_target(&self, target: TypeId) -> (found: Option<&TraitcastTarget>)
        ensures
            match first_match(target_ids(self.targets()), target) {
                Some(i) => found == Some(&self.targets()[i]),
                None => found is None,
            },
    {
        let table = self.traitcast_targets();
        match find_target(table, target) {
            Some(i) => Some(&table[i]),
            None => None,
        }
    }

    /// The identifier of the concrete type.
    fn type_id(&self) -> TypeId {
        concrete_type_id(self)
    }

    /// This value as a shared `dyn Any`: `AnyRef(self)`.
    fn as_any(&self) -> AnyRef<'_>;

    /// This value as an exclusive `dyn Any`: `AnyMut(self)`.
    fn as_any_mut(&mut self) -> AnyMut<'_>;

    /// This boxed value as a boxed `dyn Any`: `AnyBox(self)`.
    fn into_any(self: Box<Self>) -> AnyBox;
}

/// The conversions from the base capability to `Target`, for one concrete type.
///
/// Each conversion checks that the value it is given is of the implementing
/// type, converts it to `Target` if so, and refuses it otherwise.
pub trait TraitcastableTo<Target: 'static + ?Sized>: TraitcastableAny {
    /// Casts a shared reference.
    fn to_dyn_ref(input: &dyn TraitcastableAny) -> Option<&Target>;

    /// Casts an exclusive reference.
    fn to_dyn_mut<'a>(input: &'a mut (dyn TraitcastableAny + 'static)) -> Option<&'a mut Target>;

    /// Casts a box. A box that is refused comes back as the error, or a value
    /// that casts to nothing in its place.
    fn to_dyn_box(input: Box<dyn TraitcastableAny>) -> (cast: Result<
        Box<Target>,
        Box<dyn TraitcastableAny>,
    >)
        ensures
            cast matches Err(back) ==> back == input || back.targets() == Seq::<
                TraitcastTarget,
            >::empty(),
    ;
}

} // verus!
