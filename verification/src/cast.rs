//! The cast dispatcher.
//!
//! A value casts to its own concrete type and to the interfaces that its table
//! declares. For the first it answers with an entry of its own, which stands
//! beside the table; a cast looks there before it searches the table.
//!
//! Every cast comes in two layers. The functions that take the wanted identifier
//! as an argument hold the logic and say exactly when a cast is refused. The
//! methods that take the wanted type as a type parameter ask std for its
//! identifier and call those functions.

use core::any::TypeId;
use crate::castable::TraitcastableAny;
use crate::erased::any_box;
use crate::erased::any_mut;
use crate::erased::any_ref;
use crate::erased::AnyBox;
use crate::erased::AnyMut;
use crate::erased::AnyRef;
use crate::erased::holds;
use crate::erased::invoke_ref;
use crate::erased::open_box;
use crate::erased::open_mut;
use crate::erased::open_ref;
use crate::rtti::same_type_id;
use crate::rtti::type_id_of;
use crate::table::first_match;
use crate::table::lemma_first_match_some_iff_contains;
use crate::table::target_ids;
use crate::target::TraitcastTarget;
use vstd::prelude::*;

verus! {

/// Whether a value with this table can be cast to the interface `target`.
pub open spec fn castable_to(table: Seq<TraitcastTarget>, target: TypeId) -> bool {
    first_match(target_ids(table), target) is Some
}

/// A value can be cast to every interface that its table declares.
pub proof fn lemma_declared_is_castable(table: Seq<TraitcastTarget>, i: int)
    requires
        0 <= i < table.len(),
    ensures
        castable_to(table, table[i]@.target),
{
    let ids = target_ids(table);
    assert(ids[i] == table[i]@.target);
    lemma_first_match_some_iff_contains(ids, table[i]@.target);
}

/// A value cannot be cast to an interface that its table does not declare.
pub proof fn lemma_undeclared_is_not_castable(table: Seq<TraitcastTarget>, target: TypeId)
    requires
        forall|i: int| 0 <= i < table.len() ==> table[i]@.target != target,
    ensures
        !castable_to(table, target),
{
    let ids = target_ids(table);
    lemma_first_match_some_iff_contains(ids, target);
    if ids.contains(target) {
        let i = choose|i: int| 0 <= i < ids.len() && ids[i] == target;
        assert(table[i]@.target == target);
    }
}

/// The entry whose conversion a cast to `target` hands the value to: the value's
/// own entry for its concrete type, else the first entry of its table for
/// `target`, if there is one.
pub open spec fn conversion_to(
    concrete: TraitcastTarget,
    table: Seq<TraitcastTarget>,
    target: TypeId,
) -> Option<TraitcastTarget> {
    if concrete@.target == target {
        Some(concrete)
    } else {
        match first_match(target_ids(table), target) {
            Some(i) => Some(table[i]),
            None => None,
        }
    }
}

/// Whether a value with this own entry and this table can be cast to `target`:
/// to its own concrete type always, to an interface where the table declares it.
pub open spec fn casts_to(
    concrete: TraitcastTarget,
    table: Seq<TraitcastTarget>,
    target: TypeId,
) -> bool {
    concrete@.target == target || castable_to(table, target)
}

/// Every value can be cast to its own concrete type, and the conversion that such
/// a cast hands it to is the value's own entry.
pub proof fn lemma_concrete_is_castable(concrete: TraitcastTarget, table: Seq<TraitcastTarget>)
    ensures
        casts_to(concrete, table, concrete@.target),
        conversion_to(concrete, table, concrete@.target) == Some(concrete),
{
}

/// A cast finds a conversion exactly for the targets that the value casts to:
/// its own concrete type and the interfaces that its table declares.
pub proof fn lemma_conversion_iff_casts_to(
    concrete: TraitcastTarget,
    table: Seq<TraitcastTarget>,
    target: TypeId,
)
    ensures
        conversion_to(concrete, table, target) is Some <==> casts_to(concrete, table, target),
        conversion_to(concrete, table, target) matches Some(entry) ==> entry@.target == target,
{
    lemma_first_match_some_iff_contains(target_ids(table), target);
}

/// The conversion of `input` to its concrete type `C`, by shared reference.
pub fn concrete_ref<C: 'static>(input: &dyn TraitcastableAny) -> Option<&C> {
    input.downcast_to_concrete_ref::<C>()
}

/// The conversion of `input` to its concrete type `C`, by exclusive reference.
pub fn concrete_mut<'a, C: 'static>(input: &'a mut (dyn TraitcastableAny + 'static)) -> Option<
    &'a mut C,
> {
    input.downcast_to_concrete_mut::<C>()
}

/// The conversion of `input` to its concrete type `C`, as a box. A box that is
/// refused comes back as the downcast to `C` returned it: unchanged, or as an
/// [`Unopened`] where the type's answers on its concrete type disagree.
pub fn concrete_box<C: 'static>(input: Box<dyn TraitcastableAny>) -> (cast: Result<
    Box<C>,
    Box<dyn TraitcastableAny>,
>)
    ensures
        cast matches Err(back) ==> back == input || back.targets() == Seq::<
            TraitcastTarget,
        >::empty(),
{
    input.downcast_to_concrete_box::<C>()
}

/// What becomes of a box that was given up to be opened as a `T`: the opened box,
/// or what is left of it as a value that casts to nothing.
pub fn opened_or_unopened<T: 'static>(opened: Result<Box<T>, AnyBox>) -> (cast: Result<
    Box<T>,
    Box<dyn TraitcastableAny>,
>)
    ensures
        opened matches Ok(value) ==> cast == Ok::<Box<T>, Box<dyn TraitcastableAny>>(value),
        opened is Err ==> cast is Err && cast->Err_0.targets() == Seq::<
            TraitcastTarget,
        >::empty(),
{
    match opened {
        Ok(value) => Ok(value),
        Err(handle) => {
            let left: Box<dyn TraitcastableAny> = Box::new(Unopened::new(handle));
            let refused = Err(left);
            refused
        },
    }
}

impl dyn TraitcastableAny {
    /// Picks the entry whose conversion a cast to `target` hands this value to.
    pub fn find_conversion(&self, target: TypeId) -> (found: Option<TraitcastTarget>)
        ensures
            found == conversion_to(self.concrete(), self.targets(), target),
    {
        let own = self.concrete_target();
        if same_type_id(&own.target_type_id(), &target) {
            Some(own)
        } else {
            match self.find_traitcast_target(target) {
                Some(entry) => Some(*entry),
                None => None,
            }
        }
    }

    /// Whether this value can be cast to what `target` identifies: its own
    /// concrete type, or an interface that its table declares.
    pub fn can_be_target(&self, target: TypeId) -> (feasible: bool)
        ensures
            feasible == casts_to(self.concrete(), self.targets(), target),
    {
        self.find_conversion(target).is_some()
    }

    /// Casts a shared reference to what `target` identifies.
    ///
    /// Where `target` is neither the concrete type of this value nor declared by
    /// its table, the cast is refused. Otherwise the result is whatever the
    /// conversion picked by [`find_conversion`](Self::find_conversion) makes of
    /// this value.
    pub fn downcast_ref_target<Target: ?Sized + 'static>(&self, target: TypeId) -> (cast: Option<
        &Target,
    >)
        ensures
            !casts_to(self.concrete(), self.targets(), target) ==> cast is None,
    {
        match self.find_conversion(target) {
            Some(entry) => invoke_ref::<Target>(entry.ref_converter(), self),
            None => None,
        }
    }

    /// Casts an exclusive reference to what `target` identifies.
    ///
    /// Where `target` is neither the concrete type of this value nor declared by
    /// its table, the cast is refused. Otherwise the result is whatever the
    /// conversion picked by [`find_conversion`](Self::find_conversion) makes of
    /// this value.
    pub fn downcast_mut_target<Target: ?Sized + 'static>(&mut self, target: TypeId) -> (cast:
        Option<&mut Target>)
        ensures
            !casts_to(old(self).concrete(), old(self).targets(), target) ==> cast is None,
    {
        match self.find_conversion(target) {
            Some(entry) => self.invoke_mut::<Target>(entry.mut_converter()),
            None => None,
        }
    }

    /// Casts a box to what `target` identifies.
    ///
    /// Where `target` is neither the concrete type of this value nor declared by
    /// its table, the box comes back untouched as the error. Otherwise the result
    /// is whatever the conversion picked by
    /// [`find_conversion`](Self::find_conversion) makes of the box; a conversion
    /// that refuses gives the box back, or a value that casts to nothing in its
    /// place.
    pub fn downcast_box_target<Target: ?Sized + 'static>(self: Box<Self>, target: TypeId) -> (cast:
        Result<Box<Target>, Box<Self>>)
        ensures
            !casts_to(self.concrete(), self.targets(), target) ==> cast is Err && cast->Err_0
                == self,
            cast matches Err(back) ==> back == self || back.targets() == Seq::<
                TraitcastTarget,
            >::empty(),
    {
        match self.find_conversion(target) {
            Some(entry) => self.invoke_box::<Target>(entry.box_converter()),
            None => {
                let refused = Err(self);
                refused
            },
        }
    }

    /// A shared reference to this value as its concrete type `T`, or nothing if
    /// its concrete type is another.
    pub fn downcast_to_concrete_ref<T: 'static>(&self) -> Option<&T> {
        open_ref::<T>(self.as_any())
    }

    /// An exclusive reference to this value as its concrete type `T`, or nothing
    /// if its concrete type is another.
    pub fn downcast_to_concrete_mut<T: 'static>(&mut self) -> Option<&mut T> {
        open_mut::<T>(self.as_any_mut())
    }

    /// The box as a box of its concrete type `T`. Where its concrete type is
    /// another, the box comes back as the error.
    ///
    /// The concrete type is asked of [`TraitcastableAny::as_any`] before the box
    /// is given up to [`TraitcastableAny::into_any`]. Should a type answer the
    /// two differently, the second answer cannot be opened as a `T`, and what is
    /// left of it comes back as the error in place of the box: an [`Unopened`],
    /// which casts to nothing.
    pub fn downcast_to_concrete_box<T: 'static>(self: Box<Self>) -> (cast: Result<
        Box<T>,
        Box<Self>,
    >)
        ensures
            cast matches Err(back) ==> back == self || back.targets() == Seq::<
                TraitcastTarget,
            >::empty(),
    {
        let is_concrete = holds::<T>(self.as_any());
        self.downcast_to_concrete_box_if::<T>(is_concrete)
    }

    /// The box as a box of `T` where `is_concrete` says that its concrete type is
    /// `T`, and the box itself as the error where it says otherwise.
    pub fn downcast_to_concrete_box_if<T: 'static>(self: Box<Self>, is_concrete: bool) -> (cast:
        Result<Box<T>, Box<Self>>)
        ensures
            !is_concrete ==> cast is Err && cast->Err_0 == self,
            cast matches Err(back) ==> back == self || back.targets() == Seq::<
                TraitcastTarget,
            >::empty(),
    {
        if is_concrete {
            opened_or_unopened::<T>(open_box::<T>(self.into_any()))
        } else {
            let refused = Err(self);
            refused
        }
    }

    /// Whether the concrete type of this value is the type identified by `target`.
    pub fn is_type(&self, target: TypeId) -> bool {
        let own = self.type_id();
        same_type_id(&own, &target)
    }
}

/// What is left of a box whose type answered for `T` by reference and then gave
/// up a box that is no `T`. It holds what the type gave up, and casts to nothing
/// but itself.
pub struct Unopened {
    handle: AnyBox,
    own: TraitcastTarget,
}

impl Unopened {
    /// What the type gave up.
    pub closed spec fn handle(&self) -> AnyBox {
        self.handle
    }

    /// Keeps `handle`.
    pub fn new(handle: AnyBox) -> (unopened: Unopened)
        ensures
            unopened.handle() == handle,
            unopened.targets() == Seq::<TraitcastTarget>::empty(),
    {
        Unopened { handle, own: TraitcastTarget::concrete::<Unopened>("Unopened") }
    }

    /// Gives up what is kept.
    pub fn into_handle(self) -> (handle: AnyBox)
        ensures
            handle == self.handle(),
    {
        self.handle
    }

    /// The entry that converts an `Unopened` to itself.
    pub closed spec fn own(&self) -> TraitcastTarget {
        self.own
    }
}

impl TraitcastableAny for Unopened {
    open spec fn targets(&self) -> Seq<TraitcastTarget> {
        Seq::empty()
    }

    open spec fn concrete(&self) -> TraitcastTarget {
        self.own()
    }

    fn traitcast_targets(&self) -> (table: &[TraitcastTarget]) {
        &[]
    }

    fn concrete_target(&self) -> (entry: TraitcastTarget) {
        self.own
    }

    fn as_any(&self) -> AnyRef<'_> {
        any_ref(self)
    }

    fn as_any_mut(&mut self) -> AnyMut<'_> {
        any_mut(self)
    }

    fn into_any(self: Box<Self>) -> AnyBox {
        any_box(self)
    }
}

/// Casts between the base capability and `Target`: the concrete type of the
/// value, or an interface that its table declares.
pub trait TraitcastableAnyInfra<Target: ?Sized>: TraitcastableAny {
    /// Whether `Target` is the concrete type of this value.
    fn is(&self) -> bool;

    /// Whether this value can be cast to `Target`.
    ///
    /// The answer is the one for one identifier, the one that std gives for
    /// `Target`.
    fn can_be(&self) -> (feasible: bool)
        ensures
            exists|target: TypeId| feasible == casts_to(self.concrete(), self.targets(), target),
    ;

    /// A shared reference to this value as a `Target`, if it can be cast to
    /// `Target`.
    fn downcast_ref(&self) -> Option<&Target>;

    /// An exclusive reference to this value as a `Target`, if it can be cast to
    /// `Target`.
    fn downcast_mut(&mut self) -> Option<&mut Target>;
}

impl<Target: ?Sized + 'static> TraitcastableAnyInfra<Target> for dyn TraitcastableAny {
    fn is(&self) -> bool {
        self.is_type(type_id_of::<Target>())
    }

    fn can_be(&self) -> (feasible: bool) {
        let target = type_id_of::<Target>();
        let feasible = self.can_be_target(target);
        assert(feasible == casts_to(self.concrete(), self.targets(), target));
        feasible
    }

    fn downcast_ref(&self) -> Option<&Target> {
        self.downcast_ref_target::<Target>(type_id_of::<Target>())
    }

    fn downcast_mut(&mut self) -> Option<&mut Target> {
        self.downcast_mut_target::<Target>(type_id_of::<Target>())
    }
}

/// Casts an owning handle of the base capability to one of `Target`.
pub trait TraitcastableAnyInfraExt<Target: ?Sized + 'static>: Sized {
    /// The handle that a successful cast gives.
    type Output;

    /// The table of the value that the handle owns.
    spec fn declared(&self) -> Seq<TraitcastTarget>;

    /// Casts the handle in place. Where the cast is refused, the handle comes back
    /// as the error, so nothing is dropped; a conversion whose type disagrees
    /// with itself on its concrete type gives a value that casts to nothing in
    /// its place.
    fn downcast(self) -> (cast: Result<Self::Output, Self>)
        ensures
            cast matches Err(back) ==> back == self || back.declared() == Seq::<
                TraitcastTarget,
            >::empty(),
    ;
}

impl<Target: ?Sized + 'static> TraitcastableAnyInfraExt<Target> for Box<dyn TraitcastableAny> {
    type Output = Box<Target>;

    open spec fn declared(&self) -> Seq<TraitcastTarget> {
        self.targets()
    }

    fn downcast(self) -> (cast: Result<Box<Target>, Box<dyn TraitcastableAny>>) {
        self.downcast_box_target::<Target>(type_id_of::<Target>())
    }
}

} // verus!
