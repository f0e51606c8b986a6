//! The boundary to `core::any::Any`.
//!
//! Verus does not look inside a `dyn Any`, so every value of that kind is kept in
//! an opaque handle, and every step that needs one is a small function whose body
//! is not verified. Nothing here decides anything about a cast: the handles are
//! made, passed on, and opened again at an exact type.

use core::any::Any;
use core::any::TypeId;
use crate::cast::concrete_box;
use crate::cast::concrete_mut;
use crate::cast::concrete_ref;
use crate::castable::TraitcastableAny;
use crate::castable::TraitcastableTo;
use vstd::prelude::*;

verus! {

/// A conversion function whose signature has been erased.
///
/// The function is kept behind `dyn Any`, so it can only be called after it has
/// been recovered at the exact signature it was stored with. Verus sees nothing
/// of what is inside.
#[verifier::external_body]
pub struct ErasedFn {
    inner: &'static (dyn Any + Send + Sync),
}

impl Clone for ErasedFn {
    fn clone(&self) -> Self {
        *self
    }
}

impl Copy for ErasedFn {

}

/// A shared reference to a value whose concrete type is only known at run time.
#[verifier::external_body]
pub struct AnyRef<'a>(pub &'a dyn Any);

/// An exclusive reference to a value whose concrete type is only known at run time.
#[verifier::external_body]
pub struct AnyMut<'a>(pub &'a mut dyn Any);

/// An owned, boxed value whose concrete type is only known at run time.
#[verifier::external_body]
pub struct AnyBox(pub Box<dyn Any>);

/// Coerces `&T` to `&dyn Any`.
#[verifier::external_body]
pub(crate) fn any_ref<T: 'static>(value: &T) -> AnyRef<'_> {
    AnyRef(value)
}

/// Coerces `&mut T` to `&mut dyn Any`.
#[verifier::external_body]
pub(crate) fn any_mut<T: 'static>(value: &mut T) -> AnyMut<'_> {
    AnyMut(value)
}

/// Coerces `Box<T>` to `Box<dyn Any>`.
#[verifier::external_body]
pub(crate) fn any_box<T: 'static>(value: Box<T>) -> AnyBox {
    AnyBox(value)
}

/// Calls `Any::type_id` on the value, which gives the identifier of the type `T`.
#[verifier::external_body]
pub(crate) fn concrete_type_id<T: ?Sized + 'static>(value: &T) -> TypeId {
    Any::type_id(value)
}

/// Calls `<dyn Any>::downcast_ref::<T>`.
#[verifier::external_body]
pub(crate) fn open_ref<'a, T: 'static>(handle: AnyRef<'a>) -> Option<&'a T> {
    handle.0.downcast_ref::<T>()
}

/// Calls `<dyn Any>::downcast_mut::<T>`.
#[verifier::external_body]
pub(crate) fn open_mut<'a, T: 'static>(handle: AnyMut<'a>) -> Option<&'a mut T> {
    handle.0.downcast_mut::<T>()
}

/// Calls `<dyn Any>::is::<T>`.
#[verifier::external_body]
pub(crate) fn holds<T: 'static>(handle: AnyRef<'_>) -> bool {
    handle.0.is::<T>()
}

/// Calls `Box::<dyn Any>::downcast::<T>`. On failure std hands the box back, and
/// so does this function.
#[verifier::external_body]
pub(crate) fn open_box<T: 'static>(handle: AnyBox) -> (opened: Result<Box<T>, AnyBox>)
    ensures
        opened matches Err(back) ==> back == handle,
{
    handle.0.downcast::<T>().map_err(AnyBox)
}

/// Stores `Src::to_dyn_ref` behind `dyn Any`.
#[verifier::external_body]
pub(crate) fn erase_ref<Src: TraitcastableTo<Target>, Target: ?Sized + 'static>() -> ErasedFn {
    ErasedFn { inner: &(Src::to_dyn_ref as fn(&dyn TraitcastableAny) -> Option<&Target>) }
}

/// Stores `Src::to_dyn_mut` behind `dyn Any`.
#[verifier::external_body]
pub(crate) fn erase_mut<Src: TraitcastableTo<Target>, Target: ?Sized + 'static>() -> ErasedFn {
    ErasedFn { inner: &(Src::to_dyn_mut as for<'x> fn(&'x mut (dyn TraitcastableAny + 'static)) -> Option<&'x mut Target>) }
}

/// Stores `Src::to_dyn_box` behind `dyn Any`.
#[verifier::external_body]
pub(crate) fn erase_box<Src: TraitcastableTo<Target>, Target: ?Sized + 'static>() -> ErasedFn {
    ErasedFn {
        inner: &(Src::to_dyn_box as fn(Box<dyn TraitcastableAny>) -> Result<
            Box<Target>,
            Box<dyn TraitcastableAny>,
        >),
    }
}

/// Stores [`concrete_ref::<C>`](crate::cast::concrete_ref) behind `dyn Any`.
#[verifier::external_body]
pub(crate) fn erase_concrete_ref<C: 'static>() -> ErasedFn {
    ErasedFn { inner: &(concrete_ref::<C> as fn(&dyn TraitcastableAny) -> Option<&C>) }
}

/// Stores [`concrete_mut::<C>`](crate::cast::concrete_mut) behind `dyn Any`.
#[verifier::external_body]
pub(crate) fn erase_concrete_mut<C: 'static>() -> ErasedFn {
    ErasedFn { inner: &(concrete_mut::<C> as for<'x> fn(&'x mut (dyn TraitcastableAny + 'static)) -> Option<&'x mut C>) }
}

/// Stores [`concrete_box::<C>`](crate::cast::concrete_box) behind `dyn Any`.
#[verifier::external_body]
pub(crate) fn erase_concrete_box<C: 'static>() -> ErasedFn {
    ErasedFn {
        inner: &(concrete_box::<C> as fn(Box<dyn TraitcastableAny>) -> Result<
            Box<C>,
            Box<dyn TraitcastableAny>,
        >),
    }
}

/// Recovers a by-reference conversion with `<dyn Any>::downcast_ref` and calls it on
/// `source`. Where the stored function has another signature there is nothing to
/// call, and the result is `None`.
#[verifier::external_body]
pub(crate) fn invoke_ref<'a, Target: ?Sized + 'static>(
    converter: ErasedFn,
    source: &'a dyn TraitcastableAny,
) -> Option<&'a Target> {
    let convert =
        converter.inner.downcast_ref::<fn(&dyn TraitcastableAny) -> Option<&Target>>()?;
    convert(source)
}

impl dyn TraitcastableAny {
    /// Recovers a by-mutable-reference conversion with `<dyn Any>::downcast_ref` and
    /// calls it on this value. Where the stored function has another signature
    /// there is nothing to call, and the result is `None`.
    #[verifier::external_body]
    pub(crate) fn invoke_mut<Target: ?Sized + 'static>(&mut self, converter: ErasedFn) -> Option<
        &mut Target,
    > {
        let convert = converter.inner.downcast_ref::<
            for<'x> fn(&'x mut (dyn TraitcastableAny + 'static)) -> Option<&'x mut Target>,
        >()?;
        convert(self)
    }
}

impl dyn TraitcastableAny {
    /// Recovers an owning conversion with `<dyn Any>::downcast_ref` and calls it on
    /// this box. Where the stored function has another signature there is nothing
    /// to call, and the box comes back as the error.
    ///
    /// The contract hands on what [`TraitcastableTo::to_dyn_box`] demands of every
    /// conversion: a box that is refused comes back, or a value that casts to
    /// nothing in its place.
    #[verifier::external_body]
    pub(crate) fn invoke_box<Target: ?Sized + 'static>(
        self: Box<Self>,
        converter: ErasedFn,
    ) -> (cast: Result<Box<Target>, Box<Self>>)
        ensures
            cast is Err ==> cast->Err_0 == self || cast->Err_0.targets().len() == 0,
    {
        match converter.inner.downcast_ref::<
            fn(Box<dyn TraitcastableAny>) -> Result<Box<Target>, Box<dyn TraitcastableAny>>,
        >() {
            Some(convert) => convert(self),
            None => Err(self),
        }
    }
}

} // verus!
