//! Runtime type identifiers.
//!
//! The identifier of an interface is a `core::any::TypeId`. It is opaque: the only
//! things that can be learned from two identifiers are whether they are equal and
//! which of them comes first in the order std gives them.

use core::any::TypeId;
use vstd::prelude::*;

verus! {

/// `core::any::TypeId`, carried through as an opaque value.
#[verifier::external_type_specification]
#[verifier::external_body]
pub struct ExTypeId(TypeId);

/// The position of an identifier in the total order that `TypeId` implements.
///
/// Two identifiers share a position only when they are equal. Nothing else is
/// known of the positions; std documents that they change between releases.
pub uninterp spec fn type_id_rank(id: TypeId) -> int;

/// Calls `TypeId::of::<T>()`.
///
/// Nothing is stated about the identifier that comes back.
#[verifier::external_body]
pub(crate) fn type_id_of<T: ?Sized + 'static>() -> TypeId {
    TypeId::of::<T>()
}

/// Compares two identifiers with `TypeId`'s `==`.
///
/// The contract claims that `==` holds exactly of equal identifiers, and that
/// equal identifiers are exactly those with the same position in the order.
#[verifier::external_body]
pub(crate) fn same_type_id(a: &TypeId, b: &TypeId) -> (r: bool)
    ensures
        r == (*a == *b),
        r == (type_id_rank(*a) == type_id_rank(*b)),
{
    a == b
}

/// Compares two identifiers with `TypeId`'s `<`.
///
/// The contract claims that `<` is the strict order of the positions.
#[verifier::external_body]
pub(crate) fn type_id_precedes(a: &TypeId, b: &TypeId) -> (r: bool)
    ensures
        r == (type_id_rank(*a) < type_id_rank(*b)),
{
    a < b
}

} // verus!
