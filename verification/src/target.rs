//! One entry of a capability table.

use core::any::TypeId;
use crate::castable::TraitcastableTo;
use crate::erased::erase_box;
use crate::erased::erase_concrete_box;
use crate::erased::erase_concrete_mut;
use crate::erased::erase_concrete_ref;
use crate::erased::erase_mut;
use crate::erased::erase_ref;
use crate::erased::ErasedFn;
use crate::rtti::type_id_of;
use vstd::prelude::*;

verus! {

/// What the casting logic reads from an entry.
pub struct TargetView {
    /// The identifier of the interface the entry converts to.
    pub target: TypeId,
    /// The interface's name, for diagnostics.
    pub name: Seq<char>,
    /// The conversion of shared references that the entry was made with.
    pub to_dyn_ref: ErasedFn,
    /// The conversion of exclusive references that the entry was made with.
    pub to_dyn_mut: ErasedFn,
    /// The conversion of boxes that the entry was made with.
    pub to_dyn_box: ErasedFn,
}

/// The conversion from the base capability to one other interface.
#[derive(Clone, Copy)]
pub struct TraitcastTarget {
    target_type_id: TypeId,
    target_type_name: &'static str,
    to_dyn_ref: ErasedFn,
    to_dyn_mut: ErasedFn,
    to_dyn_box: ErasedFn,
}

impl View for TraitcastTarget {
    type V = TargetView;

    closed spec fn view(&self) -> TargetView {
        TargetView {
            target: self.target_type_id,
            name: self.target_type_name@,
            to_dyn_ref: self.to_dyn_ref,
            to_dyn_mut: self.to_dyn_mut,
            to_dyn_box: self.to_dyn_box,
        }
    }
}

impl TraitcastTarget {
    /// The identifier of the interface this entry converts to.
    pub fn target_type_id(&self) -> (id: TypeId)
        ensures
            id == self@.target,
    {
        self.target_type_id
    }

    /// The name of the interface this entry converts to.
    pub fn target_type_name(&self) -> (name: &'static str)
        ensures
            name@ == self@.name,
    {
        self.target_type_name
    }

    /// Makes the entry that converts values of type `Src` to `Target`.
    ///
    /// The entry records the identifier of `Target` beside the conversions that
    /// `Src` declares for it, so a lookup by that identifier always reaches
    /// conversions of the matching signature. `target_type_name` is what
    /// diagnostics will call the interface.
    pub fn from<Src: TraitcastableTo<Target>, Target: 'static + ?Sized>(
        target_type_name: &'static str,
    ) -> (entry: TraitcastTarget)
        ensures
            entry@.name == target_type_name@,
    {
        TraitcastTarget {
            target_type_id: type_id_of::<Target>(),
            target_type_name,
            to_dyn_ref: erase_ref::<Src, Target>(),
            to_dyn_mut: erase_mut::<Src, Target>(),
            to_dyn_box: erase_box::<Src, Target>(),
        }
    }

    /// Makes the entry that converts a value to its own concrete type `C`.
    ///
    /// Every castable type answers with this entry when it is asked for the
    /// conversion to itself. `target_type_name` is what diagnostics will call the
    /// type.
    pub fn concrete<C: 'static>(target_type_name: &'static str) -> (entry: TraitcastTarget)
        ensures
            entry@.name == target_type_name@,
    {
        TraitcastTarget {
            target_type_id: type_id_of::<C>(),
            target_type_name,
            to_dyn_ref: erase_concrete_ref::<C>(),
            to_dyn_mut: erase_concrete_mut::<C>(),
            to_dyn_box: erase_concrete_box::<C>(),
        }
    }

    /// The conversion of shared references that a cast hands the value to.
    pub(crate) fn ref_converter(&self) -> (converter: ErasedFn)
        ensures
            converter == self@.to_dyn_ref,
    {
        self.to_dyn_ref
    }

    /// The conversion of exclusive references that a cast hands the value to.
    pub(crate) fn mut_converter(&self) -> (converter: ErasedFn)
        ensures
            converter == self@.to_dyn_mut,
    {
        self.to_dyn_mut
    }

    /// The conversion of boxes that a cast hands the value to.
    pub(crate) fn box_converter(&self) -> (converter: ErasedFn)
        ensures
            converter == self@.to_dyn_box,
    {
        self.to_dyn_box
    }
}

} // verus!
