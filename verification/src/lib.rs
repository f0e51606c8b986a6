//! Casting from a base capability to the other interfaces a concrete type declares.
//!
//! A castable value exposes a table of targets. Each entry pairs the runtime type
//! identifier of one interface with the type-erased functions that convert the
//! base capability into that interface. A cast searches the table for the wanted
//! identifier and, on a hit, hands the value to the conversion recorded beside it.
//! The value's own concrete type needs no declaration: every value answers for it
//! with an entry of its own.
//! On a miss nothing happens to the value: a reference cast gives `None`, and an
//! owning cast gives the owner back.

pub mod cast;
pub mod castable;
pub mod declare;
pub mod erased;
pub mod foo;
pub mod manifest;
pub mod render;
pub mod rtti;
pub mod table;
pub mod target;

pub use cast::TraitcastableAnyInfra;
pub use cast::TraitcastableAnyInfraExt;
pub use cast::Unopened;
pub use castable::TraitcastableAny;
pub use castable::TraitcastableTo;
pub use declare::DeclarationError;
pub use declare::TableOrder;
pub use declare::TraitcastTable;
pub use erased::AnyBox;
pub use erased::AnyMut;
pub use erased::AnyRef;
pub use target::TraitcastTarget;
