//! An entity-component data engine: versioned entity identifiers with
//! generational reuse, per-type columnar component storage with presence
//! bitsets, a predicate query evaluator over those bitsets, and a deferred
//! command buffer that stages structural changes requested during a query
//! pass.

use vstd::prelude::*;

pub mod component;
pub mod control;
pub mod entity;
pub mod query;
pub mod tup_append;
pub mod world;

verus! {

/// The failures the engine reports instead of corrupting its state:
/// registering a component key twice, touching an unregistered key,
/// operating on a stale or doubly-destroyed entity handle, and running
/// against the limits of the machine's index or version width.
#[derive(PartialEq, Eq, Structural, Clone, Copy, Debug)]
pub enum EcsError {
    AlreadyRegistered,
    UnregisteredComponent,
    InvalidEntity,
    CapacityExhausted,
}

} // verus!
