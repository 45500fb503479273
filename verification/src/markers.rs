//! The roles that the types of a domain play: aggregates, commands and events.

use crate::identifier::EntityId;
use vstd::prelude::*;

verus! {

/// A consistency boundary whose state changes only by applying events.
pub trait Aggregate: Sized {
    /// The identifier of the aggregate, as journaled.
    spec fn entity_id(&self) -> Seq<char>;

    fn id(&self) -> (id: EntityId)
        ensures
            id@ == self.entity_id(),
    ;
}

/// A request to change an aggregate.
pub trait Command: Sized {

}

/// A fact that happened to an aggregate.
pub trait Event: Sized {
    /// The key under which events of this type are journaled.
    const REGISTRY_KEY: &'static str;
}

} // verus!
