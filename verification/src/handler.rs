//! Handling commands and applying events, for any aggregate.

use crate::markers::{Aggregate, Command, Event};
use vstd::prelude::*;

verus! {

/// An aggregate that decides, from its current state, which event a command leads to.
pub trait CommandHandler<C: Command>: Aggregate {
    type Event: Event;

    type Rejection;

    /// What handling `command` in the current state gives.
    spec fn outcome(&self, command: C) -> Result<Self::Event, Self::Rejection>;

    fn handle(&self, command: C) -> (r: Result<Self::Event, Self::Rejection>)
        ensures
            r == self.outcome(command),
    ;
}

/// An aggregate whose state moves forward by applying events.
pub trait EventApplicator<E: Event>: Aggregate {
    /// The state after applying `event` to the current state.
    spec fn applied(&self, event: E) -> Self;

    fn apply(&mut self, event: E)
        ensures
            *final(self) == old(self).applied(event),
    ;
}

/// Lets `entity` handle `command`.
pub fn handle<T, C: Command>(entity: &T, command: C) -> (r: Result<T::Event, T::Rejection>) where
    T: CommandHandler<C>,

    ensures
        r == entity.outcome(command),
{
    entity.handle(command)
}

/// Applies `event` to `entity`.
pub fn apply<T, E: Event>(entity: &mut T, event: E) where T: EventApplicator<E>
    ensures
        *final(entity) == old(entity).applied(event),
{
    entity.apply(event);
}

} // verus!
