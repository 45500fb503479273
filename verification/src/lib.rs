//! A small event-sourcing library: aggregates turn commands into events,
//! events are applied to rebuild state, and a journal of serialized events
//! is ordered and decoded back into a sequence-numbered history.

mod clock;
mod text;
pub mod entities;
pub mod errors;
pub mod eventstore;
pub mod handler;
pub mod identifier;
pub mod markers;
pub mod process;
