//! The aggregates of the domain.

pub mod user;
