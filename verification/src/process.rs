//! The decisions of the process that owns an aggregate: it receives commands
//! and events one at a time, and numbers the events it journals.

use crate::errors::ChannelDropped;
use crate::handler::{CommandHandler, EventApplicator};
use crate::identifier::EntityId;
use crate::markers::{Aggregate, Command};
use vstd::prelude::*;

verus! {

/// The state that the process keeps beside its aggregate: the sequence
/// number that the next journaled event receives.
#[derive(Debug)]
pub struct Context {
    seq: i64,
}

impl View for Context {
    type V = int;

    closed spec fn view(&self) -> int {
        self.seq as int
    }
}

/// The sequence number after one event has been applied and its reply
/// either delivered or not: it moves on by one only on delivery.
pub open spec fn seq_after(seq: int, delivered: bool) -> int {
    if delivered {
        seq + 1
    } else {
        seq
    }
}

/// The sequence number after a run of applied events, given for each
/// whether its reply was delivered.
pub open spec fn seq_after_all(seq: int, deliveries: Seq<bool>) -> int
    decreases deliveries.len(),
{
    if deliveries.len() == 0 {
        seq
    } else {
        seq_after(seq_after_all(seq, deliveries.drop_last()), deliveries.last())
    }
}

/// The number of delivered replies in a run.
pub open spec fn delivered_count(deliveries: Seq<bool>) -> nat
    decreases deliveries.len(),
{
    if deliveries.len() == 0 {
        0
    } else {
        delivered_count(deliveries.drop_last()) + if deliveries.last() {
            1nat
        } else {
            0nat
        }
    }
}

impl Context {
    /// A context whose next event gets sequence number `seq`.
    pub fn new(seq: i64) -> (ctx: Context)
        ensures
            ctx@ == seq as int,
    {
        Context { seq }
    }

    /// The sequence number that the next journaled event receives.
    pub fn seq(&self) -> (seq: i64)
        ensures
            seq as int == self@,
    {
        self.seq
    }

    /// Settles an applied event once its reply has been sent: the sequence
    /// number moves on if the reply was delivered; otherwise it stays and
    /// the lost receiver is reported.
    pub fn advance(&mut self, delivered: bool) -> (r: Result<(), ChannelDropped>)
        requires
            delivered ==> old(self)@ < i64::MAX,
        ensures
            final(self)@ == seq_after(old(self)@, delivered),
            r is Ok <==> delivered,
            r is Err ==> r == Err::<(), ChannelDropped>(ChannelDropped),
    {
        if delivered {
            self.seq = self.seq + 1;
            Ok(())
        } else {
            Err(ChannelDropped)
        }
    }
}

/// Where an event applied to `entity` is journaled: under the aggregate's
/// identifier, at the context's current sequence number.
pub fn journal_position<T: Aggregate>(entity: &T, ctx: &Context) -> (r: (EntityId, i64))
    ensures
        r.0@ == entity.entity_id(),
        r.1 as int == ctx@,
{
    (entity.id(), ctx.seq())
}

/// Handles `command` and, when it is accepted, applies the resulting event
/// at once. A rejection is handed back and the state is left as it was.
pub fn entrust<T, C: Command>(entity: &mut T, command: C) -> (r: Option<T::Rejection>) where
    T: CommandHandler<C> + EventApplicator<<T as CommandHandler<C>>::Event>,

    ensures
        match old(entity).outcome(command) {
            Ok(event) => r is None && *final(entity) == old(entity).applied(event),
            Err(rejection) => r == Some(rejection) && *final(entity) == *old(entity),
        },
{
    match entity.handle(command) {
        Ok(event) => {
            entity.apply(event);
            None
        },
        Err(rejection) => Some(rejection),
    }
}

/// A command sent to the process without waiting for its result.
#[derive(Debug)]
pub struct NonblockingReceptor<C: Command> {
    pub command: C,
}

impl<C: Command> NonblockingReceptor<C> {
    /// Runs the command against `entity` as `entrust` does; the rejection,
    /// if any, is handed back to be reported.
    pub fn apply<T>(self, entity: &mut T) -> (r: Option<T::Rejection>) where
        T: CommandHandler<C> + EventApplicator<<T as CommandHandler<C>>::Event>,

        ensures
            match old(entity).outcome(self.command) {
                Ok(event) => r is None && *final(entity) == old(entity).applied(event),
                Err(rejection) => r == Some(rejection) && *final(entity) == *old(entity),
            },
    {
        entrust(entity, self.command)
    }
}

/// Applying events and settling their replies moves the sequence number on
/// by exactly the number of delivered replies.
pub proof fn lemma_seq_counts_deliveries(seq: int, deliveries: Seq<bool>)
    ensures
        seq_after_all(seq, deliveries) == seq + delivered_count(deliveries),
    decreases deliveries.len(),
{
    if deliveries.len() > 0 {
        lemma_seq_counts_deliveries(seq, deliveries.drop_last());
    }
}

} // verus!
