//! One event as it is kept in the journal.

use core::cmp::Ordering;
use vstd::prelude::*;
use vstd::std_specs::cmp::{PartialEqSpec, PartialEqSpecImpl, PartialOrdSpec, PartialOrdSpecImpl};

verus! {

/// An event in its journaled form: the aggregate it belongs to, the
/// registry key of its type, its sequence number, its encoded bytes and
/// the moment it was written, in nanoseconds since the Unix epoch.
/// Its text for logs is `describe`, which leaves the payload out.
pub struct SerializedEvent {
    pub id: String,
    pub key: String,
    pub seq: i64,
    pub bytes: Vec<u8>,
    pub created_at: i128,
}

/// Whether `a` comes strictly before `b` in the journal: by sequence
/// number, then by the moment of writing.
pub open spec fn journal_before(a: SerializedEvent, b: SerializedEvent) -> bool {
    a.seq < b.seq || (a.seq == b.seq && a.created_at < b.created_at)
}

/// Whether `a` and `b` take the same place in the journal.
pub open spec fn same_place(a: SerializedEvent, b: SerializedEvent) -> bool {
    a.seq == b.seq && a.created_at == b.created_at
}

/// The order of the journal as a three-way comparison.
pub open spec fn journal_order(a: SerializedEvent, b: SerializedEvent) -> Ordering {
    if journal_before(a, b) {
        Ordering::Less
    } else if same_place(a, b) {
        Ordering::Equal
    } else {
        Ordering::Greater
    }
}

/// Two journaled events are taken as equal when they agree on aggregate,
/// registry key and sequence number, or when they carry the same bytes.
pub open spec fn same_event(a: SerializedEvent, b: SerializedEvent) -> bool {
    (a.id@ == b.id@ && a.key@ == b.key@ && a.seq == b.seq) || a.bytes@ == b.bytes@
}

fn same_bytes(a: &Vec<u8>, b: &Vec<u8>) -> (r: bool)
    ensures
        r == (a@ == b@),
{
    if a.len() != b.len() {
        return false;
    }
    let mut i: usize = 0;
    while i < a.len()
        invariant
            a.len() == b.len(),
            i <= a.len(),
            forall|k: int| 0 <= k < i ==> a@[k] == b@[k],
        decreases a.len() - i,
    {
        if a[i] != b[i] {
            return false;
        }
        i = i + 1;
    }
    assert(a@ =~= b@);
    true
}

impl Clone for SerializedEvent {
    fn clone(&self) -> (c: Self)
        ensures
            c.id == self.id,
            c.key == self.key,
            c.seq == self.seq,
            c.bytes@ == self.bytes@,
            c.created_at == self.created_at,
    {
        SerializedEvent {
            id: self.id.clone(),
            key: self.key.clone(),
            seq: self.seq,
            bytes: self.bytes.clone(),
            created_at: self.created_at,
        }
    }
}

impl PartialEq for SerializedEvent {
    fn eq(&self, other: &Self) -> (r: bool)
        ensures
            r == ((self.id@ == other.id@ && self.key@ == other.key@ && self.seq == other.seq)
                || self.bytes@ == other.bytes@),
    {
        (self.id == other.id && self.key == other.key && self.seq == other.seq) || same_bytes(
            &self.bytes,
            &other.bytes,
        )
    }
}

impl PartialEqSpecImpl for SerializedEvent {
    open spec fn obeys_eq_spec() -> bool {
        true
    }

    open spec fn eq_spec(&self, other: &SerializedEvent) -> bool {
        same_event(*self, *other)
    }
}

impl SerializedEvent {
    /// Compares two journaled events by their place in the journal.
    pub fn journal_cmp(&self, other: &Self) -> (r: Ordering)
        ensures
            r == journal_order(*self, *other),
            (r == Ordering::Less) == (self.seq < other.seq || (self.seq == other.seq
                && self.created_at < other.created_at)),
            (r == Ordering::Equal) == (self.seq == other.seq && self.created_at
                == other.created_at),
            (r == Ordering::Greater) == (self.seq > other.seq || (self.seq == other.seq
                && self.created_at > other.created_at)),
    {
        if self.seq < other.seq {
            Ordering::Less
        } else if self.seq > other.seq {
            Ordering::Greater
        } else if self.created_at < other.created_at {
            Ordering::Less
        } else if self.created_at > other.created_at {
            Ordering::Greater
        } else {
            Ordering::Equal
        }
    }
}

impl PartialOrd for SerializedEvent {
    fn partial_cmp(&self, other: &Self) -> (r: Option<Ordering>) {
        Some(self.journal_cmp(other))
    }
}

impl PartialOrdSpecImpl for SerializedEvent {
    open spec fn obeys_partial_cmp_spec() -> bool {
        true
    }

    open spec fn partial_cmp_spec(&self, other: &SerializedEvent) -> Option<Ordering> {
        Some(journal_order(*self, *other))
    }
}

/// The journal order is lexicographic on (sequence number, moment of
/// writing): an earlier sequence number comes first whatever the moments,
/// and at one sequence number the earlier write comes first.
pub proof fn lemma_journal_order_by_fields(a: SerializedEvent, b: SerializedEvent)
    ensures
        a.seq < b.seq ==> journal_order(a, b) == Ordering::Less,
        a.seq > b.seq ==> journal_order(a, b) == Ordering::Greater,
        a.seq == b.seq && a.created_at < b.created_at ==> journal_order(a, b) == Ordering::Less,
        a.seq == b.seq && a.created_at > b.created_at ==> journal_order(a, b)
            == Ordering::Greater,
        a.seq == b.seq && a.created_at == b.created_at ==> journal_order(a, b)
            == Ordering::Equal,
{
}

/// Swapping the two events reverses the comparison: one comes before the
/// other exactly when the other comes after it, and being at the same place
/// is symmetric.
pub proof fn lemma_journal_order_antisymmetric(a: SerializedEvent, b: SerializedEvent)
    ensures
        (journal_order(a, b) == Ordering::Less) == (journal_order(b, a) == Ordering::Greater),
        (journal_order(a, b) == Ordering::Equal) == (journal_order(b, a) == Ordering::Equal),
        (journal_order(a, b) == Ordering::Greater) == (journal_order(b, a) == Ordering::Less),
{
}

/// The journal order is transitive, and an event is at its own place.
pub proof fn lemma_journal_order_transitive(a: SerializedEvent, b: SerializedEvent, c: SerializedEvent)
    ensures
        journal_order(a, a) == Ordering::Equal,
        journal_order(a, b) == Ordering::Less && journal_order(b, c) == Ordering::Less
            ==> journal_order(a, c) == Ordering::Less,
{
}

/// The comparison agrees with the order the journal is built in: it says
/// `Less` exactly when the first event is journaled before the second, and
/// `Equal` exactly when both take one place.
pub proof fn lemma_journal_order_agrees_with_journal(a: SerializedEvent, b: SerializedEvent)
    ensures
        (journal_order(a, b) == Ordering::Less) == journal_before(a, b),
        (journal_order(a, b) == Ordering::Equal) == same_place(a, b),
        (journal_order(a, b) == Ordering::Greater) == journal_before(b, a),
{
}

/// `partial_cmp` always answers, and orders by sequence number first.
pub proof fn lemma_partial_cmp_by_fields(a: SerializedEvent, b: SerializedEvent)
    ensures
        PartialOrdSpec::partial_cmp_spec(&a, &b) is Some,
        a.seq < b.seq ==> PartialOrdSpec::partial_cmp_spec(&a, &b) == Some(Ordering::Less),
        a.seq > b.seq ==> PartialOrdSpec::partial_cmp_spec(&a, &b) == Some(Ordering::Greater),
        a.seq == b.seq && a.created_at < b.created_at ==> PartialOrdSpec::partial_cmp_spec(&a, &b) == Some(
            Ordering::Less,
        ),
{
}

/// Two journaled events are equal when they belong to the same aggregate,
/// have the same registry key and the same sequence number; and when they
/// carry the same bytes.
pub proof fn lemma_eq_when_same_identity_or_bytes(a: SerializedEvent, b: SerializedEvent)
    ensures
        a.id@ == b.id@ && a.key@ == b.key@ && a.seq == b.seq ==> PartialEqSpec::eq_spec(&a, &b),
        a.bytes@ == b.bytes@ ==> PartialEqSpec::eq_spec(&a, &b),
{
}

/// Equal journaled events agree on their sequence number or on their bytes:
/// events at different sequence numbers with different bytes are never
/// equal, nor are events of different aggregates or registry keys with
/// different bytes.
pub proof fn lemma_eq_needs_identity_or_bytes(a: SerializedEvent, b: SerializedEvent)
    ensures
        PartialEqSpec::eq_spec(&a, &b) ==> (a.id@ == b.id@ && a.key@ == b.key@ && a.seq == b.seq) || a.bytes@
            == b.bytes@,
        a.seq != b.seq && a.bytes@ != b.bytes@ ==> !PartialEqSpec::eq_spec(&a, &b),
        a.id@ != b.id@ && a.bytes@ != b.bytes@ ==> !PartialEqSpec::eq_spec(&a, &b),
        a.key@ != b.key@ && a.bytes@ != b.bytes@ ==> !PartialEqSpec::eq_spec(&a, &b),
{
}

/// Equality of journaled events is reflexive and symmetric.
pub proof fn lemma_eq_reflexive_symmetric(a: SerializedEvent, b: SerializedEvent)
    ensures
        PartialEqSpec::eq_spec(&a, &a),
        PartialEqSpec::eq_spec(&a, &b) == PartialEqSpec::eq_spec(&b, &a),
{
}

} // verus!
