//! The journal: ordering what storage gives back, decoding it into a
//! history, and preparing what storage is given.

pub mod payload;

use crate::clock::{self, utc_timestamp_text};
use crate::identifier::{decimal_string, decimal_text};
use crate::text::{debug_quoted, quoted_text};
use crate::errors::{DeserializeError, ReadError, SerializeError, WriteError};
use crate::eventstore::payload::{journal_before, same_place, SerializedEvent};
use crate::markers::Event;
use std::collections::BTreeMap;
use vstd::prelude::*;

verus! {

/// Whether row `j` is the first of `rows` at its place in the journal.
pub open spec fn first_at_place(rows: Seq<SerializedEvent>, j: int) -> bool {
    forall|k: int| 0 <= k < j ==> !same_place(#[trigger] rows[k], rows[j])
}

/// Whether `e` is, among `rows`, the first row at its place.
pub open spec fn is_first_row(rows: Seq<SerializedEvent>, e: SerializedEvent) -> bool {
    exists|j: int| 0 <= j < rows.len() && first_at_place(rows, j) && rows[j] == e
}

/// Whether some row of `out` is at the place of `e`.
pub open spec fn has_place(out: Seq<SerializedEvent>, e: SerializedEvent) -> bool {
    exists|a: int| 0 <= a < out.len() && same_place(out[a], e)
}

/// Whether each row of `out` is, among `rows`, the first at its place.
pub open spec fn keeps_first_rows(rows: Seq<SerializedEvent>, out: Seq<SerializedEvent>) -> bool {
    forall|a: int| 0 <= a < out.len() ==> is_first_row(rows, #[trigger] out[a])
}

/// Whether every place that occurs among `rows` occurs in `out`.
pub open spec fn covers_places(rows: Seq<SerializedEvent>, out: Seq<SerializedEvent>) -> bool {
    forall|j: int| 0 <= j < rows.len() ==> has_place(out, #[trigger] rows[j])
}

/// Whether `out` is strictly ordered by place.
pub open spec fn strictly_ordered(out: Seq<SerializedEvent>) -> bool {
    forall|a: int, b: int| 0 <= a < b < out.len() ==> journal_before(out[a], out[b])
}

/// Whether `out` is the journal that `rows` make: strictly ordered by place,
/// holding, for each place that occurs among the rows, the first row at it.
pub open spec fn is_journal_of(rows: Seq<SerializedEvent>, out: Seq<SerializedEvent>) -> bool {
    &&& strictly_ordered(out)
    &&& keeps_first_rows(rows, out)
    &&& covers_places(rows, out)
}

proof fn lemma_kept_rows(rows: Seq<SerializedEvent>, out: Seq<SerializedEvent>, src: Seq<int>)
    requires
        src.len() == out.len(),
        forall|a: int|
            0 <= a < out.len() ==> 0 <= #[trigger] src[a] < rows.len() && first_at_place(rows, src[a])
                && out[a] == rows[src[a]],
    ensures
        keeps_first_rows(rows, out),
{
    assert forall|a: int| 0 <= a < out.len() implies is_first_row(rows, #[trigger] out[a]) by {
        let j = src[a];
        assert(rows[j] == out[a]);
    }
}

proof fn lemma_covered_places(rows: Seq<SerializedEvent>, out: Seq<SerializedEvent>, home: Seq<int>)
    requires
        home.len() == rows.len(),
        forall|j: int|
            0 <= j < rows.len() ==> 0 <= #[trigger] home[j] < out.len() && same_place(out[home[j]], rows[j]),
    ensures
        covers_places(rows, out),
{
    assert forall|j: int| 0 <= j < rows.len() implies has_place(out, #[trigger] rows[j]) by {
        let a = home[j];
        assert(same_place(out[a], rows[j]));
    }
}

/// A journal whose rows were written at pairwise distinct sequence numbers
/// loses none of them when it is ordered: every row comes back as it was.
pub proof fn lemma_distinct_rows_all_kept(rows: Seq<SerializedEvent>, out: Seq<SerializedEvent>)
    requires
        is_journal_of(rows, out),
        forall|i: int, j: int| 0 <= i < j < rows.len() ==> rows[i].seq != rows[j].seq,
    ensures
        forall|j: int| 0 <= j < rows.len() ==> out.contains(#[trigger] rows[j]),
{
    assert forall|j: int| 0 <= j < rows.len() implies out.contains(#[trigger] rows[j]) by {
        assert(has_place(out, rows[j]));
        let a = choose|a: int| 0 <= a < out.len() && same_place(out[a], rows[j]);
        assert(is_first_row(rows, out[a]));
        let k = choose|k: int| 0 <= k < rows.len() && first_at_place(rows, k) && rows[k] == out[a];
        if k != j {
            if k < j {
                assert(rows[k].seq != rows[j].seq);
            } else {
                assert(rows[j].seq != rows[k].seq);
            }
        }
        assert(out[a] == rows[j]);
    }
}

fn is_before(a: &SerializedEvent, b: &SerializedEvent) -> (r: bool)
    ensures
        r == journal_before(*a, *b),
{
    a.seq < b.seq || (a.seq == b.seq && a.created_at < b.created_at)
}

fn is_same_place(a: &SerializedEvent, b: &SerializedEvent) -> (r: bool)
    ensures
        r == same_place(*a, *b),
{
    a.seq == b.seq && a.created_at == b.created_at
}

/// The first position of the sorted `out` whose row does not come before `row`.
fn find_place(out: &Vec<SerializedEvent>, row: &SerializedEvent) -> (p: usize)
    ensures
        p <= out.len(),
        forall|k: int| 0 <= k < p ==> journal_before(#[trigger] out@[k], *row),
        p < out.len() ==> !journal_before(out@[p as int], *row),
{
    let mut p: usize = 0;
    while p < out.len()
        invariant
            p <= out.len(),
            forall|k: int| 0 <= k < p ==> journal_before(#[trigger] out@[k], *row),
        decreases out.len() - p,
    {
        if !is_before(&out[p], row) {
            return p;
        }
        p = p + 1;
    }
    p
}

/// Orders the rows that storage gave back into the journal: by sequence
/// number, then by the moment of writing; of rows at the same place only the
/// first is kept.
///
/// `SerializedEvent` is ordered only by place, through `journal_cmp`, and
/// has no `Ord`; the journal is therefore a `Vec` kept sorted by ordered
/// insertion. Keeping the first row at a place makes the result a function
/// of the rows.
pub fn order_journal(rows: Vec<SerializedEvent>) -> (out: Vec<SerializedEvent>)
    ensures
        is_journal_of(rows@, out@),
{
    let ghost input = rows@;
    let mut rest = rows;
    let mut out: Vec<SerializedEvent> = Vec::new();
    let ghost mut src: Seq<int> = Seq::empty();
    let ghost mut home: Seq<int> = Seq::empty();
    let len = rest.len();
    let mut n: usize = 0;
    while n < len
        invariant
            len == input.len(),
            n <= len,
            rest@ == input.skip(n as int),
            forall|a: int, b: int| 0 <= a < b < out@.len() ==> journal_before(out@[a], out@[b]),
            src.len() == out@.len(),
            forall|a: int|
                0 <= a < out@.len() ==> 0 <= #[trigger] src[a] < n && first_at_place(input, src[a])
                    && out@[a] == input[src[a]],
            home.len() == n,
            forall|j: int|
                0 <= j < n ==> 0 <= #[trigger] home[j] < out@.len() && same_place(
                    out@[home[j]],
                    input[j],
                ),
        decreases len - n,
    {
        assert(rest@[0] == input[n as int]);
        let row = rest.remove(0);
        assert(rest@ =~= input.skip(n + 1));
        let p = find_place(&out, &row);
        if p < out.len() && is_same_place(&out[p], &row) {
            proof {
                home = home.push(p as int);
            }
        } else {
            // No row kept so far is at the place of `row`.
            assert forall|a: int| 0 <= a < out@.len() implies !same_place(out@[a], row) by {
                if a < p {
                    assert(journal_before(out@[a], row));
                } else if a > p {
                    assert(journal_before(out@[p as int], out@[a]));
                }
            }
            assert(first_at_place(input, n as int)) by {
                assert forall|k: int| 0 <= k < n implies !same_place(
                    #[trigger] input[k],
                    input[n as int],
                ) by {
                    assert(same_place(out@[home[k]], input[k]));
                }
            }
            let ghost old_out = out@;
            out.insert(p, row);
            proof {
                assert(out@ == old_out.insert(p as int, row));
                src = src.insert(p as int, n as int);
                let old_home = home;
                home = Seq::new(
                    (n + 1) as nat,
                    |j: int|
                        if j == n {
                            p as int
                        } else if old_home[j] >= p {
                            old_home[j] + 1
                        } else {
                            old_home[j]
                        },
                );
                assert forall|a: int, b: int| 0 <= a < b < out@.len() implies journal_before(
                    out@[a],
                    out@[b],
                ) by {
                    if a < p && b == p {
                        assert(journal_before(old_out[a], row));
                    } else if a == p && b > p {
                        if p < old_out.len() {
                            assert(!journal_before(old_out[p as int], row));
                            assert(!same_place(old_out[p as int], row));
                            if b - 1 > p {
                                assert(journal_before(old_out[p as int], old_out[b - 1]));
                            }
                        }
                    }
                }
            }
        }
        n = n + 1;
    }
    proof {
        lemma_kept_rows(input, out@, src);
        lemma_covered_places(input, out@, home);
    }
    out
}

/// Whether every journaled event decoded.
pub open spec fn all_decoded<E>(decoded: Seq<(i64, Result<E, DeserializeError>)>) -> bool {
    forall|i: int| 0 <= i < decoded.len() ==> (#[trigger] decoded[i]).1 is Ok
}

/// Whether position `i` holds the first event that failed to decode.
pub open spec fn is_first_failure<E>(decoded: Seq<(i64, Result<E, DeserializeError>)>, i: int) -> bool {
    &&& 0 <= i < decoded.len()
    &&& decoded[i].1 is Err
    &&& forall|k: int| 0 <= k < i ==> (#[trigger] decoded[k]).1 is Ok
}

/// The history that decoded journal entries make, taken in order: each
/// sequence number maps to the last event decoded at it.
pub open spec fn history_of<E>(decoded: Seq<(i64, Result<E, DeserializeError>)>) -> Map<i64, E>
    decreases decoded.len(),
{
    if decoded.len() == 0 {
        Map::empty()
    } else {
        let earlier = history_of(decoded.drop_last());
        match decoded.last().1 {
            Ok(event) => earlier.insert(decoded.last().0, event),
            Err(_) => earlier,
        }
    }
}

/// Gathers decoded journal entries, in journal order, into the history of
/// the aggregate: sequence number to event, a later entry at the same
/// sequence number replacing an earlier one. The first entry that failed
/// to decode makes the whole read fail with its error.
pub fn collect_events<E>(decoded: Vec<(i64, Result<E, DeserializeError>)>) -> (r: Result<
    BTreeMap<i64, E>,
    ReadError,
>)
    ensures
        r is Ok <==> all_decoded(decoded@),
        r is Ok ==> r->Ok_0@ == history_of(decoded@),
        r is Err ==> exists|i: int|
            is_first_failure(decoded@, i) && r->Err_0 == ReadError::Deserialize(
                decoded@[i].1->Err_0,
            ),
{
    let ghost input = decoded@;
    let mut rest = decoded;
    let mut history: BTreeMap<i64, E> = BTreeMap::new();
    let len = rest.len();
    let mut n: usize = 0;
    assert(input.take(0) =~= Seq::<(i64, Result<E, DeserializeError>)>::empty());
    while n < len
        invariant
            input == decoded@,
            len == input.len(),
            n <= len,
            rest@ == input.skip(n as int),
            history@ == history_of(input.take(n as int)),
            forall|k: int| 0 <= k < n ==> (#[trigger] input[k]).1 is Ok,
        decreases len - n,
    {
        assert(rest@[0] == input[n as int]);
        let (seq, item) = rest.remove(0);
        assert(rest@ =~= input.skip(n + 1));
        assert(input.take(n + 1).drop_last() =~= input.take(n as int));
        match item {
            Ok(event) => {
                history.insert(seq, event);
            },
            Err(err) => {
                assert(input[n as int].1 is Err);
                assert(!all_decoded(input));
                assert(is_first_failure(input, n as int));
                return Err(ReadError::Deserialize(err));
            },
        }
        n = n + 1;
    }
    assert(input.take(len as int) =~= input);
    Ok(history)
}

/// Whether `decoded` pairs each of the first rows of `journal` with its
/// sequence number and with what `decode` gave for its bytes.
pub open spec fn decoded_by<E, F: Fn(&Vec<u8>) -> Result<E, DeserializeError>>(
    decode: F,
    journal: Seq<SerializedEvent>,
    decoded: Seq<(i64, Result<E, DeserializeError>)>,
) -> bool {
    &&& decoded.len() <= journal.len()
    &&& forall|i: int|
        0 <= i < decoded.len() ==> (#[trigger] decoded[i]).0 == journal[i].seq && call_ensures(
            decode,
            (&journal[i].bytes,),
            decoded[i].1,
        )
}

/// Whether decoding went up to the first failure and no further: all rows
/// decoded, or the last row tried failed and every row before it decoded.
pub open spec fn up_to_first_failure<E>(
    journal_len: nat,
    decoded: Seq<(i64, Result<E, DeserializeError>)>,
) -> bool {
    &&& decoded.len() == journal_len || (decoded.len() > 0 && decoded.last().1 is Err)
    &&& forall|i: int| 0 <= i < decoded.len() - 1 ==> (#[trigger] decoded[i]).1 is Ok
}

/// Reads the history out of an ordered journal: decodes the rows in order
/// with `decode`, stopping at the first row that fails, and gathers what
/// was decoded as `collect_events` does. The read succeeds exactly when
/// every row decoded, and then gives the history of the decoded rows;
/// otherwise it fails with the first row's decoding error.
pub fn decode_history<E, F: Fn(&Vec<u8>) -> Result<E, DeserializeError>>(
    journal: Vec<SerializedEvent>,
    decode: F,
) -> (r: Result<BTreeMap<i64, E>, ReadError>)
    requires
        forall|bytes: &Vec<u8>| call_requires(decode, (bytes,)),
    ensures
        exists|decoded: Seq<(i64, Result<E, DeserializeError>)>|
            {
                &&& decoded_by(decode, journal@, decoded)
                &&& up_to_first_failure(journal@.len(), decoded)
                &&& (r is Ok <==> all_decoded(decoded))
                &&& (r is Ok ==> r->Ok_0@ == history_of(decoded))
                &&& (r is Err ==> r->Err_0 == ReadError::Deserialize(decoded.last().1->Err_0))
            },
{
    let mut decoded: Vec<(i64, Result<E, DeserializeError>)> = Vec::new();
    let mut i: usize = 0;
    while i < journal.len()
        invariant
            i <= journal.len(),
            decoded@.len() == i,
            forall|bytes: &Vec<u8>| call_requires(decode, (bytes,)),
            decoded_by(decode, journal@, decoded@),
            forall|k: int| 0 <= k < i ==> (#[trigger] decoded@[k]).1 is Ok,
        decreases journal.len() - i,
    {
        let item = decode(&journal[i].bytes);
        let failed = item.is_err();
        decoded.push((journal[i].seq, item));
        if failed {
            let ghost tried = decoded@;
            assert(decoded_by(decode, journal@, tried)) by {
                assert forall|k: int| 0 <= k < tried.len() implies (#[trigger] tried[k]).0
                    == journal@[k].seq && call_ensures(decode, (&journal@[k].bytes,), tried[k].1) by {
                    if k < i {
                        assert(tried[k] == decoded@[k]);
                    }
                }
            }
            assert(up_to_first_failure(journal@.len(), tried));
            let r = collect_events(decoded);
            proof {
                if r is Err {
                    let f = choose|f: int|
                        is_first_failure(tried, f) && r->Err_0 == ReadError::Deserialize(
                            tried[f].1->Err_0,
                        );
                    if f < i {
                        assert(tried[f].1 is Ok);
                    }
                }
                assert(tried[i as int].1 is Err);
                assert(!all_decoded(tried));
            }
            return r;
        }
        i = i + 1;
    }
    let ghost tried = decoded@;
    assert(up_to_first_failure(journal@.len(), tried));
    assert(all_decoded(tried));
    collect_events(decoded)
}

/// Decoded entries whose history is asked: an entry that decoded and is not
/// followed by another decoded entry at its sequence number is what the
/// history holds there; and the history holds exactly the sequence numbers
/// at which some entry decoded.
pub proof fn lemma_history_keeps_latest<E>(decoded: Seq<(i64, Result<E, DeserializeError>)>)
    ensures
        forall|k: i64|
            history_of(decoded).contains_key(k) <==> exists|i: int|
                0 <= i < decoded.len() && (#[trigger] decoded[i]).0 == k && decoded[i].1 is Ok,
        forall|i: int|
            0 <= i < decoded.len() && (#[trigger] decoded[i]).1 is Ok && (forall|j: int|
                i < j < decoded.len() && decoded[j].0 == decoded[i].0 ==> decoded[j].1 is Err)
                ==> history_of(decoded)[decoded[i].0] == decoded[i].1->Ok_0,
    decreases decoded.len(),
{
    if decoded.len() > 0 {
        let earlier = decoded.drop_last();
        lemma_history_keeps_latest(earlier);
        let last = decoded.len() - 1;
        assert forall|k: i64|
            history_of(decoded).contains_key(k) implies exists|i: int|
                0 <= i < decoded.len() && (#[trigger] decoded[i]).0 == k && decoded[i].1 is Ok by {
            if history_of(earlier).contains_key(k) {
                let i = choose|i: int|
                    0 <= i < earlier.len() && (#[trigger] earlier[i]).0 == k && earlier[i].1 is Ok;
                assert(decoded[i] == earlier[i]);
            } else {
                assert(decoded[last].0 == k && decoded[last].1 is Ok);
            }
        }
        assert forall|k: i64|
            (exists|i: int|
                0 <= i < decoded.len() && (#[trigger] decoded[i]).0 == k
                    && decoded[i].1 is Ok) implies history_of(decoded).contains_key(k) by {
            let i = choose|i: int|
                0 <= i < decoded.len() && (#[trigger] decoded[i]).0 == k && decoded[i].1 is Ok;
            if i < last {
                assert(earlier[i] == decoded[i]);
                assert(history_of(earlier).contains_key(k));
            }
        }
        assert forall|i: int|
            0 <= i < decoded.len() && (#[trigger] decoded[i]).1 is Ok && (forall|j: int|
                i < j < decoded.len() && decoded[j].0 == decoded[i].0 ==> decoded[j].1 is Err)
                implies history_of(decoded)[decoded[i].0] == decoded[i].1->Ok_0 by {
            if i < last {
                assert(earlier[i] == decoded[i]);
                assert forall|j: int|
                    i < j < earlier.len() && earlier[j].0 == earlier[i].0 implies earlier[j].1 is Err by {
                    assert(earlier[j] == decoded[j]);
                }
                if decoded[last].1 is Ok {
                    assert(decoded[last].0 != decoded[i].0);
                }
            }
        }
    }
}

/// The journal entries of a run of events numbered from `start` on, one
/// sequence number each, all decoded.
pub open spec fn numbered_run<E>(start: int, events: Seq<E>) -> Seq<(i64, Result<E, DeserializeError>)> {
    Seq::new(events.len(), |i: int| ((start + i) as i64, Ok(events[i])))
}

/// A run of events journaled at consecutive sequence numbers from `start`
/// reads back as the history that maps `start + i` to the `i`-th event.
pub proof fn lemma_numbered_run_reads_back<E>(start: int, events: Seq<E>)
    requires
        i64::MIN <= start,
        start + events.len() <= i64::MAX + 1,
    ensures
        history_of(numbered_run(start, events)) == Map::new(
            |k: i64| start <= k < start + events.len(),
            |k: i64| events[k - start],
        ),
{
    let run = numbered_run(start, events);
    lemma_history_keeps_latest(run);
    let expected = Map::new(|k: i64| start <= k < start + events.len(), |k: i64| events[k - start]);
    assert forall|k: i64| history_of(run).contains_key(k) <==> expected.contains_key(k) by {
        if start <= k < start + events.len() {
            let i = k - start;
            assert(run[i].0 == k && run[i].1 is Ok);
        }
        if history_of(run).contains_key(k) {
            let i = choose|i: int| 0 <= i < run.len() && (#[trigger] run[i]).0 == k && run[i].1 is Ok;
            assert(run[i].0 == k);
        }
    }
    assert forall|k: i64| expected.contains_key(k) implies history_of(run)[k] == expected[k] by {
        let i = k - start;
        assert(run[i].0 == k && run[i].1 is Ok);
        assert forall|j: int| i < j < run.len() && run[j].0 == run[i].0 implies run[j].1 is Err by {
            assert(run[j].0 == start + j);
        }
    }
    assert(history_of(run) =~= expected);
}

/// Builds the journal row for an event about to be appended: under the
/// aggregate `id`, with the event type's registry key, at `seq`, carrying
/// the encoded event and stamped with `created_at`. An encoding failure
/// makes the append fail with that error.
pub fn prepare_append_at<E: Event>(
    id: &str,
    seq: i64,
    encoded: Result<Vec<u8>, SerializeError>,
    created_at: i128,
) -> (r: Result<SerializedEvent, WriteError>)
    ensures
        match encoded {
            Ok(bytes) => r is Ok && r->Ok_0.id@ == id@ && r->Ok_0.key@ == E::REGISTRY_KEY@
                && r->Ok_0.seq == seq && r->Ok_0.bytes@ == bytes@ && r->Ok_0.created_at
                == created_at,
            Err(err) => r == Err::<SerializedEvent, WriteError>(WriteError::Serialize(err)),
        },
{
    match encoded {
        Ok(bytes) => Ok(
            SerializedEvent {
                id: String::from_str(id),
                key: String::from_str(E::REGISTRY_KEY),
                seq,
                bytes,
                created_at,
            },
        ),
        Err(err) => Err(WriteError::Serialize(err)),
    }
}

/// Builds the journal row for an event about to be appended, as
/// `prepare_append_at` does, stamped with the wall clock at the moment of
/// the call, a moment that `time` can represent. The clock is read only
/// when the event was encoded.
pub fn prepare_append<E: Event>(id: &str, seq: i64, encoded: Result<Vec<u8>, SerializeError>) -> (r:
    Result<SerializedEvent, WriteError>)
    ensures
        match encoded {
            Ok(bytes) => r is Ok && r->Ok_0.id@ == id@ && r->Ok_0.key@ == E::REGISTRY_KEY@
                && r->Ok_0.seq == seq && r->Ok_0.bytes@ == bytes@ && utc_timestamp_text(
                r->Ok_0.created_at,
            ) is Some,
            Err(err) => r == Err::<SerializedEvent, WriteError>(WriteError::Serialize(err)),
        },
{
    match encoded {
        Ok(bytes) => {
            let now = clock::now_unix_nanos();
            prepare_append_at::<E>(id, seq, Ok(bytes), now)
        },
        Err(err) => Err(WriteError::Serialize(err)),
    }
}

/// The text that describes a journaled event, as its debug form reads:
/// `SerializedEvent { id: .., key: .., seq: .., bytes: "<N bytes>", created_at: .. }`,
/// with the identifier and key quoted, the payload shown only by its size,
/// and the moment as `time` formats it (in nanoseconds where `time` cannot
/// represent it).
pub open spec fn described(e: SerializedEvent) -> Seq<char> {
    "SerializedEvent { id: "@ + quoted_text(e.id@) + ", key: "@ + quoted_text(e.key@)
        + ", seq: "@ + decimal_text(e.seq as int) + ", bytes: "@ + quoted_text(
        "<"@ + decimal_text(e.bytes@.len() as int) + " bytes>"@,
    ) + ", created_at: "@ + match utc_timestamp_text(e.created_at) {
        Some(t) => t,
        None => decimal_text(e.created_at as int),
    } + " }"@
}

impl SerializedEvent {
    /// Describes the event for logs, without its payload: see `described`.
    pub fn describe(&self) -> (s: String)
        ensures
            s@ == described(*self),
    {
        let mut size = String::from_str("<");
        size.append(decimal_string(self.bytes.len() as i128).as_str());
        size.append(" bytes>");
        let mut s = String::from_str("SerializedEvent { id: ");
        s.append(debug_quoted(self.id.as_str()).as_str());
        s.append(", key: ");
        s.append(debug_quoted(self.key.as_str()).as_str());
        s.append(", seq: ");
        s.append(decimal_string(self.seq as i128).as_str());
        s.append(", bytes: ");
        s.append(debug_quoted(size.as_str()).as_str());
        s.append(", created_at: ");
        match clock::format_utc_timestamp(self.created_at) {
            Some(t) => s.append(t.as_str()),
            None => s.append(decimal_string(self.created_at).as_str()),
        }
        s.append(" }");
        s
    }
}

} // verus!
