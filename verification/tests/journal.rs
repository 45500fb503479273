use event_sourcing::entities::user::UserEvent;
use event_sourcing::errors::{DeserializeError, ReadError, SerializeError, WriteError};
use event_sourcing::eventstore::payload::SerializedEvent;
use event_sourcing::eventstore::{collect_events, decode_history, order_journal, prepare_append, prepare_append_at};
use std::cell::Cell;
use std::cmp::Ordering;

fn row(id: &str, seq: i64, created_at: i128, bytes: &[u8]) -> SerializedEvent {
    SerializedEvent {
        id: id.to_string(),
        key: "user-event".to_string(),
        seq,
        bytes: bytes.to_vec(),
        created_at,
    }
}

#[test]
fn journal_is_ordered_by_seq_then_time() {
    let rows = vec![
        row("1", 2, 10, b"c"),
        row("1", 0, 50, b"a"),
        row("1", 1, 30, b"b2"),
        row("1", 1, 20, b"b1"),
    ];
    let out = order_journal(rows);
    let places: Vec<(i64, i128)> = out.iter().map(|r| (r.seq, r.created_at)).collect();
    assert_eq!(places, vec![(0, 50), (1, 20), (1, 30), (2, 10)]);
    assert_eq!(out[1].bytes, b"b1".to_vec());
}

#[test]
fn journal_keeps_first_row_at_a_place() {
    let rows = vec![row("1", 4, 7, b"first"), row("1", 4, 7, b"second"), row("1", 3, 7, b"x")];
    let out = order_journal(rows);
    assert_eq!(out.len(), 2);
    assert_eq!(out[0].seq, 3);
    assert_eq!(out[1].bytes, b"first".to_vec());
}

#[test]
fn empty_journal() {
    assert!(order_journal(Vec::new()).is_empty());
}

#[test]
fn history_maps_seq_to_event() {
    let decoded: Vec<(i64, Result<&str, DeserializeError>)> = vec![(0, Ok("a")), (1, Ok("b")), (2, Ok("c"))];
    let history = collect_events(decoded).unwrap();
    assert_eq!(history.len(), 3);
    assert_eq!(history[&0], "a");
    assert_eq!(history[&1], "b");
    assert_eq!(history[&2], "c");
}

#[test]
fn later_entry_at_same_seq_wins() {
    let decoded: Vec<(i64, Result<&str, DeserializeError>)> = vec![(5, Ok("old")), (5, Ok("new")), (6, Ok("x"))];
    let history = collect_events(decoded).unwrap();
    assert_eq!(history.len(), 2);
    assert_eq!(history[&5], "new");
}

#[test]
fn first_decoding_failure_fails_the_read() {
    let decoded: Vec<(i64, Result<&str, DeserializeError>)> = vec![
        (0, Ok("a")),
        (1, Err(DeserializeError { message: "first".to_string() })),
        (2, Err(DeserializeError { message: "second".to_string() })),
    ];
    match collect_events(decoded) {
        Err(ReadError::Deserialize(e)) => assert_eq!(e.message, "first"),
        other => panic!("unexpected {:?}", other),
    }
}

#[test]
fn empty_history() {
    let decoded: Vec<(i64, Result<&str, DeserializeError>)> = Vec::new();
    assert!(collect_events(decoded).unwrap().is_empty());
}

#[test]
fn prepare_append_builds_row() {
    let r = prepare_append::<UserEvent>("17", 4, Ok(vec![1, 2, 3])).unwrap();
    assert_eq!(r.id, "17");
    assert_eq!(r.key, "user-event");
    assert_eq!(r.seq, 4);
    assert_eq!(r.bytes, vec![1, 2, 3]);
}

#[test]
fn prepare_append_reports_encoding_failure() {
    let r = prepare_append::<UserEvent>("17", 4, Err(SerializeError { message: "bad".to_string() }));
    match r {
        Err(WriteError::Serialize(e)) => assert_eq!(e.message, "bad"),
        Err(other) => panic!("unexpected {:?}", other),
        Ok(_) => panic!("unexpected row"),
    }
}

#[test]
fn serialized_events_equal_by_identity_or_bytes() {
    let a = row("1", 1, 10, b"x");
    let b = row("1", 1, 99, b"y");
    let c = row("2", 1, 10, b"x");
    let d = row("2", 2, 10, b"z");
    assert!(a == b);
    assert!(a == c);
    assert!(a != d);
}

#[test]
fn serialized_events_compare_by_place() {
    let a = row("1", 1, 10, b"x");
    let b = row("1", 1, 20, b"x");
    let c = row("1", 0, 99, b"x");
    assert_eq!(a.journal_cmp(&b), Ordering::Less);
    assert_eq!(b.journal_cmp(&a), Ordering::Greater);
    assert_eq!(a.journal_cmp(&c), Ordering::Greater);
    assert_eq!(a.journal_cmp(&a.clone()), Ordering::Equal);
    assert_eq!(a.partial_cmp(&b), Some(Ordering::Less));
}

#[test]
fn error_conversions() {
    let r: ReadError = DeserializeError { message: "m".to_string() }.into();
    assert!(matches!(r, ReadError::Deserialize(ref e) if e.message == "m"));
    let w: WriteError = SerializeError { message: "n".to_string() }.into();
    assert!(matches!(w, WriteError::Serialize(ref e) if e.message == "n"));
}

#[test]
fn rows_at_distinct_seqs_are_all_kept() {
    let rows = vec![row("1", 3, 5, b"d"), row("1", 1, 9, b"b"), row("1", 2, 1, b"c"), row("1", 0, 7, b"a")];
    let out = order_journal(rows);
    let bytes: Vec<Vec<u8>> = out.iter().map(|r| r.bytes.clone()).collect();
    assert_eq!(bytes, vec![b"a".to_vec(), b"b".to_vec(), b"c".to_vec(), b"d".to_vec()]);
}

#[test]
fn numbered_run_reads_back() {
    let decoded: Vec<(i64, Result<u32, DeserializeError>)> = (0..5).map(|i| (100 + i, Ok(i as u32 * 10))).collect();
    let history = collect_events(decoded).unwrap();
    let pairs: Vec<(i64, u32)> = history.into_iter().collect();
    assert_eq!(pairs, vec![(100, 0), (101, 10), (102, 20), (103, 30), (104, 40)]);
}

#[test]
fn prepare_append_at_stamps_given_moment() {
    let r = prepare_append_at::<UserEvent>("17", 4, Ok(vec![9]), 1_700_000_000_000_000_123).unwrap();
    assert_eq!(r.id, "17");
    assert_eq!(r.key, "user-event");
    assert_eq!(r.seq, 4);
    assert_eq!(r.bytes, vec![9]);
    assert_eq!(r.created_at, 1_700_000_000_000_000_123);
    let e = prepare_append_at::<UserEvent>("17", 4, Err(SerializeError { message: "bad".to_string() }), 5);
    assert!(matches!(e, Err(WriteError::Serialize(ref m)) if m.message == "bad"));
}

#[test]
fn describe_shows_size_of_payload() {
    let e = row("a\"b", -3, 0, b"xyz");
    let moment = time::OffsetDateTime::from_unix_timestamp_nanos(0).unwrap();
    let expected = format!(
        "SerializedEvent {{ id: {:?}, key: {:?}, seq: -3, bytes: \"<3 bytes>\", created_at: {:?} }}",
        "a\"b", "user-event", moment
    );
    assert_eq!(e.describe(), expected);
}

#[test]
fn describe_falls_back_to_nanoseconds_out_of_range() {
    let e = row("1", 0, i128::MAX, b"");
    assert_eq!(
        e.describe(),
        format!("SerializedEvent {{ id: \"1\", key: \"user-event\", seq: 0, bytes: \"<0 bytes>\", created_at: {} }}", i128::MAX)
    );
}

fn decode_digit(bytes: &Vec<u8>) -> Result<u32, DeserializeError> {
    match bytes.as_slice() {
        [d] if d.is_ascii_digit() => Ok((d - b'0') as u32),
        _ => Err(DeserializeError { message: format!("bad {:?}", bytes) }),
    }
}

#[test]
fn decode_history_reads_every_row() {
    let journal = vec![row("1", 0, 1, b"4"), row("1", 1, 2, b"5"), row("1", 1, 3, b"6")];
    let history = decode_history(journal, decode_digit).unwrap();
    let pairs: Vec<(i64, u32)> = history.into_iter().collect();
    assert_eq!(pairs, vec![(0, 4), (1, 6)]);
}

#[test]
fn decode_history_stops_at_first_failure() {
    let calls = Cell::new(0);
    let journal = vec![row("1", 0, 1, b"4"), row("1", 1, 2, b"x"), row("1", 2, 3, b"y")];
    let r = decode_history(journal, |bytes: &Vec<u8>| {
        calls.set(calls.get() + 1);
        decode_digit(bytes)
    });
    match r {
        Err(ReadError::Deserialize(e)) => assert_eq!(e.message, format!("bad {:?}", b"x".to_vec())),
        other => panic!("unexpected {:?}", other),
    }
    assert_eq!(calls.get(), 2);
}
