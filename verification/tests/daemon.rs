use core::time::Duration;

use ciborium::Value;
use ebpf_ldms::{
    allow_record, encode_stats_record, record_header, screen_record, validate_transport, CborValue,
    EbpfLdms, EventFields, FixedWindow, FsLatencyStats, Interval, ProducerTable, RecordField,
    TransportError, ValidateClap, PATHFRAGLEN,
};

fn settings(msglimit: u64, interval: u64) -> EbpfLdms {
    EbpfLdms {
        stream: "nersc".to_string(),
        msglimit,
        interval,
        host: "localhost".to_string(),
        port: "60003".to_string(),
        authentication: "none".to_string(),
        hostname: "localhost".to_string(),
        logfile: "/var/log/ebpf_ldms.log".to_string(),
    }
}

#[test]
fn parse_ratelimit_replaces_zeros() {
    for (given, expected) in [((0, 0), (1, 1)), ((0, 5), (1, 5)), ((3, 0), (3, 1)), ((3, 5), (3, 5))] {
        let mut s = settings(given.0, given.1);
        s.parse_ratelimit();
        assert_eq!((s.msglimit, s.interval), expected);
        assert_eq!(s.stream, "nersc");
        // A second correction changes nothing.
        s.parse_ratelimit();
        assert_eq!((s.msglimit, s.interval), expected);
    }
}

#[test]
fn transport_checks() {
    assert_eq!(validate_transport("sock", "none"), Ok(()));
    assert_eq!(validate_transport("sock", "munge"), Ok(()));
    assert_eq!(validate_transport("rdma", "none"), Err(TransportError::UnsupportedTransport));
    assert_eq!(validate_transport("rdma", "kerberos"), Err(TransportError::UnsupportedTransport));
    assert_eq!(validate_transport("sock", "kerberos"), Err(TransportError::UnsupportedAuthentication));
}

#[test]
fn producer_table_keeps_one_limiter_per_id() {
    let mut t: ProducerTable<u32> = ProducerTable::new();
    assert_eq!(t.find("fslat/v2"), None);
    let a = t.index_or_insert("fslat/v2", 10);
    let b = t.index_or_insert("slowcalls", 20);
    assert_eq!((a, b), (0, 1));
    // The same producer again: its limiter is reused, the fresh one dropped.
    assert_eq!(t.index_or_insert("fslat/v2", 30), 0);
    assert_eq!(t.len(), 2);
    assert_eq!(t.find("slowcalls"), Some(1));
    *t.limiter_mut(0) += 1;
    assert_eq!(*t.limiter_mut(0), 11);
    assert_eq!(*t.limiter_mut(1), 20);
}

fn cbor(fields: Vec<(&str, Value)>) -> Vec<u8> {
    let map = Value::Map(fields.into_iter().map(|(k, v)| (Value::Text(k.to_string()), v)).collect());
    let mut bytes = Vec::new();
    ciborium::ser::into_writer(&map, &mut bytes).unwrap();
    bytes
}

#[test]
fn screen_record_reads_id_and_timestamp() {
    let bytes = cbor(vec![
        ("id", Value::Text("fslat/v2".to_string())),
        ("timestamp_monotonic", Value::Integer(42.into())),
        ("opname", Value::Text("vfs_read".to_string())),
    ]);
    let (id, ts, json) = screen_record(&bytes).unwrap();
    assert_eq!(id, "fslat/v2");
    assert_eq!(ts, 42);
    assert_eq!(json["opname"], "vfs_read");
}

#[test]
fn screen_record_skips_missing_or_null_header_fields() {
    let ts = ("timestamp_monotonic", Value::Integer(1.into()));
    assert!(screen_record(&cbor(vec![ts.clone()])).is_none());
    assert!(screen_record(&cbor(vec![("id", Value::Null), ts.clone()])).is_none());
    assert!(screen_record(&cbor(vec![("id", Value::Text("a".to_string()))])).is_none());
    assert!(screen_record(&cbor(vec![("id", Value::Text("a".to_string())), ("timestamp_monotonic", Value::Null)])).is_none());
}

#[test]
fn screen_record_replaces_bad_header_values() {
    let bytes = cbor(vec![("id", Value::Integer(7.into())), ("timestamp_monotonic", Value::Text("soon".to_string()))]);
    let (id, ts, _) = screen_record(&bytes).unwrap();
    assert_eq!(id, "invalid id field");
    assert_eq!(ts, 0);
    let bytes = cbor(vec![("id", Value::Text("b".to_string())), ("timestamp_monotonic", Value::Integer((-5).into()))]);
    assert_eq!(screen_record(&bytes).unwrap().1, 0);
}

#[test]
fn screen_record_skips_what_is_not_a_record() {
    let mut bytes = Vec::new();
    ciborium::ser::into_writer(&Value::Integer(3.into()), &mut bytes).unwrap();
    assert!(screen_record(&bytes).is_none());
    assert!(screen_record(&[0xff]).is_none());
    assert!(screen_record(&[]).is_none());
}

#[test]
fn screen_record_reads_an_encoded_statistics_record() {
    let mut path_prefix = [0u8; PATHFRAGLEN];
    path_prefix[..2].copy_from_slice(b"/a");
    let s = FsLatencyStats {
        pathlen: 2,
        path_prefix,
        min: 0,
        max: 0,
        total_lat: 0,
        total_bytes: 0,
        count: 0,
        lastpublish: 0,
        is_frozen: false,
        active_time: 0,
        intervals: [Interval { start: 0, end: 0 }; 16],
        interval_head: 0,
    };
    let eventf = EventFields { id: "fslat/v2", monotonic: 7_000_000_123, seq: 3, path_prefix: &path_prefix };
    let bytes = encode_stats_record(&eventf, &s, "vfs_write", "ns").unwrap();
    let (id, ts, json) = screen_record(&bytes).unwrap();
    assert_eq!((id.as_str(), ts), ("fslat/v2", 7_000_000_123));
    assert_eq!(json["sequence"], 3);
}

#[test]
fn record_header_takes_the_first_field_of_a_name() {
    let v = CborValue::Object(vec![
        ("timestamp_monotonic".to_string(), RecordField::Unsigned(9)),
        ("id".to_string(), RecordField::Text("x".to_string())),
        ("id".to_string(), RecordField::Text("y".to_string())),
    ]);
    assert_eq!(record_header(&v), Some(("x".to_string(), 9)));
    assert_eq!(record_header(&CborValue::Other), None);
    let v = CborValue::Object(vec![
        ("id".to_string(), RecordField::Other),
        ("timestamp_monotonic".to_string(), RecordField::Other),
    ]);
    assert_eq!(record_header(&v), Some(("invalid id field".to_string(), 0)));
}

fn clock_zero() -> Duration {
    Duration::ZERO
}

fn fresh_window() -> FixedWindow<fn() -> Duration> {
    FixedWindow::new_with_time_provider(2, 60_000, clock_zero as fn() -> Duration)
}

#[test]
fn allow_record_limits_each_producer_on_its_own() {
    let mut t: ProducerTable<FixedWindow<fn() -> Duration>> = ProducerTable::new();
    assert!(allow_record(&mut t, "fslat/v2", fresh_window()));
    assert!(allow_record(&mut t, "fslat/v2", fresh_window()));
    // The producer's own limiter is kept: a fresh one would let this through.
    assert!(!allow_record(&mut t, "fslat/v2", fresh_window()));
    assert!(allow_record(&mut t, "slowcalls", fresh_window()));
    assert_eq!(t.len(), 2);
    assert_eq!(t.find("slowcalls"), Some(1));
}
