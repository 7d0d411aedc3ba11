use filament::abi::{SystemError, FILAMENT_FMT_JSON};
use filament::event::{Event, TraceContext};
use filament::timeline::Timeline;

fn event(id: u64, timestamp: u64, topic: &str, payload: &[u8]) -> Event {
    Event {
        id,
        timestamp,
        schema_id: 77,
        auth_agent: 5,
        auth_user: 6,
        trace: TraceContext { trace_id_hi: 0xAA, trace_id_lo: 0xBB, span_id: 0xCC, flags: 1 },
        flags: 0,
        encoding: FILAMENT_FMT_JSON,
        topic: topic.as_bytes().to_vec(),
        payload: payload.to_vec(),
    }
}

fn ids(t: &mut Timeline, c: u64) -> Vec<u64> {
    let bytes = t.next(c, 1 << 20).unwrap();
    let mut out = Vec::new();
    let mut off = 0;
    while off < bytes.len() {
        let (e, next) = Event::decode(&bytes, off).unwrap();
        out.push(e.id);
        off = next;
    }
    out
}

#[test]
fn appended_event_reads_back_identically() {
    let mut t = Timeline::new(2048);
    assert_eq!(t.append(event(42, 1000, "orders", b"{\"n\":1}")), Ok(0));
    let c = t.open(1, &b"orders".to_vec(), 0, 0, 0, false).unwrap();
    let bytes = t.next(c, 4096).unwrap();
    assert_eq!(bytes.len(), 128 + 6 + 7);
    let (e, end) = Event::decode(&bytes, 0).unwrap();
    assert_eq!(end, bytes.len());
    assert_eq!(e.id, 42);
    assert_eq!(e.timestamp, 1000);
    assert_eq!(e.schema_id, 77);
    assert_eq!(e.auth_agent, 5);
    assert_eq!(e.auth_user, 6);
    assert_eq!(e.trace, TraceContext { trace_id_hi: 0xAA, trace_id_lo: 0xBB, span_id: 0xCC, flags: 1 });
    assert_eq!(e.encoding, FILAMENT_FMT_JSON);
    assert_eq!(e.topic, b"orders".to_vec());
    assert_eq!(e.payload, b"{\"n\":1}".to_vec());
    assert_eq!(t.next(c, 4096), Err(SystemError::NotFound));
}

#[test]
fn encoded_header_layout() {
    let e = event(0x0102030405060708, 9, "t", b"xy");
    let b = e.encode();
    assert_eq!(b.len(), 131);
    assert_eq!(&b[0..4], &[131, 0, 0, 0]);
    assert_eq!(&b[8..16], &[8, 7, 6, 5, 4, 3, 2, 1]);
    assert_eq!(b[72], 1);
    assert_eq!(&b[80..84], &[1, 0, 0, 0]);
    assert_eq!(&b[84..88], &[2, 0, 0, 0]);
    assert_eq!(&b[128..], b"txy");
    assert!(Event::decode(&b[..130].to_vec(), 0).is_none());
}

#[test]
fn ascending_and_descending_order() {
    let mut t = Timeline::new(2048);
    t.append(event(1, 30, "a", b"")).unwrap();
    t.append(event(2, 10, "a", b"")).unwrap();
    t.append(event(3, 20, "b", b"")).unwrap();
    t.append(event(4, 20, "a", b"")).unwrap();
    t.append(event(5, 10, "a", b"")).unwrap();
    let up = t.open(1, &b"a".to_vec(), 0, 0, 0, false).unwrap();
    assert_eq!(ids(&mut t, up), vec![2, 5, 4, 1]);
    let down = t.open(1, &b"a".to_vec(), 0, 0, 0, true).unwrap();
    assert_eq!(ids(&mut t, down), vec![1, 4, 2, 5]);
}

#[test]
fn range_and_limit() {
    let mut t = Timeline::new(2048);
    for i in 0..10u64 {
        t.append(event(i, i * 10, "x", b"p")).unwrap();
    }
    let c = t.open(1, &b"x".to_vec(), 20, 60, 3, false).unwrap();
    assert_eq!(ids(&mut t, c), vec![2, 3, 4]);
    let d = t.open(1, &b"x".to_vec(), 20, 60, 2, true).unwrap();
    assert_eq!(ids(&mut t, d), vec![6, 5]);
}

#[test]
fn next_copies_only_whole_events() {
    let mut t = Timeline::new(2048);
    t.append(event(1, 1, "s", b"1234")).unwrap();
    t.append(event(2, 2, "s", b"1234")).unwrap();
    let c = t.open(1, &b"s".to_vec(), 0, 0, 0, false).unwrap();
    assert_eq!(t.next(c, 100), Err(SystemError::Invalid));
    let first = t.next(c, 2 * 133 - 1).unwrap();
    assert_eq!(first.len(), 133);
    let second = t.next(c, 133).unwrap();
    assert_eq!(Event::decode(&second, 0).unwrap().0.id, 2);
}

#[test]
fn open_validation_and_close() {
    let mut t = Timeline::new(2048);
    let long = vec![b'a'; 2049];
    assert_eq!(t.open(1, &long, 0, 0, 0, false), Err(SystemError::Invalid));
    assert_eq!(t.open(1, &b"a".to_vec(), 5, 4, 0, false), Err(SystemError::Invalid));
    assert!(t.open(1, &b"a".to_vec(), 5, 0, 0, false).is_ok());
    let c = t.open(1, &b"a".to_vec(), 0, 0, 0, false).unwrap();
    assert_eq!(t.close(c), Ok(()));
    assert_eq!(t.close(c), Err(SystemError::NotFound));
    assert_eq!(t.next(c, 4096), Err(SystemError::NotFound));
    let mut bad = event(1, 1, "a", b"");
    bad.encoding = 4;
    assert_eq!(t.append(bad), Err(SystemError::Invalid));
    assert_eq!(t.append(event(1, 1, &"a".repeat(2049), b"")), Err(SystemError::Invalid));
}

#[test]
fn header_mirrors_event_fields() {
    let e = event(3, 44, "topic", b"abc");
    let h = e.header();
    assert_eq!(h.total_len, 128 + 5 + 3);
    assert_eq!(h.id, 3);
    assert_eq!(h.timestamp, 44);
    assert_eq!(h.topic_len, 5);
    assert_eq!(h.data_len, 3);
    assert_eq!(h.trace.span_id, 0xCC);
    assert_eq!(h.encoding, FILAMENT_FMT_JSON);
}
