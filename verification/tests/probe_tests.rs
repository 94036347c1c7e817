use udp_bench::common::Data;
use udp_bench::probe::{lost_count, RecvEvent, RecvTracker, RttSample, SendSchedule, FIRST_REPORT_MS, PAYLOAD_LEN};

#[test]
fn schedule_numbers_records_from_zero() {
    let mut s = SendSchedule::new(1000, 30);
    let a = s.next_datagram(77);
    let b = s.next_datagram(78);
    assert_eq!(s.next_seq(), 2);
    assert_eq!(a.len(), 16 + PAYLOAD_LEN);
    assert_eq!(&a[0..8], &[0, 0, 0, 0, 77, 0, 0, 0]);
    assert_eq!(&b[0..8], &[1, 0, 0, 0, 78, 0, 0, 0]);
    assert_eq!(&a[8..16], &[0, 4, 0, 0, 0, 0, 0, 0]);
    assert!(a[16..].iter().all(|&x| x == 0));
    let same = Data { seq: 0, ts: 77, data: vec![0; PAYLOAD_LEN] }.encode();
    assert_eq!(a, same);
}

#[test]
fn schedule_ends_after_duration() {
    let s = SendSchedule::new(1000, 30);
    assert!(!s.finished(1000));
    assert!(!s.finished(31_000));
    assert!(s.finished(31_001));
    assert_eq!(s.start_ms(), 1000);
}

#[test]
fn schedule_counts_sent() {
    let mut s = SendSchedule::new(0, 1);
    s.record_sent();
    s.record_sent();
    assert_eq!(s.total(), 2);
}

#[test]
fn tracker_reads_rtt_and_reports_every_two_seconds() {
    let mut t = RecvTracker::new();
    assert_eq!(t.report_ms(), FIRST_REPORT_MS);
    let pkt = Data { seq: 9, ts: 1000, data: vec![0; 4] }.encode();
    let e = t.on_datagram(&pkt, 1012, 3000);
    assert_eq!(e, RecvEvent::Sample(RttSample { seq: 9, ts: 1000, rtt_ms: 12, report: false }));
    let e = t.on_datagram(&pkt, 1000, 4001);
    assert_eq!(e, RecvEvent::Sample(RttSample { seq: 9, ts: 1000, rtt_ms: 0, report: true }));
    assert_eq!(t.report_ms(), 4001);
    let e = t.on_datagram(&pkt, 1001, 6001);
    assert_eq!(e, RecvEvent::Sample(RttSample { seq: 9, ts: 1000, rtt_ms: 1, report: false }));
    assert_eq!(t.total(), 3);
}

#[test]
fn tracker_skips_empty_datagrams() {
    let mut t = RecvTracker::new();
    assert_eq!(t.on_datagram(&[], 0, 0), RecvEvent::Empty);
    assert_eq!(t.total(), 0);
    assert_eq!(t.report_ms(), FIRST_REPORT_MS);
}

#[test]
fn loss_is_sent_minus_received() {
    assert_eq!(lost_count(368, 368), 0);
    assert_eq!(lost_count(100, 97), 3);
    assert_eq!(lost_count(0, 0), 0);
}
