use udp_bench::echo::EchoSession;
use udp_bench::stream_statics::RateWindow;

#[test]
fn echo_counts_received_and_sent() {
    let mut e = EchoSession::new(0);
    assert!(e.on_datagram(1040));
    assert!(e.on_echoed(1040, 1040));
    assert!(e.on_datagram(10));
    assert!(!e.on_echoed(10, 4));
    assert_eq!(e.statics.get_recv_bytes(), 1050);
    assert_eq!(e.statics.get_recv_count(), 2);
    assert_eq!(e.statics.get_send_bytes(), 1040);
    assert_eq!(e.statics.get_send_count(), 1);
}

#[test]
fn echo_skips_empty_datagrams() {
    let mut e = EchoSession::new(0);
    assert!(!e.on_datagram(0));
    assert_eq!(e.statics.get_recv_count(), 0);
}

#[test]
fn full_echo_balances() {
    let mut e = EchoSession::new(0);
    for n in [1usize, 0, 500, 1500, 0, 3] {
        if e.on_datagram(n) {
            assert!(e.on_echoed(n, n));
        }
    }
    assert_eq!(e.statics.get_recv_bytes(), e.statics.get_send_bytes());
    assert_eq!(e.statics.get_recv_count(), e.statics.get_send_count());
    assert_eq!(e.statics.get_recv_count(), 4);
}

#[test]
fn echo_reports_every_three_seconds() {
    let mut e = EchoSession::new(10_000);
    assert!(!e.report_due(12_999));
    assert!(e.report_due(13_000));
    assert_eq!(e.last_report_ms, 13_000);
    assert!(!e.report_due(15_000));
    assert!(e.report_due(16_500));
    assert_eq!(e.statics.recv_window(16_500, 16_500), RateWindow::Started);
}
