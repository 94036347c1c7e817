use udp_bench::stream_statics::{RateWindow, StreamStatics};

#[test]
fn new_counts_nothing() {
    let s = StreamStatics::new();
    assert_eq!(s.get_recv_bytes(), 0);
    assert_eq!(s.get_send_bytes(), 0);
    assert_eq!(s.get_recv_count(), 0);
    assert_eq!(s.get_send_count(), 0);
}

#[test]
fn adds_accumulate_per_direction() {
    let mut s = StreamStatics::new();
    s.add_recv_bytes(100);
    s.add_recv_bytes(50);
    s.add_send_bytes(7);
    assert_eq!(s.get_recv_bytes(), 150);
    assert_eq!(s.get_recv_count(), 2);
    assert_eq!(s.get_send_bytes(), 7);
    assert_eq!(s.get_send_count(), 1);
}

#[test]
fn zero_byte_datagram_still_counts() {
    let mut s = StreamStatics::new();
    s.add_recv_bytes(0);
    assert_eq!(s.get_recv_bytes(), 0);
    assert_eq!(s.get_recv_count(), 1);
}

#[test]
fn reset_zeroes_totals() {
    let mut s = StreamStatics::new();
    s.add_recv_bytes(10);
    s.add_send_bytes(20);
    s.reset();
    assert_eq!(s.get_recv_bytes(), 0);
    assert_eq!(s.get_send_bytes(), 0);
    assert_eq!(s.get_recv_count(), 0);
    assert_eq!(s.get_send_count(), 0);
}

#[test]
fn first_window_starts_then_measures() {
    let mut s = StreamStatics::new();
    s.add_recv_bytes(1000);
    assert!(s.can_take_recv_window(5000));
    assert_eq!(s.recv_window(5000, 5000), RateWindow::Started);
    s.add_recv_bytes(300);
    s.add_recv_bytes(700);
    assert_eq!(
        s.recv_window(7000, 7001),
        RateWindow::Measured { bytes: 1000, count: 2, duration_ms: 2000 }
    );
    s.add_recv_bytes(10);
    assert_eq!(
        s.recv_window(8001, 8001),
        RateWindow::Measured { bytes: 10, count: 1, duration_ms: 1000 }
    );
}

#[test]
fn window_without_elapsed_time_is_idle() {
    let mut s = StreamStatics::new();
    assert_eq!(s.send_window(100, 100), RateWindow::Started);
    s.add_send_bytes(5);
    assert_eq!(s.send_window(100, 120), RateWindow::Idle);
    assert_eq!(s.send_window(90, 120), RateWindow::Idle);
    assert_eq!(
        s.send_window(110, 110),
        RateWindow::Measured { bytes: 5, count: 1, duration_ms: 10 }
    );
}

#[test]
fn window_at_clock_zero_stays_unopened() {
    let mut s = StreamStatics::new();
    assert_eq!(s.recv_window(0, 0), RateWindow::Started);
    assert_eq!(s.recv_window(50, 50), RateWindow::Started);
}

#[test]
fn directions_have_separate_windows() {
    let mut s = StreamStatics::new();
    assert_eq!(s.recv_window(1000, 1000), RateWindow::Started);
    s.add_send_bytes(40);
    s.add_recv_bytes(8);
    assert_eq!(s.send_window(2000, 2000), RateWindow::Started);
    assert_eq!(
        s.recv_window(2000, 2000),
        RateWindow::Measured { bytes: 8, count: 1, duration_ms: 1000 }
    );
}

#[test]
fn window_after_reset_cannot_be_taken() {
    let mut s = StreamStatics::new();
    s.add_recv_bytes(10);
    assert_eq!(s.recv_window(1000, 1000), RateWindow::Started);
    s.reset();
    assert!(!s.can_take_recv_window(2000));
    assert!(s.can_take_send_window(2000));
    s.add_recv_bytes(10);
    assert!(s.can_take_recv_window(2000));
}

#[test]
fn window_elapsed_time_must_fit() {
    let mut s = StreamStatics::new();
    assert_eq!(s.recv_window(i64::MAX, i64::MAX), RateWindow::Started);
    assert!(!s.can_take_recv_window(-10));
    assert!(s.can_take_recv_window(0));
}

#[test]
fn totals_count_calls_since_last_reset() {
    let mut s = StreamStatics::new();
    s.add_recv_bytes(100);
    s.add_send_bytes(3);
    s.reset();
    s.add_recv_bytes(5);
    assert_eq!(s.recv_window(1000, 1000), RateWindow::Started);
    s.add_send_bytes(0);
    s.add_recv_bytes(7);
    s.add_send_bytes(11);
    assert_eq!(s.get_recv_bytes(), 12);
    assert_eq!(s.get_recv_count(), 2);
    assert_eq!(s.get_send_bytes(), 11);
    assert_eq!(s.get_send_count(), 2);
}
