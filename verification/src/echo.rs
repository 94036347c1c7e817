use vstd::prelude::*;
use crate::stream_statics::{StreamStatics, StatsView, zero_stats};

verus! {

/// Milliseconds between two traffic reports of the echo server.
pub const ECHO_REPORT_INTERVAL_MS: i64 = 3000;

/// The decisions of the echo server: traffic counters and the clock reading
/// of the last traffic report.
pub struct EchoSession {
    pub statics: StreamStatics,
    pub last_report_ms: i64,
}

impl EchoSession {
    /// A session that starts at clock reading `start_ms` with nothing counted.
    pub fn new(start_ms: i64) -> (r: Self)
        ensures
            r.statics@ == zero_stats(),
            r.last_report_ms == start_ms,
    {
        EchoSession { statics: StreamStatics::new(), last_report_ms: start_ms }
    }

    /// A datagram of `n` bytes arrived: an empty one is skipped (`false`);
    /// any other is counted as received and is to be echoed (`true`).
    pub fn on_datagram(&mut self, n: usize) -> (r: bool)
        requires
            n > 0 ==> old(self).statics@.recv_bytes + n <= usize::MAX,
            n > 0 ==> old(self).statics@.recv_count < usize::MAX,
        ensures
            r == (n > 0),
            final(self).statics@ == (if n > 0 {
                old(self).statics@.add_recv(n)
            } else {
                old(self).statics@
            }),
            final(self).last_report_ms == old(self).last_report_ms,
    {
        if n == 0 {
            return false;
        }
        self.statics.add_recv_bytes(n);
        true
    }

    /// The echo of an `n`-byte datagram went out with `sent` bytes: in full
    /// (`true`) it is counted as sent; otherwise (`false`) nothing is counted.
    pub fn on_echoed(&mut self, n: usize, sent: usize) -> (r: bool)
        requires
            sent == n ==> old(self).statics@.send_bytes + n <= usize::MAX,
            sent == n ==> old(self).statics@.send_count < usize::MAX,
        ensures
            r == (sent == n),
            final(self).statics@ == (if sent == n {
                old(self).statics@.add_send(n)
            } else {
                old(self).statics@
            }),
            final(self).last_report_ms == old(self).last_report_ms,
    {
        if sent != n {
            return false;
        }
        self.statics.add_send_bytes(n);
        true
    }

    /// Whether a traffic report is due at clock reading `now_ms`: at least
    /// `ECHO_REPORT_INTERVAL_MS` since the last one; if so, `now_ms` becomes
    /// the time of the last report.
    pub fn report_due(&mut self, now_ms: i64) -> (r: bool)
        requires
            i64::MIN <= now_ms - old(self).last_report_ms <= i64::MAX,
        ensures
            r == (now_ms - old(self).last_report_ms >= ECHO_REPORT_INTERVAL_MS),
            final(self).last_report_ms == (if r {
                now_ms
            } else {
                old(self).last_report_ms
            }),
            final(self).statics@ == old(self).statics@,
    {
        if now_ms - self.last_report_ms >= ECHO_REPORT_INTERVAL_MS {
            self.last_report_ms = now_ms;
            true
        } else {
            false
        }
    }
}

/// Counters after datagrams of the given sizes were each received and echoed
/// in full (empty datagrams are skipped).
pub open spec fn echo_all(v: StatsView, sizes: Seq<usize>) -> StatsView
    decreases sizes.len(),
{
    if sizes.len() == 0 {
        v
    } else {
        let prev = echo_all(v, sizes.drop_last());
        let n = sizes.last();
        if n > 0 {
            prev.add_recv(n).add_send(n)
        } else {
            prev
        }
    }
}

/// When every datagram is echoed in full, the server has sent exactly what
/// it received: equal byte totals and equal datagram counts.
pub proof fn lemma_full_echo_balances(v: StatsView, sizes: Seq<usize>)
    requires
        v.recv_bytes == v.send_bytes,
        v.recv_count == v.send_count,
    ensures
        echo_all(v, sizes).recv_bytes == echo_all(v, sizes).send_bytes,
        echo_all(v, sizes).recv_count == echo_all(v, sizes).send_count,
    decreases sizes.len(),
{
    if sizes.len() > 0 {
        lemma_full_echo_balances(v, sizes.drop_last());
    }
}

} // verus!
