use vstd::prelude::*;
use crate::common::{le_u32_value, wire_bytes, parse_header, Data, lemma_header_of_wire};

verus! {

/// Payload bytes carried by each probe record.
pub const PAYLOAD_LEN: usize = 1024;

/// The payload of each probe record: zero bytes.
pub open spec fn probe_payload() -> Seq<u8> {
    Seq::new(PAYLOAD_LEN as nat, |i: int| 0u8)
}

/// The sending side of a probe run: when it started, how long it lasts,
/// the next sequence number and how many records went out.
pub struct SendSchedule {
    start_ms: i64,
    duration_s: i64,
    seq: u32,
    total: i64,
}

/// The state of a [`SendSchedule`] as plain values.
pub struct SendView {
    pub start_ms: i64,
    pub duration_s: i64,
    pub seq: u32,
    pub total: i64,
}

impl View for SendSchedule {
    type V = SendView;

    closed spec fn view(&self) -> SendView {
        SendView {
            start_ms: self.start_ms,
            duration_s: self.duration_s,
            seq: self.seq,
            total: self.total,
        }
    }
}

impl SendSchedule {
    /// A run that starts at clock reading `start_ms` and lasts `duration_s`
    /// seconds; sequence numbers start at 0.
    pub fn new(start_ms: i64, duration_s: i64) -> (r: Self)
        requires
            i64::MIN <= duration_s * 1000 <= i64::MAX,
        ensures
            r@ == (SendView { start_ms, duration_s, seq: 0, total: 0 }),
    {
        SendSchedule { start_ms, duration_s, seq: 0, total: 0 }
    }

    /// The run is over at clock reading `now_ms`: more than `duration_s`
    /// seconds have passed since it started.
    pub fn finished(&self, now_ms: i64) -> (r: bool)
        requires
            i64::MIN <= now_ms - self@.start_ms <= i64::MAX,
            i64::MIN <= self@.duration_s * 1000 <= i64::MAX,
        ensures
            r == (now_ms - self@.start_ms > self@.duration_s * 1000),
    {
        now_ms - self.start_ms > self.duration_s * 1000
    }

    /// The next probe record, stamped with `ts`, in its wire format; the
    /// sequence number advances.
    pub fn next_datagram(&mut self, ts: u32) -> (r: Vec<u8>)
        requires
            old(self)@.seq < u32::MAX,
        ensures
            final(self)@ == (SendView { seq: (old(self)@.seq + 1) as u32, ..old(self)@ }),
            r@ == wire_bytes(old(self)@.seq, ts, probe_payload()),
    {
        let payload: Vec<u8> = vec![0u8; PAYLOAD_LEN];
        assert(payload@ =~= probe_payload());
        let data = Data { seq: self.seq, ts, data: payload };
        self.seq = self.seq + 1;
        data.encode()
    }

    /// Counts one record that went out.
    pub fn record_sent(&mut self)
        requires
            old(self)@.total < i64::MAX,
        ensures
            final(self)@ == (SendView { total: (old(self)@.total + 1) as i64, ..old(self)@ }),
    {
        self.total = self.total + 1;
    }

    /// Records sent so far.
    pub fn total(&self) -> (r: i64)
        ensures
            r == self@.total,
    {
        self.total
    }

    /// Clock reading at which the run started.
    pub fn start_ms(&self) -> (r: i64)
        ensures
            r == self@.start_ms,
    {
        self.start_ms
    }

    /// Sequence number of the next record.
    pub fn next_seq(&self) -> (r: u32)
        ensures
            r == self@.seq,
    {
        self.seq
    }
}

/// Round-trip time of one echoed probe record.
#[derive(Debug, Clone, Copy, PartialEq, Eq, Structural)]
pub struct RttSample {
    pub seq: u32,
    pub ts: u32,
    pub rtt_ms: u32,
    /// A report of this sample is due.
    pub report: bool,
}

/// What a received datagram gave.
#[derive(Debug, Clone, Copy, PartialEq, Eq, Structural)]
pub enum RecvEvent {
    /// The datagram was empty.
    Empty,
    Sample(RttSample),
}

/// The receiving side of a probe run: echoed records counted, and the
/// clock reading of the last round-trip report.
pub struct RecvTracker {
    total: i64,
    report_ms: i64,
}

/// Clock reading that the report timer starts from.
pub const FIRST_REPORT_MS: i64 = 2000;

/// Milliseconds that must have passed since the last round-trip report
/// before the next one.
pub const REPORT_INTERVAL_MS: i64 = 2000;

/// The report timer at clock reading `now`: its new stamp, and whether a
/// report is due. A timer at 0 is only started.
pub open spec fn report_step(last: i64, now: i64) -> (i64, bool) {
    if last == 0 {
        (now, false)
    } else if now - last > REPORT_INTERVAL_MS {
        (now, true)
    } else {
        (last, false)
    }
}

/// The receiving side after a datagram `data`, whose arrival is stamped
/// `arrival_ts` (clock, 32 bits) and `now` (clock), and what it gave.
pub open spec fn recv_step(state: (i64, i64), data: Seq<u8>, arrival_ts: u32, now: i64) -> (
    (i64, i64),
    RecvEvent,
) {
    if data.len() == 0 {
        (state, RecvEvent::Empty)
    } else {
        let (stamp, report) = report_step(state.1, now);
        (
            ((state.0 + 1) as i64, stamp),
            RecvEvent::Sample(
                RttSample {
                    seq: le_u32_value(data) as u32,
                    ts: le_u32_value(data.subrange(4, 8)) as u32,
                    rtt_ms: (arrival_ts - le_u32_value(data.subrange(4, 8))) as u32,
                    report,
                },
            ),
        )
    }
}

/// A datagram can be taken without a failure: it is empty or holds at
/// least a header, its send time is not later than its arrival, the count
/// has room, and the time since the last report fits an `i64`.
pub open spec fn recv_step_defined(state: (i64, i64), data: Seq<u8>, arrival_ts: u32, now: i64) -> bool {
    data.len() > 0 ==> {
        &&& data.len() >= 8
        &&& le_u32_value(data.subrange(4, 8)) <= arrival_ts
        &&& state.0 < i64::MAX
        &&& state.1 != 0 ==> i64::MIN <= now - state.1 <= i64::MAX
    }
}

impl View for RecvTracker {
    type V = (i64, i64);

    closed spec fn view(&self) -> (i64, i64) {
        (self.total, self.report_ms)
    }
}

impl RecvTracker {
    /// Nothing received; the report timer stands at `FIRST_REPORT_MS`.
    pub fn new() -> (r: Self)
        ensures
            r@ == (0i64, FIRST_REPORT_MS),
    {
        RecvTracker { total: 0, report_ms: FIRST_REPORT_MS }
    }

    /// Takes one received datagram: an empty one changes nothing; otherwise
    /// its sequence number and send time are read, the round-trip time is
    /// the arrival time less the send time, the datagram is counted and the
    /// report timer is advanced.
    pub fn on_datagram(&mut self, data: &[u8], arrival_ts: u32, now_ms: i64) -> (r: RecvEvent)
        requires
            recv_step_defined(old(self)@, data@, arrival_ts, now_ms),
        ensures
            (final(self)@, r) == recv_step(old(self)@, data@, arrival_ts, now_ms),
    {
        if data.len() == 0 {
            return RecvEvent::Empty;
        }
        let header = parse_header(data);
        let rtt_ms = arrival_ts - header.ts;
        let report = if self.report_ms == 0 {
            self.report_ms = now_ms;
            false
        } else if now_ms - self.report_ms > REPORT_INTERVAL_MS {
            self.report_ms = now_ms;
            true
        } else {
            false
        };
        self.total = self.total + 1;
        RecvEvent::Sample(RttSample { seq: header.seq, ts: header.ts, rtt_ms, report })
    }

    /// Echoed records counted so far.
    pub fn total(&self) -> (r: i64)
        ensures
            r == self@.0,
    {
        self.total
    }

    /// Clock reading of the last round-trip report.
    pub fn report_ms(&self) -> (r: i64)
        ensures
            r == self@.1,
    {
        self.report_ms
    }
}

/// Every non-empty datagram is counted as one echoed record, whatever its
/// length or contents; an empty one changes nothing.
pub proof fn lemma_recv_counts_each_datagram(
    state: (i64, i64),
    data: Seq<u8>,
    arrival_ts: u32,
    now: i64,
)
    requires
        recv_step_defined(state, data, arrival_ts, now),
    ensures
        data.len() > 0 ==> recv_step(state, data, arrival_ts, now).0.0 == state.0 + 1,
        data.len() > 0 ==> recv_step(state, data, arrival_ts, now).1 is Sample,
        data.len() == 0 ==> recv_step(state, data, arrival_ts, now) == (state, RecvEvent::Empty),
{
}

/// The receiving side after the datagrams `ds` (each with its arrival
/// stamps), taken in order.
pub open spec fn recv_run(state: (i64, i64), ds: Seq<(Seq<u8>, u32, i64)>) -> (i64, i64)
    decreases ds.len(),
{
    if ds.len() == 0 {
        state
    } else {
        let d = ds.last();
        recv_step(recv_run(state, ds.drop_last()), d.0, d.1, d.2).0
    }
}

/// Each datagram of `ds`, taken in order from `state`, can be taken.
pub open spec fn recv_run_defined(state: (i64, i64), ds: Seq<(Seq<u8>, u32, i64)>) -> bool
    decreases ds.len(),
{
    ds.len() == 0 || {
        let d = ds.last();
        recv_run_defined(state, ds.drop_last()) && recv_step_defined(
            recv_run(state, ds.drop_last()),
            d.0,
            d.1,
            d.2,
        )
    }
}

/// Number of non-empty datagrams in `ds`.
pub open spec fn nonempty_count(ds: Seq<(Seq<u8>, u32, i64)>) -> int
    decreases ds.len(),
{
    if ds.len() == 0 {
        0
    } else {
        nonempty_count(ds.drop_last()) + if ds.last().0.len() > 0 {
            1int
        } else {
            0
        }
    }
}

/// After a run, the count of echoed records is the number of non-empty
/// datagrams taken (on top of the count it started from).
pub proof fn lemma_recv_run_counts(state: (i64, i64), ds: Seq<(Seq<u8>, u32, i64)>)
    requires
        recv_run_defined(state, ds),
    ensures
        recv_run(state, ds).0 == state.0 + nonempty_count(ds),
    decreases ds.len(),
{
    if ds.len() > 0 {
        lemma_recv_run_counts(state, ds.drop_last());
    }
}

/// The round-trip report timer: a non-empty datagram taken when the timer is
/// set (non-zero) and more than `REPORT_INTERVAL_MS` have passed since it is
/// reported, and the timer moves to `now`; with no more than that elapsed,
/// it is not reported and the timer stays; a timer at 0 is only set to
/// `now`. The sample's sequence number, send time and round-trip time do
/// not depend on the timer.
pub proof fn lemma_report_timer(
    state: (i64, i64),
    data: Seq<u8>,
    arrival_ts: u32,
    now: i64,
)
    requires
        data.len() > 0,
        recv_step_defined(state, data, arrival_ts, now),
    ensures
        ({
            let (next, ev) = recv_step(state, data, arrival_ts, now);
            &&& ev is Sample
            &&& state.1 != 0 && now - state.1 > REPORT_INTERVAL_MS ==> ev->Sample_0.report
                && next.1 == now
            &&& state.1 != 0 && now - state.1 <= REPORT_INTERVAL_MS ==> !ev->Sample_0.report
                && next.1 == state.1
            &&& state.1 == 0 ==> !ev->Sample_0.report && next.1 == now
            &&& ev->Sample_0.seq == le_u32_value(data)
            &&& ev->Sample_0.ts == le_u32_value(data.subrange(4, 8))
            &&& ev->Sample_0.rtt_ms == arrival_ts - le_u32_value(data.subrange(4, 8))
        }),
{
}

/// Two successive reports are more than `REPORT_INTERVAL_MS` apart: after a
/// report at `t`, a datagram at `t2` with `t2 - t <= REPORT_INTERVAL_MS` is
/// not reported.
pub proof fn lemma_reports_spaced(
    state: (i64, i64),
    d1: Seq<u8>,
    a1: u32,
    t: i64,
    d2: Seq<u8>,
    a2: u32,
    t2: i64,
)
    requires
        d1.len() > 0,
        d2.len() > 0,
        recv_step_defined(state, d1, a1, t),
        recv_step(state, d1, a1, t).1->Sample_0.report,
        recv_step_defined(recv_step(state, d1, a1, t).0, d2, a2, t2),
        t2 - t <= REPORT_INTERVAL_MS,
    ensures
        !recv_step(recv_step(state, d1, a1, t).0, d2, a2, t2).1->Sample_0.report,
{
}

/// Records that were sent and did not come back.
pub fn lost_count(sent: i64, received: i64) -> (r: i64)
    requires
        i64::MIN <= sent - received <= i64::MAX,
    ensures
        r == sent - received,
{
    sent - received
}

/// A probe record that comes back unchanged gives the sequence number it was
/// sent with, and a round-trip time equal to its arrival time less its send
/// time.
pub proof fn lemma_echoed_record_sample(
    state: (i64, i64),
    seq: u32,
    ts: u32,
    payload: Seq<u8>,
    arrival_ts: u32,
    now: i64,
)
    requires
        payload.len() <= u64::MAX,
        ts <= arrival_ts,
    ensures
        recv_step(state, wire_bytes(seq, ts, payload), arrival_ts, now).1 == RecvEvent::Sample(
            RttSample {
                seq,
                ts,
                rtt_ms: (arrival_ts - ts) as u32,
                report: report_step(state.1, now).1,
            },
        ),
{
    lemma_header_of_wire(seq, ts, payload);
}

} // verus!
