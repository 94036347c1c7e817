use vstd::prelude::*;

verus! {

/// The counters of a [`StreamStatics`], as plain values.
pub struct StatsView {
    pub recv_bytes: usize,
    pub send_bytes: usize,
    pub recv_count: usize,
    pub send_count: usize,
    pub last_recv_time: i64,
    pub last_send_time: i64,
    pub last_recv_bytes: usize,
    pub last_send_bytes: usize,
    pub last_recv_count: usize,
    pub last_send_count: usize,
}

/// What one rate measurement of a direction found.
#[derive(Debug, Clone, Copy, PartialEq, Eq, Structural)]
pub enum RateWindow {
    /// First measurement: the window has just been opened; the rate is 0.
    Started,
    /// No time has passed since the window was opened; the rate is 0 and
    /// the window stays open.
    Idle,
    /// Bytes and datagrams counted since the window was opened, over
    /// `duration_ms` milliseconds; a new window is opened.
    Measured { bytes: usize, count: usize, duration_ms: i64 },
}

/// Traffic counters of one stream: bytes and datagrams received and sent,
/// and for each direction a window (time, bytes, datagrams at its opening)
/// from which the rate since the last measurement is computed.
pub struct StreamStatics {
    recv_bytes: usize,
    send_bytes: usize,
    recv_count: usize,
    send_count: usize,
    last_recv_time: i64,
    last_send_time: i64,
    last_recv_bytes: usize,
    last_send_bytes: usize,
    last_recv_count: usize,
    last_send_count: usize,
}

impl View for StreamStatics {
    type V = StatsView;

    closed spec fn view(&self) -> StatsView {
        StatsView {
            recv_bytes: self.recv_bytes,
            send_bytes: self.send_bytes,
            recv_count: self.recv_count,
            send_count: self.send_count,
            last_recv_time: self.last_recv_time,
            last_send_time: self.last_send_time,
            last_recv_bytes: self.last_recv_bytes,
            last_send_bytes: self.last_send_bytes,
            last_recv_count: self.last_recv_count,
            last_send_count: self.last_send_count,
        }
    }
}

/// The state of one direction's window after a measurement at `now`
/// (re-stamped at `restamp`) and what the measurement reports.
pub open spec fn window_step(
    bytes: usize,
    count: usize,
    last_time: i64,
    last_bytes: usize,
    last_count: usize,
    now: i64,
    restamp: i64,
) -> ((i64, usize, usize), RateWindow) {
    if last_time == 0 {
        ((now, bytes, count), RateWindow::Started)
    } else if now - last_time <= 0 {
        ((last_time, last_bytes, last_count), RateWindow::Idle)
    } else {
        (
            (restamp, bytes, count),
            RateWindow::Measured {
                bytes: (bytes - last_bytes) as usize,
                count: (count - last_count) as usize,
                duration_ms: (now - last_time) as i64,
            },
        )
    }
}

/// A measurement at `now` can be taken without overflow: once the window is
/// open, the elapsed time fits an `i64` and the counters have not gone below
/// the window's opening values (as they may after a `reset`).
pub open spec fn window_defined(
    bytes: usize,
    count: usize,
    last_time: i64,
    last_bytes: usize,
    last_count: usize,
    now: i64,
) -> bool {
    last_time != 0 ==> {
        &&& i64::MIN <= now - last_time <= i64::MAX
        &&& last_bytes <= bytes
        &&& last_count <= count
    }
}

fn window(
    bytes: usize,
    count: usize,
    last_time: &mut i64,
    last_bytes: &mut usize,
    last_count: &mut usize,
    now: i64,
    restamp: i64,
) -> (r: RateWindow)
    requires
        window_defined(bytes, count, *old(last_time), *old(last_bytes), *old(last_count), now),
    ensures
        window_step(bytes, count, *old(last_time), *old(last_bytes), *old(last_count), now, restamp)
            == ((*final(last_time), *final(last_bytes), *final(last_count)), r),
{
    if *last_time == 0 {
        *last_time = now;
        *last_bytes = bytes;
        *last_count = count;
        return RateWindow::Started;
    }
    let duration_ms = now - *last_time;
    let duration_bytes = bytes - *last_bytes;
    let duration_count = count - *last_count;
    if duration_ms <= 0 {
        return RateWindow::Idle;
    }
    *last_time = restamp;
    *last_bytes = bytes;
    *last_count = count;
    RateWindow::Measured { bytes: duration_bytes, count: duration_count, duration_ms }
}

fn window_ok(
    bytes: usize,
    count: usize,
    last_time: i64,
    last_bytes: usize,
    last_count: usize,
    now: i64,
) -> (r: bool)
    ensures
        r == window_defined(bytes, count, last_time, last_bytes, last_count, now),
{
    if last_time == 0 {
        return true;
    }
    let elapsed_fits = if last_time > 0 {
        now >= i64::MIN + last_time
    } else {
        now <= i64::MAX + last_time
    };
    elapsed_fits && last_bytes <= bytes && last_count <= count
}

impl StatsView {
    /// The counters after one datagram of `n` bytes was received.
    pub open spec fn add_recv(self, n: usize) -> StatsView {
        StatsView {
            recv_bytes: (self.recv_bytes + n) as usize,
            recv_count: (self.recv_count + 1) as usize,
            ..self
        }
    }

    /// The counters after one datagram of `n` bytes was sent.
    pub open spec fn add_send(self, n: usize) -> StatsView {
        StatsView {
            send_bytes: (self.send_bytes + n) as usize,
            send_count: (self.send_count + 1) as usize,
            ..self
        }
    }

    /// The counters after `reset`: totals at zero, windows unchanged.
    pub open spec fn reset(self) -> StatsView {
        StatsView { recv_bytes: 0, send_bytes: 0, recv_count: 0, send_count: 0, ..self }
    }

    pub open spec fn recv_window_defined(self, now: i64) -> bool {
        window_defined(
            self.recv_bytes,
            self.recv_count,
            self.last_recv_time,
            self.last_recv_bytes,
            self.last_recv_count,
            now,
        )
    }

    pub open spec fn send_window_defined(self, now: i64) -> bool {
        window_defined(
            self.send_bytes,
            self.send_count,
            self.last_send_time,
            self.last_send_bytes,
            self.last_send_count,
            now,
        )
    }

    /// The counters after a receive-rate measurement, and its report.
    pub open spec fn recv_window(self, now: i64, restamp: i64) -> (StatsView, RateWindow) {
        let (w, r) = window_step(
            self.recv_bytes,
            self.recv_count,
            self.last_recv_time,
            self.last_recv_bytes,
            self.last_recv_count,
            now,
            restamp,
        );
        (StatsView { last_recv_time: w.0, last_recv_bytes: w.1, last_recv_count: w.2, ..self }, r)
    }

    /// The counters after a send-rate measurement, and its report.
    pub open spec fn send_window(self, now: i64, restamp: i64) -> (StatsView, RateWindow) {
        let (w, r) = window_step(
            self.send_bytes,
            self.send_count,
            self.last_send_time,
            self.last_send_bytes,
            self.last_send_count,
            now,
            restamp,
        );
        (StatsView { last_send_time: w.0, last_send_bytes: w.1, last_send_count: w.2, ..self }, r)
    }
}

/// Total of a list of datagram sizes.
pub open spec fn sum_sizes(sizes: Seq<usize>) -> int
    decreases sizes.len(),
{
    if sizes.len() == 0 {
        0
    } else {
        sum_sizes(sizes.drop_last()) + sizes.last()
    }
}

impl StatsView {
    /// The counters after receiving datagrams of the given sizes, in order.
    pub open spec fn add_recv_all(self, sizes: Seq<usize>) -> StatsView
        decreases sizes.len(),
    {
        if sizes.len() == 0 {
            self
        } else {
            self.add_recv_all(sizes.drop_last()).add_recv(sizes.last())
        }
    }

    /// The counters after sending datagrams of the given sizes, in order.
    pub open spec fn add_send_all(self, sizes: Seq<usize>) -> StatsView
        decreases sizes.len(),
    {
        if sizes.len() == 0 {
            self
        } else {
            self.add_send_all(sizes.drop_last()).add_send(sizes.last())
        }
    }
}

proof fn lemma_sum_sizes_nonneg(sizes: Seq<usize>)
    ensures
        sum_sizes(sizes) >= 0,
    decreases sizes.len(),
{
    if sizes.len() > 0 {
        lemma_sum_sizes_nonneg(sizes.drop_last());
    }
}

proof fn lemma_add_recv_all(v: StatsView, sizes: Seq<usize>)
    requires
        v.recv_bytes + sum_sizes(sizes) <= usize::MAX,
        v.recv_count + sizes.len() <= usize::MAX,
    ensures
        v.add_recv_all(sizes) == (StatsView {
            recv_bytes: (v.recv_bytes + sum_sizes(sizes)) as usize,
            recv_count: (v.recv_count + sizes.len()) as usize,
            ..v
        }),
    decreases sizes.len(),
{
    if sizes.len() > 0 {
        lemma_sum_sizes_nonneg(sizes.drop_last());
        lemma_add_recv_all(v, sizes.drop_last());
    }
}

proof fn lemma_add_send_all(v: StatsView, sizes: Seq<usize>)
    requires
        v.send_bytes + sum_sizes(sizes) <= usize::MAX,
        v.send_count + sizes.len() <= usize::MAX,
    ensures
        v.add_send_all(sizes) == (StatsView {
            send_bytes: (v.send_bytes + sum_sizes(sizes)) as usize,
            send_count: (v.send_count + sizes.len()) as usize,
            ..v
        }),
    decreases sizes.len(),
{
    if sizes.len() > 0 {
        lemma_sum_sizes_nonneg(sizes.drop_last());
        lemma_add_send_all(v, sizes.drop_last());
    }
}

/// Receive rate: once a measurement has opened the window (at a non-zero
/// clock reading), a later measurement with time elapsed reports exactly the
/// bytes and the number of datagrams received in between, and the time since
/// the window opened. Receiving leaves the send counters untouched.
pub proof fn lemma_recv_window_reports_traffic(
    v: StatsView,
    t0: i64,
    r0: i64,
    sizes: Seq<usize>,
    t1: i64,
    r1: i64,
)
    requires
        v.recv_window_defined(t0),
        v.recv_window(t0, r0).1 != RateWindow::Idle,
        v.recv_window(t0, r0).0.last_recv_time != 0,
        v.recv_bytes + sum_sizes(sizes) <= usize::MAX,
        v.recv_count + sizes.len() <= usize::MAX,
        0 < t1 - v.recv_window(t0, r0).0.last_recv_time <= i64::MAX,
    ensures
        ({
            let opened = v.recv_window(t0, r0).0;
            let later = opened.add_recv_all(sizes);
            &&& later.send_bytes == v.send_bytes
            &&& later.send_count == v.send_count
            &&& later.recv_window_defined(t1)
            &&& later.recv_window(t1, r1).1 == RateWindow::Measured {
                bytes: sum_sizes(sizes) as usize,
                count: sizes.len() as usize,
                duration_ms: (t1 - opened.last_recv_time) as i64,
            }
        }),
{
    let opened = v.recv_window(t0, r0).0;
    lemma_sum_sizes_nonneg(sizes);
    lemma_add_recv_all(opened, sizes);
}

/// Send rate: as `lemma_recv_window_reports_traffic`, for the sent traffic.
pub proof fn lemma_send_window_reports_traffic(
    v: StatsView,
    t0: i64,
    r0: i64,
    sizes: Seq<usize>,
    t1: i64,
    r1: i64,
)
    requires
        v.send_window_defined(t0),
        v.send_window(t0, r0).1 != RateWindow::Idle,
        v.send_window(t0, r0).0.last_send_time != 0,
        v.send_bytes + sum_sizes(sizes) <= usize::MAX,
        v.send_count + sizes.len() <= usize::MAX,
        0 < t1 - v.send_window(t0, r0).0.last_send_time <= i64::MAX,
    ensures
        ({
            let opened = v.send_window(t0, r0).0;
            let later = opened.add_send_all(sizes);
            &&& later.recv_bytes == v.recv_bytes
            &&& later.recv_count == v.recv_count
            &&& later.send_window_defined(t1)
            &&& later.send_window(t1, r1).1 == RateWindow::Measured {
                bytes: sum_sizes(sizes) as usize,
                count: sizes.len() as usize,
                duration_ms: (t1 - opened.last_send_time) as i64,
            }
        }),
{
    let opened = v.send_window(t0, r0).0;
    lemma_sum_sizes_nonneg(sizes);
    lemma_add_send_all(opened, sizes);
}

/// One call on a [`StreamStatics`] that changes it: `add_recv_bytes`,
/// `add_send_bytes`, `reset`, or a rate measurement `recv_window` /
/// `send_window` at the given clock readings.
pub enum StatsOp {
    AddRecv(usize),
    AddSend(usize),
    Reset,
    RecvWindow(i64, i64),
    SendWindow(i64, i64),
}

impl StatsView {
    /// The counters after one call, as that call's contract states it.
    pub open spec fn step(self, op: StatsOp) -> StatsView {
        match op {
            StatsOp::AddRecv(n) => self.add_recv(n),
            StatsOp::AddSend(n) => self.add_send(n),
            StatsOp::Reset => self.reset(),
            StatsOp::RecvWindow(now, restamp) => self.recv_window(now, restamp).0,
            StatsOp::SendWindow(now, restamp) => self.send_window(now, restamp).0,
        }
    }

    /// The call's `requires` holds on these counters.
    pub open spec fn step_defined(self, op: StatsOp) -> bool {
        match op {
            StatsOp::AddRecv(n) => self.recv_bytes + n <= usize::MAX && self.recv_count
                < usize::MAX,
            StatsOp::AddSend(n) => self.send_bytes + n <= usize::MAX && self.send_count
                < usize::MAX,
            StatsOp::Reset => true,
            StatsOp::RecvWindow(now, _) => self.recv_window_defined(now),
            StatsOp::SendWindow(now, _) => self.send_window_defined(now),
        }
    }
}

/// The counters after the calls `ops`, in order, starting from `v`.
pub open spec fn run_ops(v: StatsView, ops: Seq<StatsOp>) -> StatsView
    decreases ops.len(),
{
    if ops.len() == 0 {
        v
    } else {
        run_ops(v, ops.drop_last()).step(ops.last())
    }
}

/// Each call of `ops`, made in order from `v`, meets its `requires`.
pub open spec fn ops_defined(v: StatsView, ops: Seq<StatsOp>) -> bool
    decreases ops.len(),
{
    ops.len() == 0 || (ops_defined(v, ops.drop_last()) && run_ops(v, ops.drop_last()).step_defined(
        ops.last(),
    ))
}

/// Bytes received (`recv`) or sent (`!recv`) in the calls after the last
/// `Reset` of `ops` (all of them if there is none).
pub open spec fn bytes_since_reset(ops: Seq<StatsOp>, recv: bool) -> int
    decreases ops.len(),
{
    if ops.len() == 0 {
        0
    } else {
        let before = bytes_since_reset(ops.drop_last(), recv);
        match ops.last() {
            StatsOp::Reset => 0,
            StatsOp::AddRecv(n) => if recv {
                before + n
            } else {
                before
            },
            StatsOp::AddSend(n) => if recv {
                before
            } else {
                before + n
            },
            _ => before,
        }
    }
}

/// Datagrams received (`recv`) or sent (`!recv`) in the calls after the last
/// `Reset` of `ops` (all of them if there is none).
pub open spec fn count_since_reset(ops: Seq<StatsOp>, recv: bool) -> int
    decreases ops.len(),
{
    if ops.len() == 0 {
        0
    } else {
        let before = count_since_reset(ops.drop_last(), recv);
        match ops.last() {
            StatsOp::Reset => 0,
            StatsOp::AddRecv(_) => if recv {
                before + 1
            } else {
                before
            },
            StatsOp::AddSend(_) => if recv {
                before
            } else {
                before + 1
            },
            _ => before,
        }
    }
}

/// Totals after any sequence of calls on new counters: the received (sent)
/// byte total is the sum of the sizes given to `add_recv_bytes`
/// (`add_send_bytes`) since the last `reset`, and the received (sent)
/// datagram count is the number of those calls; the other direction's calls
/// and the rate measurements change neither.
pub proof fn lemma_totals_after_calls(ops: Seq<StatsOp>)
    requires
        ops_defined(zero_stats(), ops),
    ensures
        run_ops(zero_stats(), ops).recv_bytes == bytes_since_reset(ops, true),
        run_ops(zero_stats(), ops).send_bytes == bytes_since_reset(ops, false),
        run_ops(zero_stats(), ops).recv_count == count_since_reset(ops, true),
        run_ops(zero_stats(), ops).send_count == count_since_reset(ops, false),
    decreases ops.len(),
{
    if ops.len() > 0 {
        lemma_totals_after_calls(ops.drop_last());
    }
}

/// All counters at zero.
pub open spec fn zero_stats() -> StatsView {
    StatsView {
        recv_bytes: 0,
        send_bytes: 0,
        recv_count: 0,
        send_count: 0,
        last_recv_time: 0,
        last_send_time: 0,
        last_recv_bytes: 0,
        last_send_bytes: 0,
        last_recv_count: 0,
        last_send_count: 0,
    }
}

impl StreamStatics {
    /// Counters with nothing counted and no window open.
    pub fn new() -> (r: Self)
        ensures
            r@ == zero_stats(),
    {
        StreamStatics {
            recv_bytes: 0,
            send_bytes: 0,
            recv_count: 0,
            send_count: 0,
            last_recv_time: 0,
            last_send_time: 0,
            last_recv_bytes: 0,
            last_send_bytes: 0,
            last_recv_count: 0,
            last_send_count: 0,
        }
    }

    /// Counts one received datagram of `bytes` bytes.
    pub fn add_recv_bytes(&mut self, bytes: usize)
        requires
            old(self)@.recv_bytes + bytes <= usize::MAX,
            old(self)@.recv_count < usize::MAX,
        ensures
            final(self)@ == old(self)@.add_recv(bytes),
    {
        self.recv_bytes += bytes;
        self.recv_count += 1;
    }

    /// Counts one sent datagram of `bytes` bytes.
    pub fn add_send_bytes(&mut self, bytes: usize)
        requires
            old(self)@.send_bytes + bytes <= usize::MAX,
            old(self)@.send_count < usize::MAX,
        ensures
            final(self)@ == old(self)@.add_send(bytes),
    {
        self.send_bytes += bytes;
        self.send_count += 1;
    }

    pub fn get_recv_bytes(&self) -> (r: usize)
        ensures
            r == self@.recv_bytes,
    {
        self.recv_bytes
    }

    pub fn get_send_bytes(&self) -> (r: usize)
        ensures
            r == self@.send_bytes,
    {
        self.send_bytes
    }

    pub fn get_recv_count(&self) -> (r: usize)
        ensures
            r == self@.recv_count,
    {
        self.recv_count
    }

    pub fn get_send_count(&self) -> (r: usize)
        ensures
            r == self@.send_count,
    {
        self.send_count
    }

    /// Whether `recv_window(now, ..)` can be taken (see `window_defined`).
    pub fn can_take_recv_window(&self, now_ms: i64) -> (r: bool)
        ensures
            r == self@.recv_window_defined(now_ms),
    {
        window_ok(
            self.recv_bytes,
            self.recv_count,
            self.last_recv_time,
            self.last_recv_bytes,
            self.last_recv_count,
            now_ms,
        )
    }

    /// Whether `send_window(now, ..)` can be taken (see `window_defined`).
    pub fn can_take_send_window(&self, now_ms: i64) -> (r: bool)
        ensures
            r == self@.send_window_defined(now_ms),
    {
        window_ok(
            self.send_bytes,
            self.send_count,
            self.last_send_time,
            self.last_send_bytes,
            self.last_send_count,
            now_ms,
        )
    }

    /// Receive-rate measurement at clock reading `now_ms`. The first one
    /// opens the window (`Started`); later ones report the bytes and
    /// datagrams received since the window opened and the elapsed time,
    /// and reopen the window at the later clock reading `restamp_ms`; a
    /// measurement with no elapsed time reports `Idle` and changes nothing.
    pub fn recv_window(&mut self, now_ms: i64, restamp_ms: i64) -> (r: RateWindow)
        requires
            old(self)@.recv_window_defined(now_ms),
        ensures
            (final(self)@, r) == old(self)@.recv_window(now_ms, restamp_ms),
    {
        window(
            self.recv_bytes,
            self.recv_count,
            &mut self.last_recv_time,
            &mut self.last_recv_bytes,
            &mut self.last_recv_count,
            now_ms,
            restamp_ms,
        )
    }

    /// Send-rate measurement; as `recv_window`, for the sent traffic.
    pub fn send_window(&mut self, now_ms: i64, restamp_ms: i64) -> (r: RateWindow)
        requires
            old(self)@.send_window_defined(now_ms),
        ensures
            (final(self)@, r) == old(self)@.send_window(now_ms, restamp_ms),
    {
        window(
            self.send_bytes,
            self.send_count,
            &mut self.last_send_time,
            &mut self.last_send_bytes,
            &mut self.last_send_count,
            now_ms,
            restamp_ms,
        )
    }

    /// Sets the four totals to zero; the rate windows are left as they are.
    pub fn reset(&mut self)
        ensures
            final(self)@ == old(self)@.reset(),
    {
        self.recv_bytes = 0;
        self.send_bytes = 0;
        self.recv_count = 0;
        self.send_count = 0;
    }
}

} // verus!
