//! The push (Carbon-style) reporter: line formatting for one reporting cycle,
//! and the connection state machine of its outbound stream.

use vstd::prelude::*;
use crate::format::{decimal, decimal_i64, decimal_u64, signed_decimal};
use crate::metric::{
    counter_snapshot, incremented_times, lemma_counter_counts_increments, HistogramSnapshot,
    MeterSnapshot, MetricValue, Snaphot, StdCounter,
};
use crate::registry::{
    inserted, inserted_all, lemma_distinct_inserts_keep_order, lemma_reinsert_overwrites, names_of,
    StdRegistry,
};
use crate::reporter::Reporter;
use std::sync::Arc;

verus! {

/// The text of each string, in order.
pub open spec fn texts(v: Seq<String>) -> Seq<Seq<char>> {
    v.map_values(|s: String| s@)
}

/// A metric path under a namespace: `<prefix>.<line>`.
pub open spec fn prefixed(prefix: Seq<char>, line: Seq<char>) -> Seq<char> {
    prefix + seq!['.'] + line
}

/// One protocol line: `<path> <value> <timestamp>` and a newline.
pub open spec fn carbon_line(path: Seq<char>, value: Seq<char>, ts: nat) -> Seq<char> {
    path + seq![' '] + value + seq![' '] + decimal(ts) + seq!['\n']
}

/// The fields that a snapshot reports: for each, the suffix of its path and its value text.
pub open spec fn readings(v: MetricValue) -> Seq<(Seq<char>, Seq<char>)> {
    match v {
        MetricValue::Counter(c) => seq![(Seq::<char>::empty(), signed_decimal(c as int))],
        MetricValue::Gauge(g) => seq![(Seq::<char>::empty(), g@)],
        MetricValue::Meter(m) => seq![
            (".count"@, signed_decimal(m.count as int)),
            (".m1"@, m.m1@),
            (".m5"@, m.m5@),
            (".m15"@, m.m15@),
            (".mean"@, m.mean@),
        ],
        MetricValue::Histogram(h) => seq![
            (".count"@, decimal(h.count as nat)),
            (".max"@, decimal(h.max as nat)),
            (".min"@, decimal(h.min as nat)),
            (".p50"@, decimal(h.p50 as nat)),
            (".p75"@, decimal(h.p75 as nat)),
            (".p95"@, decimal(h.p95 as nat)),
            (".p98"@, decimal(h.p98 as nat)),
            (".p99"@, decimal(h.p99 as nat)),
            (".p999"@, decimal(h.p999 as nat)),
            (".p9999"@, decimal(h.p9999 as nat)),
            (".p99999"@, decimal(h.p99999 as nat)),
        ],
    }
}

/// The lines that one metric contributes to a cycle.
pub open spec fn metric_lines_spec(prefix: Seq<char>, name: Seq<char>, v: MetricValue, ts: nat) -> Seq<Seq<char>> {
    readings(v).map_values(
        |r: (Seq<char>, Seq<char>)| carbon_line(prefixed(prefix, name + r.0), r.1, ts),
    )
}

/// The lines of a whole cycle: each metric's lines, metrics in order.
pub open spec fn cycle_lines_spec(prefix: Seq<char>, snaps: Seq<(Seq<char>, MetricValue)>, ts: nat) -> Seq<Seq<char>>
    decreases snaps.len(),
{
    if snaps.len() == 0 {
        Seq::empty()
    } else {
        cycle_lines_spec(prefix, snaps.drop_last(), ts)
            + metric_lines_spec(prefix, snaps.last().0, snaps.last().1, ts)
    }
}

/// Puts a metric path under the namespace `prefix_str`.
pub fn prefix(metric_line: String, prefix_str: &str) -> (r: String)
    ensures
        r@ == prefixed(prefix_str@, metric_line@),
{
    let mut r = String::from_str(prefix_str);
    r.append(".");
    proof {
        reveal_strlit(".");
    }
    r.append(metric_line.as_str());
    r
}

/// Milliseconds since the Unix epoch of an instant given as whole seconds and nanoseconds.
pub fn unix_millis(sec: u64, nsec: u32) -> (r: u64)
    requires
        nsec < 1_000_000_000,
        sec * 1000 + 999 <= u64::MAX,
    ensures
        r == sec * 1000 + nsec / 1_000_000,
{
    sec * 1000 + (nsec / 1_000_000) as u64
}

fn push_line(out: &mut Vec<String>, prefix_str: &str, name: &String, suffix: &str, value: &String, ts: &String)
    ensures
        texts(final(out)@) == texts(old(out)@).push(
            path_line(prefix_str@, name@, suffix@, value@, ts@),
        ),
{
    let mut path = name.clone();
    path.append(suffix);
    let mut line = prefix(path, prefix_str);
    line.append(" ");
    line.append(value.as_str());
    line.append(" ");
    line.append(ts.as_str());
    line.append("\n");
    proof {
        reveal_strlit(" ");
        reveal_strlit("\n");
    }
    assert(line@ =~= path_line(prefix_str@, name@, suffix@, value@, ts@));
    out.push(line);
    assert(texts(final(out)@) =~= texts(old(out)@).push(path_line(prefix_str@, name@, suffix@, value@, ts@)));
}

spec fn path_line(prefix: Seq<char>, name: Seq<char>, suffix: Seq<char>, value: Seq<char>, ts: Seq<char>) -> Seq<char> {
    prefixed(prefix, name + suffix) + seq![' '] + value + seq![' '] + ts + seq!['\n']
}

fn send_counter_metric(metric_name: &String, value: i64, out: &mut Vec<String>, prefix_str: &str, ts: u64, ts_text: &String)
    requires
        ts_text@ == decimal(ts as nat),
    ensures
        texts(final(out)@) == texts(old(out)@)
            + metric_lines_spec(prefix_str@, metric_name@, MetricValue::Counter(value), ts as nat),
{
    let text = decimal_i64(value);
    push_line(out, prefix_str, metric_name, "", &text, ts_text);
    proof { reveal_strlit(""); }
    assert(texts(final(out)@) =~= texts(old(out)@)
        + metric_lines_spec(prefix_str@, metric_name@, MetricValue::Counter(value), ts as nat));
}

fn send_gauge_metric(metric_name: &String, value: &String, out: &mut Vec<String>, prefix_str: &str, ts: u64, ts_text: &String)
    requires
        ts_text@ == decimal(ts as nat),
    ensures
        texts(final(out)@) == texts(old(out)@)
            + metric_lines_spec(prefix_str@, metric_name@, MetricValue::Gauge(*value), ts as nat),
{
    push_line(out, prefix_str, metric_name, "", value, ts_text);
    proof { reveal_strlit(""); }
    assert(texts(final(out)@) =~= texts(old(out)@)
        + metric_lines_spec(prefix_str@, metric_name@, MetricValue::Gauge(*value), ts as nat));
}

fn send_meter_metric(metric_name: &String, meter: &MeterSnapshot, out: &mut Vec<String>, prefix_str: &str, ts: u64, ts_text: &String)
    requires
        ts_text@ == decimal(ts as nat),
    ensures
        texts(final(out)@) == texts(old(out)@)
            + metric_lines_spec(prefix_str@, metric_name@, MetricValue::Meter(*meter), ts as nat),
{
    let count = decimal_i64(meter.count);
    push_line(out, prefix_str, metric_name, ".count", &count, ts_text);
    push_line(out, prefix_str, metric_name, ".m1", &meter.m1, ts_text);
    push_line(out, prefix_str, metric_name, ".m5", &meter.m5, ts_text);
    push_line(out, prefix_str, metric_name, ".m15", &meter.m15, ts_text);
    push_line(out, prefix_str, metric_name, ".mean", &meter.mean, ts_text);
    assert(texts(final(out)@) =~= texts(old(out)@)
        + metric_lines_spec(prefix_str@, metric_name@, MetricValue::Meter(*meter), ts as nat));
}

fn send_histogram_metric(metric_name: &String, h: &HistogramSnapshot, out: &mut Vec<String>, prefix_str: &str, ts: u64, ts_text: &String)
    requires
        ts_text@ == decimal(ts as nat),
    ensures
        texts(final(out)@) == texts(old(out)@)
            + metric_lines_spec(prefix_str@, metric_name@, MetricValue::Histogram(*h), ts as nat),
{
    push_line(out, prefix_str, metric_name, ".count", &decimal_u64(h.count), ts_text);
    push_line(out, prefix_str, metric_name, ".max", &decimal_u64(h.max), ts_text);
    push_line(out, prefix_str, metric_name, ".min", &decimal_u64(h.min), ts_text);
    push_line(out, prefix_str, metric_name, ".p50", &decimal_u64(h.p50), ts_text);
    push_line(out, prefix_str, metric_name, ".p75", &decimal_u64(h.p75), ts_text);
    push_line(out, prefix_str, metric_name, ".p95", &decimal_u64(h.p95), ts_text);
    push_line(out, prefix_str, metric_name, ".p98", &decimal_u64(h.p98), ts_text);
    push_line(out, prefix_str, metric_name, ".p99", &decimal_u64(h.p99), ts_text);
    push_line(out, prefix_str, metric_name, ".p999", &decimal_u64(h.p999), ts_text);
    push_line(out, prefix_str, metric_name, ".p9999", &decimal_u64(h.p9999), ts_text);
    push_line(out, prefix_str, metric_name, ".p99999", &decimal_u64(h.p99999), ts_text);
    assert(texts(final(out)@) =~= texts(old(out)@)
        + metric_lines_spec(prefix_str@, metric_name@, MetricValue::Histogram(*h), ts as nat));
}

/// Appends to `out` the protocol lines of one metric, stamped with `ts`.
pub fn metric_lines(metric_name: &String, value: &MetricValue, out: &mut Vec<String>, prefix_str: &str, ts: u64)
    ensures
        texts(final(out)@) == texts(old(out)@) + metric_lines_spec(prefix_str@, metric_name@, *value, ts as nat),
{
    let ts_text = decimal_u64(ts);
    match value {
        MetricValue::Counter(c) => send_counter_metric(metric_name, *c, out, prefix_str, ts, &ts_text),
        MetricValue::Gauge(g) => send_gauge_metric(metric_name, g, out, prefix_str, ts, &ts_text),
        MetricValue::Meter(m) => send_meter_metric(metric_name, m, out, prefix_str, ts, &ts_text),
        MetricValue::Histogram(h) => send_histogram_metric(metric_name, h, out, prefix_str, ts, &ts_text),
    }
}

/// Formats one reporting cycle: the lines of every snapshot, in order, all
/// stamped with the one timestamp `ts` captured for the cycle.
pub fn cycle_lines(snapshots: &Vec<(String, MetricValue)>, prefix_str: &str, ts: u64) -> (r: Vec<String>)
    ensures
        texts(r@) == cycle_lines_spec(prefix_str@, snapshot_view(snapshots@), ts as nat),
{
    let mut out: Vec<String> = Vec::new();
    let mut i: usize = 0;
    while i < snapshots.len()
        invariant
            i <= snapshots@.len(),
            texts(out@) == cycle_lines_spec(prefix_str@, snapshot_view(snapshots@).take(i as int), ts as nat),
        decreases snapshots@.len() - i,
    {
        let (name, value) = &snapshots[i];
        metric_lines(name, value, &mut out, prefix_str, ts);
        assert(snapshot_view(snapshots@).take(i + 1).drop_last() =~= snapshot_view(snapshots@).take(i as int));
        i = i + 1;
    }
    assert(snapshot_view(snapshots@).take(i as int) =~= snapshot_view(snapshots@));
    out
}

/// The names of a list of snapshots as text, with their values.
pub open spec fn snapshot_view(v: Seq<(String, MetricValue)>) -> Seq<(Seq<char>, MetricValue)> {
    v.map_values(|p: (String, MetricValue)| (p.0@, p.1))
}

/// The snapshots are, in order and name for name, ones that the entries'
/// metrics may export.
pub open spec fn exported_from<M: Snaphot>(snaps: Seq<(Seq<char>, MetricValue)>, es: Seq<(Seq<char>, M)>) -> bool {
    &&& snaps.len() == es.len()
    &&& forall|i: int| 0 <= i < es.len() ==> #[trigger] snaps[i].0 == es[i].0 && es[i].1.may_export(snaps[i].1)
}

/// Exports every registered metric, in registration order, each under its name.
pub fn export_all<M: Snaphot>(registry: &StdRegistry<M>) -> (r: Vec<(String, MetricValue)>)
    requires
        registry.wf(),
    ensures
        exported_from(snapshot_view(r@), registry.entries()),
{
    let names = registry.list_names();
    let mut out: Vec<(String, MetricValue)> = Vec::new();
    let mut i: usize = 0;
    while i < names.len()
        invariant
            registry.wf(),
            i <= names@.len(),
            names@.len() == registry.entries().len(),
            names@.map_values(|s: String| s@) == names_of(registry.entries()),
            out@.len() == i,
            forall|k: int| 0 <= k < i ==> snapshot_view(out@)[k].0 == registry.entries()[k].0
                && registry.entries()[k].1.may_export(snapshot_view(out@)[k].1),
        decreases names@.len() - i,
    {
        let name = &names[i];
        assert(names_of(registry.entries())[i as int] == name@);
        assert(registry.entries()[i as int].0 == name@);
        if let Ok(metric) = registry.get(name) {
            let v = metric.export_metric();
            assert(registry.entries()[i as int].1 == *metric);
            let ghost before = out@;
            out.push((name.clone(), v));
            assert forall|k: int| 0 <= k <= i implies snapshot_view(out@)[k].0 == registry.entries()[k].0
                && registry.entries()[k].1.may_export(snapshot_view(out@)[k].1) by {
                if k < i {
                    assert(out@[k] == before[k]);
                    assert(snapshot_view(out@)[k] == snapshot_view(before)[k]);
                }
            }
        }
        i = i + 1;
    }
    out
}

/// A cycle over a single counter is one line, `<prefix>.<name> <value> <ts>`
/// and a newline, stamped with the cycle's timestamp.
pub proof fn lemma_single_counter_cycle(prefix_str: Seq<char>, name: Seq<char>, v: i64, ts: nat)
    ensures
        cycle_lines_spec(prefix_str, seq![(name, MetricValue::Counter(v))], ts) == seq![
            prefix_str + seq!['.'] + name + seq![' '] + signed_decimal(v as int) + seq![' '] + decimal(ts) + seq!['\n'],
        ],
{
    let snaps = seq![(name, MetricValue::Counter(v))];
    assert(snaps.drop_last() =~= Seq::<(Seq<char>, MetricValue)>::empty());
    assert(name + Seq::<char>::empty() =~= name);
    assert(cycle_lines_spec(prefix_str, snaps.drop_last(), ts) == Seq::<Seq<char>>::empty());
    let ml = metric_lines_spec(prefix_str, name, MetricValue::Counter(v), ts);
    assert(ml.len() == 1);
    assert(ml[0] == carbon_line(prefixed(prefix_str, name), signed_decimal(v as int), ts));
    assert(carbon_line(prefixed(prefix_str, name), signed_decimal(v as int), ts)
        =~= prefix_str + seq!['.'] + name + seq![' '] + signed_decimal(v as int) + seq![' '] + decimal(ts) + seq!['\n']);
    assert(cycle_lines_spec(prefix_str, snaps, ts) == Seq::<Seq<char>>::empty() + ml);
    assert(cycle_lines_spec(prefix_str, snaps, ts) =~= seq![
        prefix_str + seq!['.'] + name + seq![' '] + signed_decimal(v as int) + seq![' '] + decimal(ts) + seq!['\n'],
    ]);
}

/// A name that was never registered names none of a cycle's snapshots, so no
/// cycle reports it, with a default value or otherwise.
pub proof fn lemma_unregistered_not_reported<M: Snaphot>(
    snaps: Seq<(Seq<char>, MetricValue)>,
    es: Seq<(Seq<char>, M)>,
    n: Seq<char>,
)
    requires
        exported_from(snaps, es),
        !names_of(es).contains(n),
    ensures
        !names_of(snaps).contains(n),
{
    if names_of(snaps).contains(n) {
        let k = choose|k: int| 0 <= k < names_of(snaps).len() && names_of(snaps)[k] == n;
        assert(snaps[k].0 == es[k].0);
        assert(names_of(es)[k] == n);
    }
}

/// Metrics registered under pairwise distinct names are reported, in each
/// cycle, once each and in registration order.
pub proof fn lemma_cycle_follows_registration<M: Snaphot>(
    snaps: Seq<(Seq<char>, MetricValue)>,
    ns: Seq<Seq<char>>,
    ms: Seq<M>,
)
    requires
        ns.len() == ms.len(),
        ns.no_duplicates(),
        exported_from(snaps, inserted_all(Seq::<(Seq<char>, M)>::empty(), ns, ms)),
    ensures
        names_of(snaps) == ns,
{
    let es = inserted_all(Seq::<(Seq<char>, M)>::empty(), ns, ms);
    lemma_distinct_inserts_keep_order(ns, ms);
    assert forall|i: int| 0 <= i < snaps.len() implies names_of(snaps)[i] == ns[i] by {
        assert(snaps[i].0 == es[i].0);
        assert(names_of(es)[i] == ns[i]);
    }
    assert(names_of(snaps) =~= ns);
}

/// After a counter is registered under a name already taken, a cycle reports
/// that name with the new counter's value, never the old one's.
pub proof fn lemma_cycle_reports_overwriting_counter(
    snaps: Seq<(Seq<char>, MetricValue)>,
    es: Seq<(Seq<char>, StdCounter)>,
    n: Seq<char>,
    first: StdCounter,
    second: StdCounter,
)
    requires
        exported_from(snaps, inserted(inserted(es, n, first), n, second)),
    ensures
        names_of(snaps).contains(n),
        forall|i: int| 0 <= i < snaps.len() && #[trigger] snaps[i].0 == n ==> snaps[i].1 == counter_snapshot(second),
{
    let twice = inserted(inserted(es, n, first), n, second);
    lemma_reinsert_overwrites(es, n, first, second);
    let k = choose|k: int| 0 <= k < names_of(twice).len() && names_of(twice)[k] == n;
    assert(snaps[k].0 == twice[k].0);
    assert(names_of(snaps)[k] == n);
    assert forall|i: int| 0 <= i < snaps.len() && #[trigger] snaps[i].0 == n implies snaps[i].1 == counter_snapshot(second) by {
        assert(snaps[i].0 == twice[i].0);
        assert(twice[i].1.may_export(snaps[i].1));
    }
}

/// A counter started at zero and incremented `n` times, reported alone, gives
/// the single line `<prefix>.<name> <n> <ts>` and a newline.
pub proof fn lemma_counted_cycle_line(prefix_str: Seq<char>, name: Seq<char>, n: nat, ts: nat)
    requires
        n <= i64::MAX,
    ensures
        cycle_lines_spec(
            prefix_str,
            seq![(name, counter_snapshot(incremented_times(StdCounter { value: 0 }, n)))],
            ts,
        ) == seq![
            prefix_str + seq!['.'] + name + seq![' '] + decimal(n) + seq![' '] + decimal(ts) + seq!['\n'],
        ],
{
    lemma_counter_counts_increments(n);
    lemma_single_counter_cycle(prefix_str, name, n as i64, ts);
}

/// A cycle over a registry that holds one counter is one line, carrying that
/// counter's value.
pub proof fn lemma_one_counter_report(
    snaps: Seq<(Seq<char>, MetricValue)>,
    prefix_str: Seq<char>,
    name: Seq<char>,
    c: StdCounter,
    ts: nat,
)
    requires
        exported_from(snaps, seq![(name, c)]),
    ensures
        cycle_lines_spec(prefix_str, snaps, ts) == seq![
            prefix_str + seq!['.'] + name + seq![' '] + signed_decimal(c.value as int) + seq![' '] + decimal(ts) + seq!['\n'],
        ],
{
    let es = seq![(name, c)];
    assert(snaps[0].0 == es[0].0 && es[0].1.may_export(snaps[0].1));
    assert(snaps =~= seq![(name, MetricValue::Counter(c.value))]);
    lemma_single_counter_cycle(prefix_str, name, c.value, ts);
}

/// The fixed wait before each reconnection attempt, in milliseconds.
pub const RECONNECT_DELAY_MS: u64 = 123;

/// What the stream's driver must do next.
pub enum StreamAction {
    /// Open a connection to the endpoint now.
    Connect,
    /// Wait this many milliseconds, then open a connection.
    WaitThenConnect(u64),
    /// Write this line on the open connection.
    Send(String),
    /// Nothing is left to do.
    Idle,
}

/// What happened when the driver carried out an action.
pub enum StreamEvent {
    Connected,
    ConnectFailed,
    Sent,
    SendFailed,
}

/// The next state (connected, line awaiting delivery) and action after an event.
/// A failed connection or write leaves the stream disconnected and asks for a
/// reconnection after the fixed delay; the undelivered line is kept and sent
/// as soon as a connection is made. There is no limit on the attempts.
pub open spec fn stream_step(connected: bool, pending: Option<String>, e: StreamEvent) -> (bool, Option<String>, StreamAction) {
    match e {
        StreamEvent::Connected => (true, pending, match pending {
            Some(l) => StreamAction::Send(l),
            None => StreamAction::Idle,
        }),
        StreamEvent::ConnectFailed => (false, pending, StreamAction::WaitThenConnect(RECONNECT_DELAY_MS)),
        StreamEvent::Sent => (connected, None, StreamAction::Idle),
        StreamEvent::SendFailed => (false, pending, StreamAction::WaitThenConnect(RECONNECT_DELAY_MS)),
    }
}

/// The state and action after a line is handed to the stream: it is sent at
/// once on an open connection, otherwise after a reconnection.
pub open spec fn stream_write(connected: bool, line: String) -> (bool, Option<String>, StreamAction) {
    (connected, Some(line), if connected {
        StreamAction::Send(line)
    } else {
        StreamAction::WaitThenConnect(RECONNECT_DELAY_MS)
    })
}

/// The connection state of the outbound stream of a push reporter. The
/// driver owns the socket; this type decides what it does.
pub struct CarbonStream {
    host_and_port: String,
    connected: bool,
    pending: Option<String>,
}

impl CarbonStream {
    /// The endpoint the stream connects to.
    pub closed spec fn endpoint(&self) -> Seq<char> {
        self.host_and_port@
    }

    /// Whether a connection is open.
    pub closed spec fn is_connected(&self) -> bool {
        self.connected
    }

    /// The line awaiting delivery, if any.
    pub closed spec fn pending(&self) -> Option<String> {
        self.pending
    }

    /// A disconnected stream to `host_and_port` with nothing to deliver.
    pub fn new(host_and_port: String) -> (r: CarbonStream)
        ensures
            r.endpoint() == host_and_port@,
            !r.is_connected(),
            r.pending() is None,
    {
        CarbonStream { host_and_port, connected: false, pending: None }
    }

    /// The endpoint the stream connects to.
    pub fn host_and_port(&self) -> (r: &str)
        ensures
            r@ == self.endpoint(),
    {
        self.host_and_port.as_str()
    }

    /// Whether a connection is open.
    pub fn connected(&self) -> (r: bool)
        ensures
            r == self.is_connected(),
    {
        self.connected
    }

    /// Asks for an immediate connection attempt; the state is unchanged until
    /// its outcome is reported.
    pub fn connect(&mut self) -> (r: StreamAction)
        ensures
            r == StreamAction::Connect,
            *final(self) == *old(self),
    {
        StreamAction::Connect
    }

    /// Hands a line to the stream for delivery.
    pub fn write(&mut self, line: String) -> (r: StreamAction)
        ensures
            final(self).endpoint() == old(self).endpoint(),
            (final(self).is_connected(), final(self).pending(), r)
                == stream_write(old(self).is_connected(), line),
    {
        let copy = line.clone();
        self.pending = Some(line);
        if self.connected {
            StreamAction::Send(copy)
        } else {
            StreamAction::WaitThenConnect(RECONNECT_DELAY_MS)
        }
    }

    /// Takes the outcome of the last action and says what to do next.
    pub fn on_event(&mut self, e: StreamEvent) -> (r: StreamAction)
        ensures
            final(self).endpoint() == old(self).endpoint(),
            (final(self).is_connected(), final(self).pending(), r)
                == stream_step(old(self).is_connected(), old(self).pending(), e),
    {
        match e {
            StreamEvent::Connected => {
                self.connected = true;
                match &self.pending {
                    Some(l) => StreamAction::Send(l.clone()),
                    None => StreamAction::Idle,
                }
            },
            StreamEvent::ConnectFailed => {
                self.connected = false;
                StreamAction::WaitThenConnect(RECONNECT_DELAY_MS)
            },
            StreamEvent::Sent => {
                self.pending = None;
                StreamAction::Idle
            },
            StreamEvent::SendFailed => {
                self.connected = false;
                StreamAction::WaitThenConnect(RECONNECT_DELAY_MS)
            },
        }
    }
}

/// A line whose write fails on an open connection is not lost: the stream asks
/// for one fixed reconnection wait, and the first successful connection after
/// it sends that same line. Each further failed attempt asks for the same wait
/// again and still keeps the line.
pub proof fn lemma_write_failure_recovers(line: String)
    ensures
        stream_step(true, Some(line), StreamEvent::SendFailed)
            == (false, Some(line), StreamAction::WaitThenConnect(RECONNECT_DELAY_MS)),
        stream_step(false, Some(line), StreamEvent::Connected)
            == (true, Some(line), StreamAction::Send(line)),
        stream_step(false, Some(line), StreamEvent::ConnectFailed)
            == (false, Some(line), StreamAction::WaitThenConnect(RECONNECT_DELAY_MS)),
        stream_step(true, Some(line), StreamEvent::Sent) == (true, None::<String>, StreamAction::Idle),
{
}

/// A push reporter: its endpoint, the namespace of its metric paths, the
/// registry it reports and its identity.
pub struct CarbonReporter<M> {
    host_and_port: String,
    prefix: &'static str,
    registry: Arc<StdRegistry<M>>,
    reporter_name: &'static str,
}

impl<M> CarbonReporter<M> {
    /// The reported registry is well formed.
    pub closed spec fn wf(&self) -> bool {
        self.registry.wf()
    }

    /// The entries of the reported registry.
    pub closed spec fn entries(&self) -> Seq<(Seq<char>, M)> {
        self.registry.entries()
    }

    /// The namespace of the reported metric paths.
    pub closed spec fn prefix_text(&self) -> Seq<char> {
        self.prefix@
    }

    /// The endpoint that lines are pushed to.
    pub closed spec fn endpoint(&self) -> Seq<char> {
        self.host_and_port@
    }

    pub fn new(
        registry: Arc<StdRegistry<M>>,
        reporter_name: &'static str,
        host_and_port: String,
        prefix: &'static str,
    ) -> (r: CarbonReporter<M>)
        requires
            registry.wf(),
        ensures
            r.wf(),
            r.entries() == registry.entries(),
            r.prefix_text() == prefix@,
            r.endpoint() == host_and_port@,
            r.name_text() == reporter_name@,
    {
        CarbonReporter { host_and_port, prefix, registry, reporter_name }
    }

    /// A fresh, disconnected stream to this reporter's endpoint.
    pub fn stream(&self) -> (r: CarbonStream)
        ensures
            r.endpoint() == self.endpoint(),
            !r.is_connected(),
            r.pending() is None,
    {
        CarbonStream::new(self.host_and_port.clone())
    }
}

impl<M: Snaphot> CarbonReporter<M> {
    /// The lines of one reporting cycle stamped with `ts`: every registered
    /// metric, in registration order, exported once and formatted under this
    /// reporter's prefix.
    pub fn report_cycle(&self, ts: u64) -> (r: Vec<String>)
        requires
            self.wf(),
        ensures
            exists|snaps: Seq<(Seq<char>, MetricValue)>|
                exported_from(snaps, self.entries())
                    && texts(r@) == cycle_lines_spec(self.prefix_text(), snaps, ts as nat),
    {
        let snaps = export_all(&*self.registry);
        let r = cycle_lines(&snaps, self.prefix, ts);
        assert(exported_from(snapshot_view(snaps@), self.entries()));
        r
    }
}

impl<M> Reporter for CarbonReporter<M> {
    closed spec fn name_text(&self) -> Seq<char> {
        self.reporter_name@
    }

    fn get_unique_reporter_name(&self) -> (r: &'static str) {
        self.reporter_name
    }
}

} // verus!