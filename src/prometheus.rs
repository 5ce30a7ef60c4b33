//! The pull (Prometheus-style) reporter: the response to a scrape request.

use vstd::prelude::*;

use crate::registry::{names_of, StdRegistry};
use crate::reporter::Reporter;
use std::sync::Arc;
use vstd::utf8::encode_utf8;

verus! {

/// The base-128 varint encoding of `n`: seven bits per byte, least
/// significant group first, the high bit set on every byte but the last.
pub open spec fn varint(n: nat) -> Seq<u8>
    decreases n,
{
    if n < 128 {
        seq![n as u8]
    } else {
        seq![(n % 128 + 128) as u8] + varint(n / 128)
    }
}

/// A length-delimited field: its tag byte (field number and wire type 2),
/// the length of `body` as a varint, then `body`.
pub open spec fn field(tag: u8, body: Seq<u8>) -> Seq<u8> {
    seq![tag] + varint(body.len()) + body
}

/// A `Metric` message (field 4 of a metric family, tag `0x22`) that names one
/// registered metric: one label pair (field 1) whose name (field 1) is
/// `metric` and whose value (field 2) is the metric's name.
pub open spec fn metric_entry(name: Seq<char>) -> Seq<u8> {
    field(0x22, field(0x0a, field(0x0a, encode_utf8("metric"@)) + field(0x12, encode_utf8(name))))
}

/// The metric entries of the given names, in order.
pub open spec fn metric_entries(names: Seq<Seq<char>>) -> Seq<u8>
    decreases names.len(),
{
    if names.len() == 0 {
        Seq::empty()
    } else {
        metric_entries(names.drop_last()) + metric_entry(names.last())
    }
}

/// The payload of a scrape: one metric family message, named by the prefix
/// (field 1, tag `0x0a`), with one entry per registered metric, in order.
/// Snapshot values are floating point in this format and are not carried;
/// the family enumerates the whole registry.
pub open spec fn payload(prefix_str: Seq<char>, names: Seq<Seq<char>>) -> Seq<u8> {
    field(0x0a, encode_utf8(prefix_str)) + metric_entries(names)
}

/// Appends the varint encoding of `n`.
pub fn push_varint(out: &mut Vec<u8>, n: u64)
    ensures
        final(out)@ == old(out)@ + varint(n as nat),
    decreases n,
{
    if n < 128 {
        out.push(n as u8);
        assert(final(out)@ =~= old(out)@ + varint(n as nat));
    } else {
        out.push((n % 128 + 128) as u8);
        push_varint(out, n / 128);
        assert(final(out)@ =~= old(out)@ + varint(n as nat));
    }
}

fn push_bytes(out: &mut Vec<u8>, bytes: &[u8])
    ensures
        final(out)@ == old(out)@ + bytes@,
{
    let mut i: usize = 0;
    while i < bytes.len()
        invariant
            i <= bytes@.len(),
            out@ == old(out)@ + bytes@.take(i as int),
        decreases bytes@.len() - i,
    {
        out.push(bytes[i]);
        assert(bytes@.take(i + 1) =~= bytes@.take(i as int).push(bytes@[i as int]));
        i = i + 1;
    }
    assert(bytes@.take(i as int) =~= bytes@);
}

fn push_field(out: &mut Vec<u8>, tag: u8, body: &[u8])
    ensures
        final(out)@ == old(out)@ + field(tag, body@),
{
    out.push(tag);
    push_varint(out, body.len() as u64);
    push_bytes(out, body);
    assert(final(out)@ =~= old(out)@ + field(tag, body@));
}

/// Appends the metric entry that names `name`.
pub fn encode_metric_entry(name: &str, out: &mut Vec<u8>)
    ensures
        final(out)@ == old(out)@ + metric_entry(name@),
{
    let mut label: Vec<u8> = Vec::new();
    push_field(&mut label, 0x0a, "metric".as_bytes());
    push_field(&mut label, 0x12, name.as_bytes());
    let mut metric: Vec<u8> = Vec::new();
    push_field(&mut metric, 0x0a, label.as_slice());
    push_field(out, 0x22, metric.as_slice());
    assert(label@ =~= field(0x0a, encode_utf8("metric"@)) + field(0x12, encode_utf8(name@)));
}

/// Serialises the registry as one metric family named by the prefix, with an
/// entry for every registered metric in registration order.
pub fn ser_to_pb<M>(registry: &StdRegistry<M>, prefix_str: &str) -> (r: Vec<u8>)
    requires
        registry.wf(),
    ensures
        r@ == payload(prefix_str@, names_of(registry.entries())),
        r@.len() >= 2,
{
    let names = registry.list_names();
    let ghost ns = names_of(registry.entries());
    let mut body: Vec<u8> = Vec::new();
    push_field(&mut body, 0x0a, prefix_str.as_bytes());
    let ghost head = body@;
    let mut i: usize = 0;
    while i < names.len()
        invariant
            i <= names@.len(),
            names@.map_values(|s: String| s@) == ns,
            names@.len() == ns.len(),
            head == field(0x0a, encode_utf8(prefix_str@)),
            body@ == head + metric_entries(ns.take(i as int)),
        decreases names@.len() - i,
    {
        assert(ns.take(i + 1).drop_last() =~= ns.take(i as int));
        assert(ns.take(i + 1).last() == names@[i as int]@);
        encode_metric_entry(names[i].as_str(), &mut body);
        assert(body@ =~= head + metric_entries(ns.take(i + 1)));
        i = i + 1;
    }
    assert(ns.take(i as int) =~= ns);
    body
}

/// An HTTP response: its status code and body.
pub struct PullResponse {
    pub status: u16,
    pub body: Vec<u8>,
}

/// A pull reporter: its bind address, the namespace of its metric names, the
/// registry it serves and its identity.
pub struct PrometheusReporter<M> {
    host_and_port: &'static str,
    prefix: &'static str,
    registry: Arc<StdRegistry<M>>,
    reporter_name: &'static str,
}

impl<M> PrometheusReporter<M> {
    /// The served registry is well formed.
    pub closed spec fn wf(&self) -> bool {
        self.registry.wf()
    }

    /// The entries of the served registry.
    pub closed spec fn entries(&self) -> Seq<(Seq<char>, M)> {
        self.registry.entries()
    }

    /// The namespace of the served metric names.
    pub closed spec fn prefix_text(&self) -> Seq<char> {
        self.prefix@
    }

    /// The address the reporter listens on.
    pub closed spec fn endpoint(&self) -> Seq<char> {
        self.host_and_port@
    }

    pub fn new(
        registry: Arc<StdRegistry<M>>,
        reporter_name: &'static str,
        host_and_port: &'static str,
        prefix: &'static str,
    ) -> (r: PrometheusReporter<M>)
        requires
            registry.wf(),
        ensures
            r.wf(),
            r.entries() == registry.entries(),
            r.prefix_text() == prefix@,
            r.endpoint() == host_and_port@,
            r.name_text() == reporter_name@,
    {
        PrometheusReporter { host_and_port, prefix, registry, reporter_name }
    }

    /// The address the reporter listens on.
    pub fn host_and_port(&self) -> (r: &'static str)
        ensures
            r@ == self.endpoint(),
    {
        self.host_and_port
    }

    /// Answers one scrape request with a fresh snapshot of the registry.
    pub fn scrape(&self) -> (r: PullResponse)
        requires
            self.wf(),
        ensures
            r.status == 200,
            r.body@ == payload(self.prefix_text(), names_of(self.entries())),
            r.body@.len() >= 2,
    {
        PullResponse { status: 200, body: ser_to_pb(&*self.registry, self.prefix) }
    }
}

impl<M> Reporter for PrometheusReporter<M> {
    closed spec fn name_text(&self) -> Seq<char> {
        self.reporter_name@
    }

    fn get_unique_reporter_name(&self) -> (r: &'static str) {
        self.reporter_name
    }
}

} // verus!
