use metrics_core::metric::StdCounter;
use metrics_core::prometheus::{encode_metric_entry, push_varint, ser_to_pb, PrometheusReporter};
use metrics_core::registry::StdRegistry;
use metrics_core::reporter::Reporter;
use std::sync::Arc;

enum Kind {
    Meter,
    Counter(StdCounter),
    Gauge(f64),
    Histogram,
}

fn label_entry(name: &[u8]) -> Vec<u8> {
    let mut label = vec![0x0a, 6];
    label.extend_from_slice(b"metric");
    label.push(0x12);
    label.push(name.len() as u8);
    label.extend_from_slice(name);
    let mut metric = vec![0x0a, label.len() as u8];
    metric.extend(label);
    let mut entry = vec![0x22, metric.len() as u8];
    entry.extend(metric);
    entry
}

#[test]
fn add_some_stats_and_slurp_them_with_http() {
    let mut c = StdCounter::new();
    c.inc();
    let mut r = StdRegistry::new();
    r.insert("meter1".to_string(), Kind::Meter);
    r.insert("counter1".to_string(), Kind::Counter(c));
    r.insert("gauge1".to_string(), Kind::Gauge(1.2));
    r.insert("histogram".to_string(), Kind::Histogram);
    let arc_registry = Arc::new(r);
    let reporter = PrometheusReporter::new(arc_registry.clone(), "test", "0.0.0.0:8080", "asd.asdf");
    assert_eq!(reporter.get_unique_reporter_name(), "test");
    assert_eq!(reporter.host_and_port(), "0.0.0.0:8080");
    let res = reporter.scrape();
    assert_eq!(res.status, 200);
    let mut expected = vec![0x0a, 8];
    expected.extend_from_slice(b"asd.asdf");
    for name in ["meter1", "counter1", "gauge1", "histogram"] {
        expected.extend(label_entry(name.as_bytes()));
    }
    assert_eq!(res.body, expected);
}

#[test]
fn payload_is_one_family_named_by_the_prefix() {
    let mut r = StdRegistry::new();
    r.insert("c".to_string(), StdCounter::new());
    r.insert("dd".to_string(), StdCounter::new());
    let body = ser_to_pb(&r, "p");
    let mut expected = vec![0x0a, 1, b'p'];
    expected.extend_from_slice(&[0x22, 13, 0x0a, 11, 0x0a, 6]);
    expected.extend_from_slice(b"metric");
    expected.extend_from_slice(&[0x12, 1, b'c']);
    expected.extend(label_entry(b"dd"));
    assert_eq!(body, expected);
}

#[test]
fn scrape_of_empty_registry_is_a_named_empty_family() {
    let r: StdRegistry<StdCounter> = StdRegistry::new();
    let reporter = PrometheusReporter::new(Arc::new(r), "pull", "127.0.0.1:0", "app");
    let res = reporter.scrape();
    assert_eq!(res.status, 200);
    assert_eq!(res.body, vec![0x0a, 3, b'a', b'p', b'p']);
}

#[test]
fn varints_use_seven_bits_per_byte() {
    let mut out = Vec::new();
    push_varint(&mut out, 0);
    push_varint(&mut out, 127);
    push_varint(&mut out, 128);
    push_varint(&mut out, 300);
    assert_eq!(out, vec![0, 127, 0x80, 1, 0xac, 2]);
}

#[test]
fn long_names_get_multi_byte_lengths() {
    let name = "n".repeat(200);
    let mut out = Vec::new();
    encode_metric_entry(&name, &mut out);
    assert_eq!(&out[..8], &[0x22, 0xd6, 0x01, 0x0a, 0xd3, 0x01, 0x0a, 6]);
    assert_eq!(out.len(), 217);
}

#[test]
fn non_ascii_names_are_utf8_encoded() {
    let mut out = Vec::new();
    encode_metric_entry("é", &mut out);
    let mut expected = vec![0x22, 14, 0x0a, 12, 0x0a, 6];
    expected.extend_from_slice(b"metric");
    expected.extend_from_slice(&[0x12, 2, 0xc3, 0xa9]);
    assert_eq!(out, expected);
}
