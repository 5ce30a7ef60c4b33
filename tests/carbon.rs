use metrics_core::carbon::{
    cycle_lines, export_all, metric_lines, prefix, unix_millis, CarbonReporter, CarbonStream,
    StreamAction, StreamEvent, RECONNECT_DELAY_MS,
};
use metrics_core::format::{decimal_i64, decimal_u64};
use metrics_core::metric::{HistogramSnapshot, MeterSnapshot, MetricValue, Snaphot, StdCounter};
use metrics_core::registry::StdRegistry;
use metrics_core::reporter::Reporter;
use std::sync::Arc;

enum TestMetric {
    Counter(StdCounter),
    Gauge(f64),
    Meter(i64, [f64; 3], f64),
    Histogram(histogram::Histogram),
}

fn histogram_snapshot(h: &histogram::Histogram) -> HistogramSnapshot {
    #[allow(deprecated)]
    let at = |p: f64| h.percentile(p / 100.0).unwrap().map(|b| b.end()).unwrap_or(0);
    HistogramSnapshot {
        count: h.as_slice().iter().sum(),
        max: at(100.0),
        min: at(0.0),
        p50: at(50.0),
        p75: at(75.0),
        p95: at(95.0),
        p98: at(98.0),
        p99: at(99.0),
        p999: at(99.9),
        p9999: at(99.99),
        p99999: at(99.999),
    }
}

impl Snaphot for TestMetric {
    fn may_export(&self, v: MetricValue) -> bool {
        matches!(
            (self, v),
            (TestMetric::Counter(_), MetricValue::Counter(_))
                | (TestMetric::Gauge(_), MetricValue::Gauge(_))
                | (TestMetric::Meter(..), MetricValue::Meter(_))
                | (TestMetric::Histogram(_), MetricValue::Histogram(_))
        )
    }

    fn export_metric(&self) -> MetricValue {
        match self {
            TestMetric::Counter(c) => c.export_metric(),
            TestMetric::Gauge(g) => MetricValue::Gauge(g.to_string()),
            TestMetric::Meter(count, rates, mean) => MetricValue::Meter(MeterSnapshot {
                count: *count,
                m1: rates[0].to_string(),
                m5: rates[1].to_string(),
                m15: rates[2].to_string(),
                mean: mean.to_string(),
            }),
            TestMetric::Histogram(h) => MetricValue::Histogram(histogram_snapshot(h)),
        }
    }
}

#[test]
fn meter() {
    let mut c = StdCounter::new();
    c.inc();
    let mut h = histogram::Histogram::new(1, 7).unwrap();
    h.add(1, 1).unwrap();

    let mut r = StdRegistry::new();
    r.insert("meter1".to_string(), TestMetric::Meter(100, [0.0, 0.0, 0.0], 0.0));
    r.insert("counter1".to_string(), TestMetric::Counter(c));
    r.insert("gauge1".to_string(), TestMetric::Gauge(1.2));
    r.insert("histogram".to_string(), TestMetric::Histogram(h));

    let arc_registry = Arc::new(r);
    let reporter = CarbonReporter::new(arc_registry.clone(), "test", "localhost:0".to_string(), "asd.asdf");
    assert_eq!(reporter.get_unique_reporter_name(), "test");
    let lines = reporter.report_cycle(42);
    assert_eq!(lines.len(), 5 + 1 + 1 + 11);
    assert_eq!(lines[0], "asd.asdf.meter1.count 100 42\n");
    assert_eq!(lines[5], "asd.asdf.counter1 1 42\n");
    assert_eq!(lines[6], "asd.asdf.gauge1 1.2 42\n");
    assert_eq!(lines[7], "asd.asdf.histogram.count 1 42\n");
}

#[test]
fn one_counter_cycle_line() {
    let mut r = StdRegistry::new();
    r.insert("c".to_string(), StdCounter { value: 5 });
    let ts = unix_millis(1_700_000_000, 250_000_000);
    let lines = cycle_lines(&export_all(&r), "app", ts);
    assert_eq!(lines, vec!["app.c 5 1700000000250\n".to_string()]);
}

#[test]
fn empty_cycle_has_no_lines() {
    let r: StdRegistry<StdCounter> = StdRegistry::new();
    assert!(cycle_lines(&export_all(&r), "app", 7).is_empty());
}

#[test]
fn histogram_single_sample_extremes() {
    let mut h = histogram::Histogram::new(1, 7).unwrap();
    h.add(1, 1).unwrap();
    let s = histogram_snapshot(&h);
    assert_eq!(s.count, 1);
    assert_eq!(s.max, 1);
    assert_eq!(s.min, 1);
    let mut out = Vec::new();
    metric_lines(&"h".to_string(), &MetricValue::Histogram(s), &mut out, "p", 9);
    assert_eq!(out[1], "p.h.max 1 9\n");
    assert_eq!(out[2], "p.h.min 1 9\n");
}

#[test]
fn meter_lines_have_their_suffixes() {
    let m = MeterSnapshot {
        count: 3,
        m1: "0.5".to_string(),
        m5: "0.25".to_string(),
        m15: "0.125".to_string(),
        mean: "1.5".to_string(),
    };
    let mut out = Vec::new();
    metric_lines(&"req".to_string(), &MetricValue::Meter(m), &mut out, "svc", 1000);
    assert_eq!(
        out,
        vec![
            "svc.req.count 3 1000\n".to_string(),
            "svc.req.m1 0.5 1000\n".to_string(),
            "svc.req.m5 0.25 1000\n".to_string(),
            "svc.req.m15 0.125 1000\n".to_string(),
            "svc.req.mean 1.5 1000\n".to_string(),
        ]
    );
}

#[test]
fn histogram_lines_in_order() {
    let s = HistogramSnapshot {
        count: 10, max: 99, min: 2, p50: 50, p75: 75, p95: 95, p98: 98, p99: 99, p999: 99, p9999: 99, p99999: 99,
    };
    let mut out = Vec::new();
    metric_lines(&"lat".to_string(), &MetricValue::Histogram(s), &mut out, "a", 5);
    let suffixes = ["count", "max", "min", "p50", "p75", "p95", "p98", "p99", "p999", "p9999", "p99999"];
    assert_eq!(out.len(), suffixes.len());
    for (line, suffix) in out.iter().zip(suffixes.iter()) {
        assert!(line.starts_with(&format!("a.lat.{} ", suffix)), "{}", line);
    }
    assert_eq!(out[0], "a.lat.count 10 5\n");
    assert_eq!(out[3], "a.lat.p50 50 5\n");
}

#[test]
fn gauge_and_negative_counter_lines() {
    let mut out = Vec::new();
    metric_lines(&"g".to_string(), &MetricValue::Gauge("-0.75".to_string()), &mut out, "x", 0);
    metric_lines(&"c".to_string(), &MetricValue::Counter(-12), &mut out, "x", 0);
    assert_eq!(out, vec!["x.g -0.75 0\n".to_string(), "x.c -12 0\n".to_string()]);
}

#[test]
fn prefix_joins_with_a_dot() {
    assert_eq!(prefix("name.count".to_string(), "asd.asdf"), "asd.asdf.name.count");
    assert_eq!(prefix(String::new(), "p"), "p.");
}

#[test]
fn decimal_rendering() {
    assert_eq!(decimal_u64(0), "0");
    assert_eq!(decimal_u64(9), "9");
    assert_eq!(decimal_u64(10), "10");
    assert_eq!(decimal_u64(u64::MAX), u64::MAX.to_string());
    assert_eq!(decimal_i64(-1), "-1");
    assert_eq!(decimal_i64(i64::MIN), i64::MIN.to_string());
    assert_eq!(decimal_i64(i64::MAX), i64::MAX.to_string());
}

#[test]
fn millis_from_seconds_and_nanos() {
    assert_eq!(unix_millis(0, 0), 0);
    assert_eq!(unix_millis(1, 999_999_999), 1999);
    assert_eq!(unix_millis(2, 1_000_000), 2001);
}

#[test]
fn stream_connects_before_first_write() {
    let mut s = CarbonStream::new("localhost:2003".to_string());
    assert_eq!(s.host_and_port(), "localhost:2003");
    assert!(!s.connected());
    assert!(matches!(s.connect(), StreamAction::Connect));
    let a = s.write("a.b 1 2\n".to_string());
    assert!(matches!(a, StreamAction::WaitThenConnect(RECONNECT_DELAY_MS)));
    match s.on_event(StreamEvent::Connected) {
        StreamAction::Send(l) => assert_eq!(l, "a.b 1 2\n"),
        _ => panic!("expected a send"),
    }
    assert!(s.connected());
    assert!(matches!(s.on_event(StreamEvent::Sent), StreamAction::Idle));
    match s.write("next\n".to_string()) {
        StreamAction::Send(l) => assert_eq!(l, "next\n"),
        _ => panic!("expected a send"),
    }
}

#[test]
fn stream_recovers_after_write_failure() {
    let mut s = CarbonStream::new("h:1".to_string());
    s.on_event(StreamEvent::Connected);
    assert!(matches!(s.write("l1\n".to_string()), StreamAction::Send(_)));
    assert!(matches!(s.on_event(StreamEvent::SendFailed), StreamAction::WaitThenConnect(123)));
    assert!(!s.connected());
    assert!(matches!(s.on_event(StreamEvent::ConnectFailed), StreamAction::WaitThenConnect(123)));
    match s.on_event(StreamEvent::Connected) {
        StreamAction::Send(l) => assert_eq!(l, "l1\n"),
        _ => panic!("expected the same line again"),
    }
    assert!(matches!(s.on_event(StreamEvent::Sent), StreamAction::Idle));
    assert!(matches!(s.on_event(StreamEvent::Connected), StreamAction::Idle));
}
