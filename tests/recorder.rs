use std::time::Duration;

use otlp_metrics::json::{attr, decimal_text, length_text, metric_text, metrics_to_json, FloatText};
use otlp_metrics::metric::{Key, Label, MetricKind, MetricType};
use otlp_metrics::otlp_recorder::{bucket_bounds_text, split_at_commas, KindMismatch, OtlpRecorder};
use otlp_metrics::time::{current_time, set_time, Clock};
use otlp_metrics::transport::{host_text, request_head, TransportConfig};

struct Harness {
    rec: OtlpRecorder,
    clock: Clock,
}

fn key(name: &str, labels: &[(&str, &str)]) -> Key {
    Key::new(name, labels.iter().map(|(k, v)| Label::new(k, v)).collect())
}

fn float_texts(rec: &OtlpRecorder) -> Vec<FloatText> {
    rec.metrics
        .iter()
        .map(|(_, d)| match &d.metric_type {
            MetricType::Counter(_) => FloatText { value: String::new(), bounds: vec![] },
            MetricType::Gauge(g) => FloatText {
                value: json::stringify(f64::from_bits(g.value)),
                bounds: vec![],
            },
            MetricType::Histogram(h) => FloatText {
                value: json::stringify(f64::from_bits(h.sum)),
                bounds: h
                    .explicit_bounds
                    .iter()
                    .map(|b| json::stringify(f64::from_bits(*b)))
                    .collect(),
            },
        })
        .collect()
}

impl Harness {
    fn new(id: &str) -> Self {
        let mut clock = Clock::system();
        set_time(&mut clock, 1739394449205);
        Harness { rec: OtlpRecorder::new("otlp-metrics", "1", id), clock }
    }

    fn now(&mut self) -> u64 {
        current_time(&mut self.clock, 0)
    }

    fn counter(&mut self, name: &str, labels: &[(&str, &str)]) -> usize {
        match self.rec.find_metric(name) {
            Some(i) => i,
            None => {
                let now = self.now();
                self.rec.register_counter(&key(name, labels), now).unwrap()
            }
        }
    }

    fn gauge(&mut self, name: &str, labels: &[(&str, &str)]) -> usize {
        match self.rec.find_metric(name) {
            Some(i) => i,
            None => {
                let now = self.now();
                self.rec.register_gauge(&key(name, labels), now).unwrap()
            }
        }
    }

    fn histogram(&mut self, name: &str, labels: &[(&str, &str)]) -> usize {
        match self.rec.find_metric(name) {
            Some(i) => i,
            None => {
                let k = key(name, labels);
                let bounds: Vec<u64> = bucket_bounds_text(&k)
                    .unwrap_or_default()
                    .iter()
                    .map(|v| v.trim().parse::<f64>().unwrap().to_bits())
                    .collect();
                let now = self.now();
                self.rec.register_histogram(&k, bounds, now).unwrap()
            }
        }
    }

    fn increment(&mut self, id: usize, v: u64) {
        let now = self.now();
        self.rec.increment_counter(id, v, now);
    }

    fn set(&mut self, id: usize, v: f64) {
        let now = self.now();
        self.rec.set_gauge(id, v.to_bits(), now);
    }

    fn record(&mut self, id: usize, v: f64) {
        let sum = match &self.rec.metrics[id].1.metric_type {
            MetricType::Histogram(h) => f64::from_bits(h.sum) + v,
            _ => panic!("not a histogram"),
        };
        let now = self.now();
        self.rec.record_histogram(id, v.to_bits(), sum.to_bits(), now);
    }

    fn to_json(&mut self, window: Option<Duration>) -> String {
        let now = if window.is_some() { self.now() } else { 0 };
        let floats = float_texts(&self.rec);
        self.rec.to_json(window.map(|d| d.as_nanos() as u64), now, &floats)
    }
}

#[test]
fn test_recorder_to_json() {
    let mut h = Harness::new("test_recorder_to_json");
    for i in 1..3 {
        let c = h.counter("test_counter", &[("label1", "label_value1")]);
        h.increment(c, 1);
        let g = h.gauge("test_gauge", &[("label2", "label_value2")]);
        h.set(g, (i * 10) as f64);
        let t = h.histogram("test_histogram", &[("label3", "label_value3")]);
        h.record(t, (i * 10) as f64);
        let b = h.histogram("test_histogram_with_buckets", &[("buckets", "10,30")]);
        h.record(b, (i * 10) as f64);
    }

    assert_eq!(
        h.to_json(None),
        r#"{"resourceMetrics":[{"resource":{"attributes":[{"key":"service.name","value":{"stringValue":"otlp-metrics"}},{"key":"service.version","value":{"stringValue":"1"}},{"key":"service.instance.id","value":{"stringValue":"test_recorder_to_json"}}]},"scopeMetrics":[{"metrics":[{"name":"test_counter","unit":"1","description":"","sum":{"aggregationTemporality":2,"isMonotonic":true,"dataPoints":[{"asInt":2,"startTimeUnixNano":1739394449305000000,"timeUnixNano":1739394450105000000,"attributes":[{"key":"label1","value":{"stringValue":"label_value1"}}]}]}},{"name":"test_gauge","unit":"1","description":"","gauge":{"dataPoints":[{"asDouble":20,"startTimeUnixNano":1739394449505000000,"timeUnixNano":1739394450205000000,"attributes":[{"key":"label2","value":{"stringValue":"label_value2"}}]}]}},{"name":"test_histogram","unit":"1","description":"","histogram":{"aggregationTemporality":2,"dataPoints":[{"startTimeUnixNano":1739394449705000000,"timeUnixNano":1739394450305000000,"count":2,"sum":30,"attributes":[{"key":"label3","value":{"stringValue":"label_value3"}}],"bucketCounts":[],"explicitBounds":[]}]}},{"name":"test_histogram_with_buckets","unit":"1","description":"","histogram":{"aggregationTemporality":2,"dataPoints":[{"startTimeUnixNano":1739394449905000000,"timeUnixNano":1739394450405000000,"count":2,"sum":30,"attributes":[{"key":"buckets","value":{"stringValue":"10,30"}}],"bucketCounts":[1,1,0],"explicitBounds":[10,30]}]}}]}]}]}"#,
    );
}

#[test]
fn test_recorder_with_descriptions_and_units() {
    let mut h = Harness::new("test_recorder_with_descriptions_and_units");
    h.rec.describe_counter(
        "bytes_total",
        Some(metrics::Unit::Bytes.as_canonical_label().to_string()),
        "Counter for bytes",
    );
    h.rec.describe_gauge(
        "limit_reached",
        Some(metrics::Unit::Percent.as_canonical_label().to_string()),
        "Gauge percent",
    );
    h.rec.describe_histogram(
        "request_time",
        Some(metrics::Unit::Milliseconds.as_canonical_label().to_string()),
        "Request time in milliseconds",
    );

    let c = h.counter("bytes_total", &[]);
    h.increment(c, 1);
    let g = h.gauge("limit_reached", &[]);
    h.set(g, 10.0);
    let t = h.histogram("request_time", &[]);
    h.record(t, 10.0);

    assert_eq!(
        h.to_json(None),
        r#"{"resourceMetrics":[{"resource":{"attributes":[{"key":"service.name","value":{"stringValue":"otlp-metrics"}},{"key":"service.version","value":{"stringValue":"1"}},{"key":"service.instance.id","value":{"stringValue":"test_recorder_with_descriptions_and_units"}}]},"scopeMetrics":[{"metrics":[{"name":"bytes_total","unit":"B","description":"Counter for bytes","sum":{"aggregationTemporality":2,"isMonotonic":true,"dataPoints":[{"asInt":1,"startTimeUnixNano":1739394449305000000,"timeUnixNano":1739394449405000000,"attributes":[]}]}},{"name":"limit_reached","unit":"%","description":"Gauge percent","gauge":{"dataPoints":[{"asDouble":10,"startTimeUnixNano":1739394449505000000,"timeUnixNano":1739394449605000000,"attributes":[]}]}},{"name":"request_time","unit":"ms","description":"Request time in milliseconds","histogram":{"aggregationTemporality":2,"dataPoints":[{"startTimeUnixNano":1739394449705000000,"timeUnixNano":1739394449805000000,"count":1,"sum":10,"attributes":[],"bucketCounts":[],"explicitBounds":[]}]}}]}]}]}"#,
    );
}

#[test]
fn test_metric_times() {
    let mut h = Harness::new("test_metric_times");
    let c = h.counter("test_counter", &[("label1", "label_value1")]);
    h.increment(c, 1);

    assert_eq!(
        h.to_json(None),
        r#"{"resourceMetrics":[{"resource":{"attributes":[{"key":"service.name","value":{"stringValue":"otlp-metrics"}},{"key":"service.version","value":{"stringValue":"1"}},{"key":"service.instance.id","value":{"stringValue":"test_metric_times"}}]},"scopeMetrics":[{"metrics":[{"name":"test_counter","unit":"1","description":"","sum":{"aggregationTemporality":2,"isMonotonic":true,"dataPoints":[{"asInt":1,"startTimeUnixNano":1739394449305000000,"timeUnixNano":1739394449405000000,"attributes":[{"key":"label1","value":{"stringValue":"label_value1"}}]}]}}]}]}]}"#
    );

    let c = h.counter("test_counter", &[("label1", "label_value1")]);
    h.increment(c, 1);

    assert_eq!(
        h.to_json(None),
        r#"{"resourceMetrics":[{"resource":{"attributes":[{"key":"service.name","value":{"stringValue":"otlp-metrics"}},{"key":"service.version","value":{"stringValue":"1"}},{"key":"service.instance.id","value":{"stringValue":"test_metric_times"}}]},"scopeMetrics":[{"metrics":[{"name":"test_counter","unit":"1","description":"","sum":{"aggregationTemporality":2,"isMonotonic":true,"dataPoints":[{"asInt":2,"startTimeUnixNano":1739394449305000000,"timeUnixNano":1739394449505000000,"attributes":[{"key":"label1","value":{"stringValue":"label_value1"}}]}]}}]}]}]}"#
    );
}

#[test]
fn test_output_only_changed_values() {
    let mut h = Harness::new("test_output_only_changed_values");
    let c = h.counter("test_counter", &[("label1", "label_value1")]);
    h.increment(c, 1);

    assert_eq!(
        h.to_json(None),
        r#"{"resourceMetrics":[{"resource":{"attributes":[{"key":"service.name","value":{"stringValue":"otlp-metrics"}},{"key":"service.version","value":{"stringValue":"1"}},{"key":"service.instance.id","value":{"stringValue":"test_output_only_changed_values"}}]},"scopeMetrics":[{"metrics":[{"name":"test_counter","unit":"1","description":"","sum":{"aggregationTemporality":2,"isMonotonic":true,"dataPoints":[{"asInt":1,"startTimeUnixNano":1739394449305000000,"timeUnixNano":1739394449405000000,"attributes":[{"key":"label1","value":{"stringValue":"label_value1"}}]}]}}]}]}]}"#
    );

    assert_eq!(
        h.to_json(Duration::from_millis(101).into()),
        r#"{"resourceMetrics":[{"resource":{"attributes":[{"key":"service.name","value":{"stringValue":"otlp-metrics"}},{"key":"service.version","value":{"stringValue":"1"}},{"key":"service.instance.id","value":{"stringValue":"test_output_only_changed_values"}}]},"scopeMetrics":[{"metrics":[{"name":"test_counter","unit":"1","description":"","sum":{"aggregationTemporality":2,"isMonotonic":true,"dataPoints":[{"asInt":1,"startTimeUnixNano":1739394449305000000,"timeUnixNano":1739394449405000000,"attributes":[{"key":"label1","value":{"stringValue":"label_value1"}}]}]}}]}]}]}"#
    );

    assert_eq!(
        h.to_json(Duration::from_millis(99).into()),
        r#"{"resourceMetrics":[{"resource":{"attributes":[{"key":"service.name","value":{"stringValue":"otlp-metrics"}},{"key":"service.version","value":{"stringValue":"1"}},{"key":"service.instance.id","value":{"stringValue":"test_output_only_changed_values"}}]},"scopeMetrics":[{"metrics":[]}]}]}"#
    );

    let c = h.counter("test_counter", &[("label1", "label_value1")]);
    h.increment(c, 1);

    assert_eq!(
        h.to_json(Duration::from_secs(99).into()),
        r#"{"resourceMetrics":[{"resource":{"attributes":[{"key":"service.name","value":{"stringValue":"otlp-metrics"}},{"key":"service.version","value":{"stringValue":"1"}},{"key":"service.instance.id","value":{"stringValue":"test_output_only_changed_values"}}]},"scopeMetrics":[{"metrics":[{"name":"test_counter","unit":"1","description":"","sum":{"aggregationTemporality":2,"isMonotonic":true,"dataPoints":[{"asInt":2,"startTimeUnixNano":1739394449305000000,"timeUnixNano":1739394449705000000,"attributes":[{"key":"label1","value":{"stringValue":"label_value1"}}]}]}}]}]}]}"#
    );
}

#[test]
fn counter_three_increments_document() {
    let mut rec = OtlpRecorder::new("svc", "2", "inst");
    let c = rec.register_counter(&key("x", &[("label1", "v1")]), 10).unwrap();
    for t in 0..3 {
        rec.increment_counter(c, 1, 20 + t);
    }
    let json = rec.to_json(None, 0, &float_texts(&rec));
    assert!(json.contains(r#""sum":{"aggregationTemporality":2,"isMonotonic":true,"dataPoints":[{"asInt":3,"startTimeUnixNano":10,"timeUnixNano":22,"attributes":[{"key":"label1","value":{"stringValue":"v1"}}]}]}"#));
}

#[test]
fn histogram_ten_thirty_document() {
    let mut rec = OtlpRecorder::new("svc", "2", "inst");
    let k = key("h", &[("buckets", "10,30")]);
    let bounds: Vec<u64> = bucket_bounds_text(&k)
        .unwrap()
        .iter()
        .map(|v| v.trim().parse::<f64>().unwrap().to_bits())
        .collect();
    let id = rec.register_histogram(&k, bounds, 1).unwrap();
    rec.record_histogram(id, 10.0f64.to_bits(), 10.0f64.to_bits(), 2);
    rec.record_histogram(id, 30.0f64.to_bits(), 40.0f64.to_bits(), 3);
    let json = rec.to_json(None, 0, &float_texts(&rec));
    assert!(json.contains(r#""count":2,"sum":40,"#));
    assert!(json.contains(r#""bucketCounts":[1,1,0],"explicitBounds":[10,30]"#));
}

#[test]
fn gauge_reset_document() {
    let mut rec = OtlpRecorder::new("svc", "2", "inst");
    let g = rec.register_gauge(&key("g", &[]), 1).unwrap();
    rec.set_gauge(g, 10.0f64.to_bits(), 2);
    rec.set_gauge(g, 20.0f64.to_bits(), 3);
    let json = rec.to_json(None, 0, &float_texts(&rec));
    assert!(json.contains(r#""asDouble":20,"#));
}

#[test]
fn empty_registry_document() {
    let rec = OtlpRecorder::new("svc", "2", "inst");
    assert_eq!(
        rec.to_json(Some(5), 100, &vec![]),
        r#"{"resourceMetrics":[{"resource":{"attributes":[{"key":"service.name","value":{"stringValue":"svc"}},{"key":"service.version","value":{"stringValue":"2"}},{"key":"service.instance.id","value":{"stringValue":"inst"}}]},"scopeMetrics":[{"metrics":[]}]}]}"#
    );
    assert_eq!(
        metrics_to_json("a", "b", "c", &vec![], &vec![], &vec![]),
        r#"{"resourceMetrics":[{"resource":{"attributes":[{"key":"service.name","value":{"stringValue":"a"}},{"key":"service.version","value":{"stringValue":"b"}},{"key":"service.instance.id","value":{"stringValue":"c"}}]},"scopeMetrics":[{"metrics":[]}]}]}"#
    );
}

#[test]
fn same_name_shares_accumulator() {
    let mut rec = OtlpRecorder::new("svc", "2", "inst");
    let a = rec.register_counter(&key("reqs", &[("path", "/a")]), 1).unwrap();
    let b = rec.register_counter(&key("reqs", &[("path", "/b")]), 2).unwrap();
    assert_eq!(a, b);
    assert_eq!(rec.metrics.len(), 1);
    rec.increment_counter(a, 2, 3);
    rec.increment_counter(b, 5, 4);
    match &rec.metrics[a].1.metric_type {
        MetricType::Counter(c) => assert_eq!(c.value(), 7),
        _ => panic!("not a counter"),
    }
    assert_eq!(rec.metrics[a].1.start_time, 1);
    assert_eq!(rec.metrics[a].0.labels[0].value, "/a");
}

#[test]
fn kind_mismatch_is_reported() {
    let mut rec = OtlpRecorder::new("svc", "2", "inst");
    rec.register_counter(&key("m", &[]), 1).unwrap();
    assert_eq!(
        rec.register_gauge(&key("m", &[]), 2),
        Err(KindMismatch { expected: MetricKind::Gauge, found: MetricKind::Counter })
    );
    assert_eq!(rec.metrics.len(), 1);
}

#[test]
fn description_after_registration_does_not_apply() {
    let mut rec = OtlpRecorder::new("svc", "2", "inst");
    let c = rec.register_counter(&key("late", &[]), 1).unwrap();
    rec.describe_counter("late", Some("B".to_string()), "too late");
    assert_eq!(rec.metrics[c].1.description, "");
    assert_eq!(rec.metrics[c].1.unit(), "1");
    let d = rec.register_counter(&key("later", &[]), 1).unwrap();
    rec.describe_counter("later", None, "x");
    assert_eq!(rec.metrics[d].1.description, "");
}

#[test]
fn first_description_binds() {
    let mut rec = OtlpRecorder::new("svc", "2", "inst");
    rec.describe_gauge("g", Some("ms".to_string()), "first");
    rec.describe_gauge("g", None, "second");
    let g = rec.register_gauge(&key("g", &[("a", "b")]), 1).unwrap();
    assert_eq!(rec.metrics[g].1.description, "first");
    assert_eq!(rec.metrics[g].1.unit(), "ms");
}

#[test]
fn snapshot_window_boundary() {
    let mut rec = OtlpRecorder::new("svc", "2", "inst");
    let a = rec.register_counter(&key("a", &[]), 0).unwrap();
    let b = rec.register_counter(&key("b", &[]), 0).unwrap();
    rec.increment_counter(a, 1, 1000);
    rec.increment_counter(b, 1, 1500);
    assert_eq!(rec.snapshot(Some(500), 2000), vec![b]);
    assert_eq!(rec.snapshot(Some(1000), 2000), vec![a, b]);
    assert_eq!(rec.snapshot(Some(499), 2000), Vec::<usize>::new());
    assert_eq!(rec.snapshot(None, 2000), vec![a, b]);
}

#[test]
fn bucket_label_split() {
    assert_eq!(bucket_bounds_text(&key("h", &[("x", "1"), ("buckets", "1, 2,3")])), Some(vec!["1".to_string(), " 2".to_string(), "3".to_string()]));
    assert_eq!(bucket_bounds_text(&key("h", &[("x", "1")])), None);
    assert_eq!(split_at_commas(""), vec![String::new()]);
    assert_eq!(split_at_commas("a,,b,"), vec!["a", "", "b", ""]);
}

#[test]
fn attribute_escapes_strings() {
    assert_eq!(attr("k", "v"), r#"{"key":"k","value":{"stringValue":"v"}}"#);
    assert_eq!(attr("q\"", "a\\b\n"), r#"{"key":"q\"","value":{"stringValue":"a\\b\n"}}"#);
}

#[test]
fn metric_text_of_counter() {
    let mut rec = OtlpRecorder::new("svc", "2", "inst");
    let c = rec.register_counter(&key("n", &[("a", "b"), ("c", "d")]), 12345).unwrap();
    rec.increment_counter(c, 18446744073709551615, 99);
    let f = FloatText { value: String::new(), bounds: vec![] };
    assert_eq!(
        metric_text(&rec.metrics[c], &f),
        r#"{"name":"n","unit":"1","description":"","sum":{"aggregationTemporality":2,"isMonotonic":true,"dataPoints":[{"asInt":18446744073709551615,"startTimeUnixNano":12345,"timeUnixNano":99,"attributes":[{"key":"a","value":{"stringValue":"b"}},{"key":"c","value":{"stringValue":"d"}}]}]}}"#
    );
}

#[test]
fn request_head_framing() {
    let config = TransportConfig {
        remote_addr: "127.0.0.1:9090".to_string(),
        endpoint: "/api/v1/otlp/v1/metrics".to_string(),
        headers: vec![("Authorization".to_string(), "Basic ame".to_string())],
        timeout: Duration::from_secs(5),
    };
    assert_eq!(
        request_head(&config, 1000),
        "POST /api/v1/otlp/v1/metrics HTTP/1.1\r\nHost: 127.0.0.1\r\nContent-Type: application/json\r\nContent-Length: 1000\r\nAuthorization: Basic ame\r\n\r\n"
    );
    assert_eq!(host_text("localhost"), "localhost");
    assert_eq!(host_text(":80"), "");
}

#[test]
fn attribute_escapes_control_characters() {
    assert_eq!(
        attr("\u{1}\u{1f}\t\r\u{8}\u{c}", "é/\u{7f}"),
        "{\"key\":\"\\u0001\\u001f\\t\\r\\b\\f\",\"value\":{\"stringValue\":\"é/\u{7f}\"}}"
    );
}

#[test]
fn decimal_digits() {
    assert_eq!(decimal_text(0), "0");
    assert_eq!(decimal_text(9), "9");
    assert_eq!(decimal_text(10), "10");
    assert_eq!(decimal_text(1739394449305000000), "1739394449305000000");
    assert_eq!(decimal_text(u64::MAX), "18446744073709551615");
    assert_eq!(length_text(0), "0");
    assert_eq!(length_text(1000), "1000");
}

#[test]
fn histogram_without_buckets_label_has_no_bounds() {
    let mut rec = OtlpRecorder::new("svc", "2", "inst");
    let k = key("plain", &[("a", "b")]);
    assert_eq!(bucket_bounds_text(&k), None);
    let id = rec.register_histogram(&k, vec![], 1).unwrap();
    rec.record_histogram(id, 5.0f64.to_bits(), 5.0f64.to_bits(), 2);
    let json = rec.to_json(None, 0, &float_texts(&rec));
    assert!(json.contains(r#""count":1,"sum":5,"attributes":[{"key":"a","value":{"stringValue":"b"}}],"bucketCounts":[],"explicitBounds":[]"#));
}
