use opentracingrust_zipkin::FinishedSpan;
use opentracingrust_zipkin::HttpCollector;
use opentracingrust_zipkin::HttpCollectorOpts;
use opentracingrust_zipkin::KafkaCollector;
use opentracingrust_zipkin::LogRecord;
use opentracingrust_zipkin::LogValue;
use opentracingrust_zipkin::TagValue;
use opentracingrust_zipkin::ZipkinContext;
use opentracingrust_zipkin::ZipkinEndpoint;
use opentracingrust_zipkin::thrift_encode;

fn mock_span() -> FinishedSpan {
    FinishedSpan::new(
        String::from("test"),
        1_000_000,
        1_000_500,
        Vec::new(),
        Vec::new(),
        ZipkinContext::new(),
    )
}

fn mocks() -> (FinishedSpan, ZipkinContext, opentracingrust_zipkin::zipkin_core::Span) {
    let span = mock_span();
    let context = span.context().clone();
    let endpoint = ZipkinEndpoint::new(None, None, Some(String::from("test-service")), None);
    let encoded = thrift_encode(&span, &endpoint);
    (span, context, encoded)
}

#[test]
fn serialise_ids() {
    let (_, context, encoded) = mocks();
    let (high, low) = context.trace_id().split();
    assert_eq!(encoded.trace_id.unwrap(), low as i64);
    assert_eq!(encoded.trace_id_high.unwrap(), high as i64);
    assert_eq!(encoded.id.unwrap(), context.span_id() as i64);
    assert_eq!(encoded.parent_id, None);
}

#[test]
fn serialise_meta() {
    let (_, _, encoded) = mocks();
    assert_eq!(encoded.debug.unwrap(), false);
}

#[test]
fn serialise_times() {
    let (span, _, encoded) = mocks();
    assert_eq!(encoded.timestamp.unwrap(), span.start_time() as i64);
    assert_eq!(encoded.duration.unwrap(), 500);
}

#[test]
fn zero_duration_encodes_as_one() {
    let span = FinishedSpan::new(
        String::from("instant"),
        1_000_000,
        1_000_000,
        Vec::new(),
        Vec::new(),
        ZipkinContext::new(),
    );
    let endpoint = ZipkinEndpoint::new(None, None, Some(String::from("test-service")), None);
    let encoded = thrift_encode(&span, &endpoint);
    assert_eq!(encoded.duration.unwrap(), 1);
}

#[test]
fn bare_span_gains_injected_endpoint_annotation() {
    let (_, _, encoded) = mocks();
    let annotations = encoded.annotations.unwrap();
    assert_eq!(annotations.len(), 0);
    let binary_annotations = encoded.binary_annotations.unwrap();
    assert_eq!(binary_annotations.len(), 1);
    let only = &binary_annotations[0];
    assert_eq!(only.key.as_ref().unwrap(), "zipkin.endpoint.injected");
    assert_eq!(only.value.as_ref().unwrap(), b"true");
    assert_eq!(
        only.host.as_ref().unwrap().service_name.as_ref().unwrap(),
        "test-service"
    );
}

#[test]
fn tags_become_binary_annotations() {
    let tags = vec![
        (String::from("flag"), TagValue::Boolean(true)),
        (String::from("count"), TagValue::Integer(-7)),
        (String::from("label"), TagValue::Text(String::from("x"))),
    ];
    let span = FinishedSpan::new(
        String::from("tagged"),
        1,
        2,
        tags,
        Vec::new(),
        ZipkinContext::new(),
    );
    let endpoint = ZipkinEndpoint::new(None, None, Some(String::from("svc")), None);
    let encoded = thrift_encode(&span, &endpoint);
    let binary_annotations = encoded.binary_annotations.unwrap();
    assert_eq!(binary_annotations.len(), 3);
    assert_eq!(binary_annotations[0].key.as_ref().unwrap(), "flag");
    assert_eq!(binary_annotations[0].value.as_ref().unwrap(), b"true");
    assert_eq!(binary_annotations[1].key.as_ref().unwrap(), "count");
    assert_eq!(binary_annotations[1].value.as_ref().unwrap(), b"-7");
    assert_eq!(binary_annotations[2].key.as_ref().unwrap(), "label");
    assert_eq!(binary_annotations[2].value.as_ref().unwrap(), b"x");
}

#[test]
fn logs_become_json_annotations() {
    let logs = vec![LogRecord {
        timestamp_micros: 1_000_250,
        fields: vec![(String::from("event"), LogValue::Text(String::from("cache-miss")))],
    }];
    let span = FinishedSpan::new(
        String::from("logged"),
        1_000_000,
        1_000_500,
        Vec::new(),
        logs,
        ZipkinContext::new(),
    );
    let endpoint = ZipkinEndpoint::new(None, None, Some(String::from("svc")), None);
    let encoded = thrift_encode(&span, &endpoint);
    let annotations = encoded.annotations.unwrap();
    assert_eq!(annotations.len(), 1);
    assert_eq!(annotations[0].timestamp.unwrap(), 1_000_250);
    assert_eq!(
        annotations[0].value.as_ref().unwrap(),
        "{\"event\":\"cache-miss\"}"
    );
    let binary_annotations = encoded.binary_annotations.unwrap();
    assert_eq!(binary_annotations.len(), 0);
}

fn collector(flush_count: usize, flush_timeout: u64, now: u64) -> HttpCollector {
    let endpoint = ZipkinEndpoint::new(None, None, Some(String::from("svc")), None);
    let opts = HttpCollectorOpts::new("http://zipkin:9411", endpoint)
        .flush_count(flush_count)
        .flush_timeout(flush_timeout);
    HttpCollector::new(opts, now)
}

#[test]
fn http_collector_target_url() {
    let c = collector(2, 1_000, 0);
    assert_eq!(c.target_url(), "http://zipkin:9411/api/v1/spans");
}

#[test]
fn lazy_flush_holds_at_threshold() {
    let mut c = collector(2, 1_000_000, 0);
    c.collect(&mock_span());
    c.collect(&mock_span());
    // Exactly at the threshold: the policy must not fire.
    assert!(c.lazy_flush(0).is_none());
}

#[test]
fn lazy_flush_fires_above_threshold() {
    let mut c = collector(2, 1_000_000, 0);
    c.collect(&mock_span());
    c.collect(&mock_span());
    c.collect(&mock_span());
    // One past the threshold: the policy must fire.
    assert!(c.lazy_flush(0).is_some());
    // The buffer drained: nothing more to send.
    assert!(c.lazy_flush(0).is_none());
}

#[test]
fn lazy_flush_holds_just_under_timeout() {
    let mut c = collector(100, 1_000, 0);
    c.collect(&mock_span());
    assert!(c.lazy_flush(1_000).is_none());
}

#[test]
fn lazy_flush_fires_past_timeout() {
    let mut c = collector(100, 1_000, 0);
    c.collect(&mock_span());
    assert!(c.lazy_flush(1_001).is_some());
}

#[test]
fn flush_on_empty_buffer_sends_nothing() {
    let mut c = collector(2, 1_000, 0);
    assert!(c.flush(5).is_none());
    // The empty flush still reset the timer: no time-based fire now.
    c.collect(&mock_span());
    assert!(c.lazy_flush(1_000).is_none());
}

#[test]
fn flush_batches_all_buffered_spans() {
    let mut c = collector(100, 1_000, 0);
    c.collect(&mock_span());
    c.collect(&mock_span());
    let payload = c.flush(1).unwrap();
    // A batch opens with the struct element type and the span count.
    assert_eq!(payload[0], 0x0C);
    assert_eq!(&payload[1..5], &[0, 0, 0, 2]);
    // A second flush has nothing left to send.
    assert!(c.flush(2).is_none());
}

#[test]
fn kafka_collector_encodes_one_message_per_span() {
    let endpoint = ZipkinEndpoint::new(None, None, Some(String::from("svc")), None);
    let mut c = KafkaCollector::new(
        endpoint,
        String::from("zipkin"),
        vec![String::from("127.0.0.1:9092")],
    );
    assert_eq!(c.topic(), "zipkin");
    let message = c.collect(&mock_span()).unwrap();
    assert_ne!(message.len(), 0);
    // A single record, not a batch: it opens with its first field, not
    // with a list header.
    assert_eq!(message[0], 0x0A);
}
