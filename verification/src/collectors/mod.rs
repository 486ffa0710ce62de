//! Collectors turn finished spans into Zipkin wire records and buffer
//! them for a transport.

use vstd::prelude::*;
use vstd::string::StrSliceExecFns;
use vstd::utf8::encode_utf8;

use crate::text::dec_of_i64;
use crate::tracer::ZipkinContext;
use crate::tracer::trace_id::spec_split;
use crate::zipkin_core::AnnotationType;
use crate::zipkin_core::AnnotationView;
use crate::zipkin_core::BinaryAnnotationView;
use crate::zipkin_core::Endpoint;
use crate::zipkin_core::Span;
use crate::zipkin_core::i64_bits;

pub mod http;
pub mod kafka;

verus! {

/// A tag's value: a flag, a number, or text. A fractional number is
/// rendered to text by the caller before it reaches the encoder.
#[derive(Debug)]
pub enum TagValue {
    Boolean(bool),
    Integer(i64),
    Text(String),
}

/// A log entry's value, with the same shapes as a tag's value.
#[derive(Debug)]
pub enum LogValue {
    Boolean(bool),
    Integer(i64),
    Text(String),
}

/// One log entry of a finished span: its own timestamp and its fields.
#[derive(Debug)]
pub struct LogRecord {
    /// Microseconds between the epoch and the log's own time.
    pub timestamp_micros: u64,
    /// The log's named values.
    pub fields: Vec<(String, LogValue)>,
}

/// A finished span as the host tracing API hands it over: name, start
/// and finish times as microseconds from the epoch, tags, logs, and the
/// span's context.
#[derive(Debug)]
pub struct FinishedSpan {
    name: String,
    start_micros: u64,
    finish_micros: u64,
    tags: Vec<(String, TagValue)>,
    logs: Vec<LogRecord>,
    context: ZipkinContext,
}

impl FinishedSpan {
    /// Packs up a finished span.
    pub fn new(
        name: String,
        start_micros: u64,
        finish_micros: u64,
        tags: Vec<(String, TagValue)>,
        logs: Vec<LogRecord>,
        context: ZipkinContext,
    ) -> (r: FinishedSpan)
        ensures
            r@.name == name@,
            r@.start_micros == start_micros,
            r@.finish_micros == finish_micros,
            r@.tags == tags@,
            r@.logs == logs@,
            r@.context == context@,
    {
        FinishedSpan { name, start_micros, finish_micros, tags, logs, context }
    }

    /// The span's name.
    pub fn name(&self) -> (r: &String)
        ensures
            r@ == self@.name,
    {
        &self.name
    }

    /// The span's context.
    pub fn context(&self) -> (r: &ZipkinContext)
        ensures
            r@ == self@.context,
    {
        &self.context
    }

    /// Microseconds between the epoch and the span's start.
    pub fn start_time(&self) -> (r: u64)
        ensures
            r == self@.start_micros,
    {
        self.start_micros
    }

    /// Microseconds between the epoch and the span's finish.
    pub fn finish_time(&self) -> (r: u64)
        ensures
            r == self@.finish_micros,
    {
        self.finish_micros
    }

    /// The span's tags.
    pub fn tags(&self) -> (r: &Vec<(String, TagValue)>)
        ensures
            r@ == self@.tags,
    {
        &self.tags
    }

    /// The span's log entries.
    pub fn logs(&self) -> (r: &Vec<LogRecord>)
        ensures
            r@ == self@.logs,
    {
        &self.logs
    }
}

/// The mathematical value of a finished span.
pub ghost struct FinishedSpanView {
    pub name: Seq<char>,
    pub start_micros: u64,
    pub finish_micros: u64,
    pub tags: Seq<(String, TagValue)>,
    pub logs: Seq<LogRecord>,
    pub context: crate::tracer::context::CtxView,
}

impl View for FinishedSpan {
    type V = FinishedSpanView;

    closed spec fn view(&self) -> FinishedSpanView {
        FinishedSpanView {
            name: self.name@,
            start_micros: self.start_micros,
            finish_micros: self.finish_micros,
            tags: self.tags@,
            logs: self.logs@,
            context: self.context@,
        }
    }
}

/// The magnitude of the difference between two times in microseconds,
/// clamped into the signed 64-bit range. The magnitude is kept either
/// direction, so a skewed clock never yields a negative value.
pub open spec fn spec_duration(start: u64, end: u64) -> int {
    let delta = if end >= start {
        end - start
    } else {
        start - end
    };
    if delta > 0x7fff_ffff_ffff_ffff {
        0x7fff_ffff_ffff_ffff
    } else {
        delta
    }
}

/// The wire duration of a span: the skew-tolerant magnitude between its
/// start and finish, forced to 1 when it would be 0, since the Zipkin
/// record format disallows zero-length spans.
pub open spec fn spec_span_duration(start: u64, finish: u64) -> int {
    if spec_duration(start, finish) == 0 {
        1
    } else {
        spec_duration(start, finish)
    }
}

/// Computes the difference (in microseconds) between two times.
fn compute_duration(start: u64, end: u64) -> (r: i64)
    ensures
        r as int == spec_duration(start, end),
{
    let delta = if end >= start {
        end - start
    } else {
        start - end
    };
    if delta > 0x7fff_ffff_ffff_ffff {
        i64::MAX
    } else {
        delta as i64
    }
}

/// The text a log value renders to.
pub open spec fn log_value_text(v: LogValue) -> Seq<char> {
    match v {
        LogValue::Boolean(true) => "true"@,
        LogValue::Boolean(false) => "false"@,
        LogValue::Integer(value) => dec_of_i64(value),
        LogValue::Text(value) => value@,
    }
}

/// The text a tag value renders to.
pub open spec fn tag_value_text(v: TagValue) -> Seq<char> {
    match v {
        TagValue::Boolean(true) => "true"@,
        TagValue::Boolean(false) => "false"@,
        TagValue::Integer(value) => dec_of_i64(value),
        TagValue::Text(value) => value@,
    }
}

/// Encode a log value into a String.
fn encode_log_value(value: &LogValue) -> (r: String)
    ensures
        r@ == log_value_text(*value),
{
    match value {
        LogValue::Boolean(true) => String::from_str("true"),
        LogValue::Boolean(false) => String::from_str("false"),
        LogValue::Integer(value) => crate::text::format_dec_i64(*value),
        LogValue::Text(value) => value.clone(),
    }
}

/// Encode a tag value into a bytes buffer and its wire type.
fn encode_tag_value(value: &TagValue) -> (r: (Vec<u8>, AnnotationType))
    ensures
        r.0@ == encode_utf8(tag_value_text(*value)),
        r.1 == AnnotationType::STRING,
{
    let text = match value {
        TagValue::Boolean(true) => String::from_str("true"),
        TagValue::Boolean(false) => String::from_str("false"),
        TagValue::Integer(value) => crate::text::format_dec_i64(*value),
        TagValue::Text(value) => value.clone(),
    };
    let buffer = text.as_str().as_bytes_vec();
    (buffer, AnnotationType::STRING)
}

/// What a finished log entry renders to: a JSON object of its fields,
/// each field's value rendered to text.
pub uninterp spec fn json_object_of(entries: Seq<(Seq<char>, Seq<char>)>) -> Seq<char>;

/// The log's fields with each value rendered to text.
pub open spec fn log_fields_text(fields: Seq<(String, LogValue)>) -> Seq<(Seq<char>, Seq<char>)> {
    fields.map_values(|p: (String, LogValue)| (p.0@, log_value_text(p.1)))
}

/// Relies on serde_json::to_string over a sorted map built from the
/// fields: the rendering depends on the key/value pairs alone, and maps
/// of strings always serialize.
#[verifier::external_body]
fn json_encode_fields(fields: &Vec<(String, String)>) -> (r: String)
    ensures
        r@ == json_object_of(crate::tracer::context::baggage_view(fields@)),
{
    let mut map: std::collections::BTreeMap<String, String> = std::collections::BTreeMap::new();
    for (key, value) in fields.iter() {
        map.insert(key.clone(), value.clone());
    }
    serde_json::to_string(&map).unwrap()
}

/// Renders a log's fields and serializes them as one JSON object.
fn encode_log_fields(fields: &Vec<(String, LogValue)>) -> (r: String)
    ensures
        r@ == json_object_of(log_fields_text(fields@)),
{
    let mut rendered: Vec<(String, String)> = Vec::new();
    let mut i: usize = 0;
    while i < fields.len()
        invariant
            i <= fields@.len(),
            crate::tracer::context::baggage_view(rendered@) =~= log_fields_text(
                fields@.take(i as int),
            ),
        decreases fields@.len() - i,
    {
        let pair = &fields[i];
        let value = encode_log_value(&pair.1);
        let ghost before = rendered@;
        rendered.push((pair.0.clone(), value));
        proof {
            assert(crate::tracer::context::baggage_view(before).len() == before.len());
            assert(log_fields_text(fields@.take(i as int)).len() == fields@.take(i as int).len());
            assert(before.len() == i);
            let rv = crate::tracer::context::baggage_view(rendered@);
            let lf = log_fields_text(fields@.take(i + 1));
            let prev = log_fields_text(fields@.take(i as int));
            assert(fields@.take(i + 1)[i as int] == fields@[i as int]);
            assert(lf[i as int] == (fields@[i as int].0@, log_value_text(fields@[i as int].1)));
            assert(rv[i as int] == (fields@[i as int].0@, log_value_text(fields@[i as int].1)));
            assert forall|j: int| 0 <= j < i implies rv[j] == lf[j] by {
                assert(rendered@[j] == before[j]);
                assert(fields@.take(i + 1)[j] == fields@[j]);
                assert(fields@.take(i as int)[j] == fields@[j]);
                assert(crate::tracer::context::baggage_view(before)[j] == prev[j]);
            }
            assert(rv =~= lf);
        }
        i += 1;
    }
    proof {
        assert(fields@.take(fields@.len() as int) =~= fields@);
    }
    json_encode_fields(&rendered)
}


/// The annotation a log entry encodes to: the log's own timestamp, its
/// fields as one JSON object, and the process endpoint.
pub open spec fn annotation_of_log(
    log: LogRecord,
    endpoint: crate::zipkin_core::EndpointView,
) -> AnnotationView {
    AnnotationView {
        timestamp: Some((spec_duration(0, log.timestamp_micros)) as i64),
        value: Some(json_object_of(log_fields_text(log.fields@))),
        host: Some(endpoint),
    }
}

/// The binary annotation a tag encodes to: the tag's key, its rendered
/// value as UTF-8 bytes of type STRING, and the process endpoint.
pub open spec fn binary_annotation_of_tag(
    tag: (String, TagValue),
    endpoint: crate::zipkin_core::EndpointView,
) -> BinaryAnnotationView {
    BinaryAnnotationView {
        key: Some(tag.0@),
        value: Some(encode_utf8(tag_value_text(tag.1))),
        annotation_type: Some(AnnotationType::STRING),
        host: Some(endpoint),
    }
}

/// The one binary annotation synthesized for a span with neither tags
/// nor logs, so that the endpoint still reaches the record.
pub open spec fn injected_endpoint_annotation(
    endpoint: crate::zipkin_core::EndpointView,
) -> BinaryAnnotationView {
    BinaryAnnotationView {
        key: Some("zipkin.endpoint.injected"@),
        value: Some(encode_utf8("true"@)),
        annotation_type: Some(AnnotationType::STRING),
        host: Some(endpoint),
    }
}

/// The signed wire integer whose bits are the given unsigned value.
pub open spec fn wire_i64_of(x: u64) -> i64 {
    if x <= 0x7fff_ffff_ffff_ffff {
        x as i64
    } else {
        (x - 0x1_0000_0000_0000_0000) as i64
    }
}

/// The wire span record a finished span and an endpoint encode to.
pub open spec fn wire_span_of(
    span: FinishedSpanView,
    endpoint: crate::zipkin_core::EndpointView,
) -> crate::zipkin_core::SpanView {
    crate::zipkin_core::SpanView {
        trace_id: Some(wire_i64_of(spec_split(span.context.trace_id).1)),
        name: Some(span.name),
        id: Some(wire_i64_of(span.context.span_id)),
        parent_id: match span.context.parent_span_id {
            Some(p) => Some(wire_i64_of(p)),
            None => None,
        },
        annotations: Some(
            Seq::new(span.logs.len(), |i: int| annotation_of_log(span.logs[i], endpoint)),
        ),
        binary_annotations: Some(
            if span.tags.len() == 0 && span.logs.len() == 0 {
                seq![injected_endpoint_annotation(endpoint)]
            } else {
                Seq::new(
                    span.tags.len(),
                    |i: int| binary_annotation_of_tag(span.tags[i], endpoint),
                )
            },
        ),
        debug: Some(span.context.debug),
        timestamp: Some(spec_duration(0, span.start_micros) as i64),
        duration: Some(spec_span_duration(span.start_micros, span.finish_micros) as i64),
        trace_id_high: Some(wire_i64_of(spec_split(span.context.trace_id).0)),
    }
}

/// A span with zero measured duration encodes to a record whose
/// duration is exactly 1.
pub proof fn lemma_zero_duration_wire_span(
    span: FinishedSpanView,
    endpoint: crate::zipkin_core::EndpointView,
)
    requires
        span.start_micros == span.finish_micros,
    ensures
        wire_span_of(span, endpoint).duration == Some(1i64),
{
}

/// A span with no tags and no logs encodes to exactly one binary
/// annotation, whose key is "zipkin.endpoint.injected" and whose host
/// carries the endpoint.
pub proof fn lemma_bare_span_single_annotation(
    span: FinishedSpanView,
    endpoint: crate::zipkin_core::EndpointView,
)
    requires
        span.tags.len() == 0,
        span.logs.len() == 0,
    ensures
        wire_span_of(span, endpoint).binary_annotations == Some(
            seq![injected_endpoint_annotation(endpoint)],
        ),
        injected_endpoint_annotation(endpoint).key == Some("zipkin.endpoint.injected"@),
        injected_endpoint_annotation(endpoint).host == Some(endpoint),
{
}

/// The bits of an unsigned 64-bit value as a signed wire integer.
fn u64_to_wire_i64(x: u64) -> (r: i64)
    ensures
        i64_bits(r) == x,
        r == wire_i64_of(x),
{
    if x <= 0x7fff_ffff_ffff_ffff {
        x as i64
    } else {
        let m = x - 0x8000_0000_0000_0000;
        i64::MIN + (m as i64)
    }
}

/// Encodes a finished span into a Zipkin wire record.
///
/// The record carries the context's trace id split into two big-endian
/// halves, the span and parent ids, the debug flag, the span's start as
/// its timestamp and the skew-tolerant magnitude between start and
/// finish as its duration (forced to 1 when it would round to 0), one
/// binary annotation per tag, one annotation per log, and — when the
/// span has neither tags nor logs — exactly one synthesized binary
/// annotation carrying the endpoint.
#[verifier::rlimit(100)]
pub fn thrift_encode(span: &FinishedSpan, endpoint: &Endpoint) -> (r: Span)
    ensures
        r@ == wire_span_of(span@, endpoint@),
{
    // Extract span details.
    let context = span.context();
    let (high, low) = context.trace_id().split();
    let timestamp = compute_duration(0, span.start_time());
    let duration = compute_duration(span.start_time(), span.finish_time());
    let duration: i64 = if duration == 0 {
        1
    } else {
        duration
    };

    // Convert tags into binary annotations.
    let tags = span.tags();
    let mut binary_annotations: Vec<crate::zipkin_core::BinaryAnnotation> = Vec::new();
    let mut i: usize = 0;
    while i < tags.len()
        invariant
            span@.tags == tags@,
            i <= tags@.len(),
            binary_annotations@.len() == i,
            forall|j: int| 0 <= j < i ==> (#[trigger] binary_annotations@[j])@
                == binary_annotation_of_tag(tags@[j], endpoint@),
        decreases tags@.len() - i,
    {
        let pair = &tags[i];
        let (buffer, value_type) = encode_tag_value(&pair.1);
        let annotation = crate::zipkin_core::BinaryAnnotation::new(
            Some(pair.0.clone()),
            Some(buffer),
            Some(value_type),
            Some(endpoint.duplicate()),
        );
        binary_annotations.push(annotation);
        i += 1;
    }

    // Convert logs into annotations.
    let logs = span.logs();
    let mut annotations: Vec<crate::zipkin_core::Annotation> = Vec::new();
    let mut i: usize = 0;
    while i < logs.len()
        invariant
            span@.logs == logs@,
            i <= logs@.len(),
            annotations@.len() == i,
            forall|j: int| 0 <= j < i ==> (#[trigger] annotations@[j])@ == annotation_of_log(
                logs@[j],
                endpoint@,
            ),
        decreases logs@.len() - i,
    {
        let log = &logs[i];
        let log_timestamp = compute_duration(0, log.timestamp_micros);
        let fields = encode_log_fields(&log.fields);
        let annotation = crate::zipkin_core::Annotation::new(
            Some(log_timestamp),
            Some(fields),
            Some(endpoint.duplicate()),
        );
        annotations.push(annotation);
        i += 1;
    }

    // Ensure at least an annotation is present to carry the endpoint.
    if annotations.len() == 0 && binary_annotations.len() == 0 {
        let annotation = crate::zipkin_core::BinaryAnnotation::new(
            Some(String::from_str("zipkin.endpoint.injected")),
            Some(String::from_str("true").as_str().as_bytes_vec()),
            Some(AnnotationType::STRING),
            Some(endpoint.duplicate()),
        );
        binary_annotations.push(annotation);
        proof {
            assert(crate::zipkin_core::binary_annotations_view(binary_annotations@) =~= seq![
                injected_endpoint_annotation(endpoint@),
            ]);
        }
    }

    // Create the wire span.
    let parent_id: Option<i64> = match context.parent_span_id() {
        Some(parent_span_id) => Some(u64_to_wire_i64(parent_span_id)),
        None => None,
    };
    let r = Span::new(
        Some(u64_to_wire_i64(low)),
        Some(span.name().clone()),
        Some(u64_to_wire_i64(context.span_id())),
        parent_id,
        Some(annotations),
        Some(binary_annotations),
        Some(context.debug()),
        Some(timestamp),
        Some(duration),
        Some(u64_to_wire_i64(high)),
    );
    proof {
        let expected = wire_span_of(span@, endpoint@);
        assert(r@.annotations->Some_0 =~= expected.annotations->Some_0);
        assert(r@.binary_annotations->Some_0 =~= expected.binary_annotations->Some_0);
        assert(r@ == expected);
    }
    r
}

} // verus!
