//! The Zipkin wire span record and its binary encoding.
//!
//! The record layout follows the Zipkin span schema: a span carries its
//! trace id (two 64-bit halves), its own id and optional parent id, a
//! name, annotations and binary annotations with an endpoint each, the
//! debug flag, and its timestamp and duration in microseconds.

use vstd::prelude::*;
use vstd::string::StrSliceExecFns;
use vstd::utf8::encode_utf8;

use crate::tracer::binary_format::TT_BOOL;
use crate::tracer::binary_format::TT_I16;
use crate::tracer::binary_format::TT_I32;
use crate::tracer::binary_format::TT_I64;
use crate::tracer::binary_format::TT_LIST;
use crate::tracer::binary_format::TT_STOP;
use crate::tracer::binary_format::TT_STRING;
use crate::tracer::binary_format::TT_STRUCT;
use crate::tracer::binary_format::enc_str;
use crate::tracer::binary_format::str_encodable;
use crate::wire::be16;
use crate::wire::be32;
use crate::wire::be64;

verus! {

/// The value type of a binary annotation; tags are rendered as text, so
/// only the string variant is produced here.
#[derive(Clone, Copy, Debug, PartialEq, Eq, Structural)]
pub enum AnnotationType {
    BOOL,
    BYTES,
    I16,
    I32,
    I64,
    DOUBLE,
    STRING,
}

/// The wire value of an annotation type.
pub open spec fn annotation_type_value(t: AnnotationType) -> u32 {
    match t {
        AnnotationType::BOOL => 0,
        AnnotationType::BYTES => 1,
        AnnotationType::I16 => 2,
        AnnotationType::I32 => 3,
        AnnotationType::I64 => 4,
        AnnotationType::DOUBLE => 5,
        AnnotationType::STRING => 6,
    }
}

impl AnnotationType {
    /// The numeric value written to the wire for this type.
    pub fn wire_value(&self) -> (r: u32)
        ensures
            r == annotation_type_value(*self),
    {
        match self {
            AnnotationType::BOOL => 0,
            AnnotationType::BYTES => 1,
            AnnotationType::I16 => 2,
            AnnotationType::I32 => 3,
            AnnotationType::I64 => 4,
            AnnotationType::DOUBLE => 5,
            AnnotationType::STRING => 6,
        }
    }
}

/// The two's-complement bits of a 64-bit signed value.
pub open spec fn i64_bits(x: i64) -> u64 {
    if x >= 0 {
        x as u64
    } else {
        (x + 0x1_0000_0000_0000_0000) as u64
    }
}

/// The two's-complement bits of a 32-bit signed value.
pub open spec fn i32_bits(x: i32) -> u32 {
    if x >= 0 {
        x as u32
    } else {
        (x + 0x1_0000_0000) as u32
    }
}

/// The two's-complement bits of a 16-bit signed value.
pub open spec fn i16_bits(x: i16) -> u16 {
    if x >= 0 {
        x as u16
    } else {
        (x + 0x1_0000) as u16
    }
}

/// The two's-complement bits of a 64-bit signed value.
fn i64_to_bits(x: i64) -> (r: u64)
    ensures
        r == i64_bits(x),
{
    if x >= 0 {
        x as u64
    } else {
        let m = (-(x as i128)) as u64;
        0u64.wrapping_sub(m)
    }
}

/// The two's-complement bits of a 32-bit signed value.
fn i32_to_bits(x: i32) -> (r: u32)
    ensures
        r == i32_bits(x),
{
    if x >= 0 {
        x as u32
    } else {
        let m = (-(x as i64)) as u32;
        0u32.wrapping_sub(m)
    }
}

/// The two's-complement bits of a 16-bit signed value.
fn i16_to_bits(x: i16) -> (r: u16)
    ensures
        r == i16_bits(x),
{
    if x >= 0 {
        x as u16
    } else {
        let m = (-(x as i32)) as u16;
        0u16.wrapping_sub(m)
    }
}

/// The network context of a service recording an annotation.
#[derive(Debug)]
pub struct Endpoint {
    /// IPv4 host address packed into 4 bytes.
    pub ipv4: Option<i32>,
    /// IPv4 port, or 0 if unknown.
    pub port: Option<i16>,
    /// Classifier of a source or destination in lowercase.
    pub service_name: Option<String>,
    /// IPv6 host address packed into 16 bytes.
    pub ipv6: Option<Vec<u8>>,
}

/// The mathematical value of an endpoint.
pub ghost struct EndpointView {
    pub ipv4: Option<i32>,
    pub port: Option<i16>,
    pub service_name: Option<Seq<char>>,
    pub ipv6: Option<Seq<u8>>,
}

impl View for Endpoint {
    type V = EndpointView;

    open spec fn view(&self) -> EndpointView {
        EndpointView {
            ipv4: self.ipv4,
            port: self.port,
            service_name: match self.service_name {
                Some(s) => Some(s@),
                None => None,
            },
            ipv6: match self.ipv6 {
                Some(b) => Some(b@),
                None => None,
            },
        }
    }
}

impl Endpoint {
    /// Builds an endpoint field by field.
    pub fn new(
        ipv4: Option<i32>,
        port: Option<i16>,
        service_name: Option<String>,
        ipv6: Option<Vec<u8>>,
    ) -> (r: Endpoint)
        ensures
            r.ipv4 == ipv4,
            r.port == port,
            r.service_name == service_name,
            r.ipv6 == ipv6,
    {
        Endpoint { ipv4, port, service_name, ipv6 }
    }

    /// Copies the endpoint; the copy carries the same fields.
    pub fn duplicate(&self) -> (r: Endpoint)
        ensures
            r@ == self@,
    {
        Endpoint {
            ipv4: self.ipv4,
            port: self.port,
            service_name: match &self.service_name {
                Some(s) => Some(s.clone()),
                None => None,
            },
            ipv6: match &self.ipv6 {
                Some(b) => Some(b.clone()),
                None => None,
            },
        }
    }
}

/// A timestamped event attached to a span.
#[derive(Debug)]
pub struct Annotation {
    /// Microseconds from epoch.
    pub timestamp: Option<i64>,
    /// The event's rendered value.
    pub value: Option<String>,
    /// The host that recorded the value.
    pub host: Option<Endpoint>,
}

/// The mathematical value of an annotation.
pub ghost struct AnnotationView {
    pub timestamp: Option<i64>,
    pub value: Option<Seq<char>>,
    pub host: Option<EndpointView>,
}

impl View for Annotation {
    type V = AnnotationView;

    open spec fn view(&self) -> AnnotationView {
        AnnotationView {
            timestamp: self.timestamp,
            value: match self.value {
                Some(s) => Some(s@),
                None => None,
            },
            host: match self.host {
                Some(e) => Some(e@),
                None => None,
            },
        }
    }
}

impl Annotation {
    /// Builds an annotation field by field.
    pub fn new(timestamp: Option<i64>, value: Option<String>, host: Option<Endpoint>) -> (r:
        Annotation)
        ensures
            r.timestamp == timestamp,
            r.value == value,
            r.host == host,
    {
        Annotation { timestamp, value, host }
    }
}

/// A typed key/value tag attached to a span.
#[derive(Debug)]
pub struct BinaryAnnotation {
    /// Name used to look spans up.
    pub key: Option<String>,
    /// The tag's value bytes.
    pub value: Option<Vec<u8>>,
    /// The type of the value, most often STRING.
    pub annotation_type: Option<AnnotationType>,
    /// The host that recorded the value.
    pub host: Option<Endpoint>,
}

/// The mathematical value of a binary annotation.
pub ghost struct BinaryAnnotationView {
    pub key: Option<Seq<char>>,
    pub value: Option<Seq<u8>>,
    pub annotation_type: Option<AnnotationType>,
    pub host: Option<EndpointView>,
}

impl View for BinaryAnnotation {
    type V = BinaryAnnotationView;

    open spec fn view(&self) -> BinaryAnnotationView {
        BinaryAnnotationView {
            key: match self.key {
                Some(s) => Some(s@),
                None => None,
            },
            value: match self.value {
                Some(b) => Some(b@),
                None => None,
            },
            annotation_type: self.annotation_type,
            host: match self.host {
                Some(e) => Some(e@),
                None => None,
            },
        }
    }
}

impl BinaryAnnotation {
    /// Builds a binary annotation field by field.
    pub fn new(
        key: Option<String>,
        value: Option<Vec<u8>>,
        annotation_type: Option<AnnotationType>,
        host: Option<Endpoint>,
    ) -> (r: BinaryAnnotation)
        ensures
            r.key == key,
            r.value == value,
            r.annotation_type == annotation_type,
            r.host == host,
    {
        BinaryAnnotation { key, value, annotation_type, host }
    }
}

/// One Zipkin span record.
#[derive(Debug)]
pub struct Span {
    /// Low 64 bits of the trace id.
    pub trace_id: Option<i64>,
    /// Span name in lowercase.
    pub name: Option<String>,
    /// This span's own id.
    pub id: Option<i64>,
    /// The parent span's id; absent for a root span.
    pub parent_id: Option<i64>,
    /// Timestamped events.
    pub annotations: Option<Vec<Annotation>>,
    /// Key/value tags.
    pub binary_annotations: Option<Vec<BinaryAnnotation>>,
    /// True requests storing this span regardless of sampling.
    pub debug: Option<bool>,
    /// Epoch microseconds of the span's start.
    pub timestamp: Option<i64>,
    /// Duration in microseconds, at least 1.
    pub duration: Option<i64>,
    /// High 64 bits of the trace id; 0 means a 64-bit trace id.
    pub trace_id_high: Option<i64>,
}

/// The annotations as mathematical values.
pub open spec fn annotations_view(v: Seq<Annotation>) -> Seq<AnnotationView> {
    v.map_values(|a: Annotation| a@)
}

/// The binary annotations as mathematical values.
pub open spec fn binary_annotations_view(v: Seq<BinaryAnnotation>) -> Seq<BinaryAnnotationView> {
    v.map_values(|a: BinaryAnnotation| a@)
}

/// The mathematical value of a span record.
pub ghost struct SpanView {
    pub trace_id: Option<i64>,
    pub name: Option<Seq<char>>,
    pub id: Option<i64>,
    pub parent_id: Option<i64>,
    pub annotations: Option<Seq<AnnotationView>>,
    pub binary_annotations: Option<Seq<BinaryAnnotationView>>,
    pub debug: Option<bool>,
    pub timestamp: Option<i64>,
    pub duration: Option<i64>,
    pub trace_id_high: Option<i64>,
}

impl View for Span {
    type V = SpanView;

    open spec fn view(&self) -> SpanView {
        SpanView {
            trace_id: self.trace_id,
            name: match self.name {
                Some(s) => Some(s@),
                None => None,
            },
            id: self.id,
            parent_id: self.parent_id,
            annotations: match self.annotations {
                Some(v) => Some(annotations_view(v@)),
                None => None,
            },
            binary_annotations: match self.binary_annotations {
                Some(v) => Some(binary_annotations_view(v@)),
                None => None,
            },
            debug: self.debug,
            timestamp: self.timestamp,
            duration: self.duration,
            trace_id_high: self.trace_id_high,
        }
    }
}

impl Span {
    /// Builds a span record field by field, in schema order.
    pub fn new(
        trace_id: Option<i64>,
        name: Option<String>,
        id: Option<i64>,
        parent_id: Option<i64>,
        annotations: Option<Vec<Annotation>>,
        binary_annotations: Option<Vec<BinaryAnnotation>>,
        debug: Option<bool>,
        timestamp: Option<i64>,
        duration: Option<i64>,
        trace_id_high: Option<i64>,
    ) -> (r: Span)
        ensures
            r.trace_id == trace_id,
            r.name == name,
            r.id == id,
            r.parent_id == parent_id,
            r.annotations == annotations,
            r.binary_annotations == binary_annotations,
            r.debug == debug,
            r.timestamp == timestamp,
            r.duration == duration,
            r.trace_id_high == trace_id_high,
    {
        Span {
            trace_id,
            name,
            id,
            parent_id,
            annotations,
            binary_annotations,
            debug,
            timestamp,
            duration,
            trace_id_high,
        }
    }
}


/// An optional signed 64-bit field, written as its two's-complement bits.
pub open spec fn enc_opt_i64_field(id: u16, v: Option<i64>) -> Seq<u8> {
    match v {
        Some(v) => seq![TT_I64] + be16(id) + be64(i64_bits(v)),
        None => Seq::<u8>::empty(),
    }
}

/// An optional signed 32-bit field.
pub open spec fn enc_opt_i32_field(id: u16, v: Option<i32>) -> Seq<u8> {
    match v {
        Some(v) => seq![TT_I32] + be16(id) + be32(i32_bits(v)),
        None => Seq::<u8>::empty(),
    }
}

/// An optional signed 16-bit field.
pub open spec fn enc_opt_i16_field(id: u16, v: Option<i16>) -> Seq<u8> {
    match v {
        Some(v) => seq![TT_I16] + be16(id) + be16(i16_bits(v)),
        None => Seq::<u8>::empty(),
    }
}

/// An optional bool field, one byte holding 0 or 1.
pub open spec fn enc_opt_bool_field_z(id: u16, v: Option<bool>) -> Seq<u8> {
    match v {
        Some(v) => seq![TT_BOOL] + be16(id) + seq![if v { 1u8 } else { 0u8 }],
        None => Seq::<u8>::empty(),
    }
}

/// An optional string field: length-prefixed UTF-8 text.
pub open spec fn enc_opt_str_field(id: u16, v: Option<Seq<char>>) -> Seq<u8> {
    match v {
        Some(s) => seq![TT_STRING] + be16(id) + enc_str(s),
        None => Seq::<u8>::empty(),
    }
}

/// An optional raw bytes field: length-prefixed bytes under the string tag.
pub open spec fn enc_opt_bytes_field(id: u16, v: Option<Seq<u8>>) -> Seq<u8> {
    match v {
        Some(b) => seq![TT_STRING] + be16(id) + be32(b.len() as u32) + b,
        None => Seq::<u8>::empty(),
    }
}

/// An endpoint struct: its present fields in schema order, then stop.
pub open spec fn enc_endpoint(e: EndpointView) -> Seq<u8> {
    enc_opt_i32_field(1, e.ipv4) + (enc_opt_i16_field(2, e.port) + (enc_opt_str_field(
        3,
        e.service_name,
    ) + (enc_opt_bytes_field(4, e.ipv6) + seq![TT_STOP])))
}

/// An optional endpoint struct field.
pub open spec fn enc_opt_endpoint_field(id: u16, v: Option<EndpointView>) -> Seq<u8> {
    match v {
        Some(e) => seq![TT_STRUCT] + be16(id) + enc_endpoint(e),
        None => Seq::<u8>::empty(),
    }
}

/// An annotation struct: timestamp, value, host, then stop.
pub open spec fn enc_annotation(a: AnnotationView) -> Seq<u8> {
    enc_opt_i64_field(1, a.timestamp) + (enc_opt_str_field(2, a.value) + (enc_opt_endpoint_field(
        3,
        a.host,
    ) + seq![TT_STOP]))
}

/// A binary annotation struct: key, value, type, host, then stop.
pub open spec fn enc_binary_annotation(a: BinaryAnnotationView) -> Seq<u8> {
    enc_opt_str_field(1, a.key) + (enc_opt_bytes_field(2, a.value) + (enc_opt_i32_field(
        3,
        match a.annotation_type {
            Some(t) => Some(annotation_type_value(t) as i32),
            None => None,
        },
    ) + (enc_opt_endpoint_field(4, a.host) + seq![TT_STOP])))
}

/// The elements of an annotation list, in order.
pub open spec fn enc_annotation_list(v: Seq<AnnotationView>) -> Seq<u8>
    decreases v.len(),
{
    if v.len() == 0 {
        Seq::<u8>::empty()
    } else {
        enc_annotation(v[0]) + enc_annotation_list(v.skip(1))
    }
}

/// The elements of a binary annotation list, in order.
pub open spec fn enc_binary_annotation_list(v: Seq<BinaryAnnotationView>) -> Seq<u8>
    decreases v.len(),
{
    if v.len() == 0 {
        Seq::<u8>::empty()
    } else {
        enc_binary_annotation(v[0]) + enc_binary_annotation_list(v.skip(1))
    }
}

/// An optional annotation list field: list header, then the elements.
pub open spec fn enc_opt_annotations_field(id: u16, v: Option<Seq<AnnotationView>>) -> Seq<u8> {
    match v {
        Some(v) => seq![TT_LIST] + be16(id) + seq![TT_STRUCT] + be32(v.len() as u32)
            + enc_annotation_list(v),
        None => Seq::<u8>::empty(),
    }
}

/// An optional binary annotation list field.
pub open spec fn enc_opt_binary_annotations_field(
    id: u16,
    v: Option<Seq<BinaryAnnotationView>>,
) -> Seq<u8> {
    match v {
        Some(v) => seq![TT_LIST] + be16(id) + seq![TT_STRUCT] + be32(v.len() as u32)
            + enc_binary_annotation_list(v),
        None => Seq::<u8>::empty(),
    }
}

/// The first half of a span's encoding: ids, name, annotations.
pub open spec fn enc_span_front(s: SpanView) -> Seq<u8> {
    enc_opt_i64_field(1, s.trace_id) + enc_opt_str_field(3, s.name) + enc_opt_i64_field(4, s.id)
        + enc_opt_i64_field(5, s.parent_id) + enc_opt_annotations_field(6, s.annotations)
}

/// The second half of a span's encoding: tags, flags, times, stop.
pub open spec fn enc_span_back(s: SpanView) -> Seq<u8> {
    enc_opt_binary_annotations_field(8, s.binary_annotations) + enc_opt_bool_field_z(9, s.debug)
        + enc_opt_i64_field(10, s.timestamp) + enc_opt_i64_field(11, s.duration)
        + enc_opt_i64_field(12, s.trace_id_high) + seq![TT_STOP]
}

/// A whole span record: its present fields in schema order, then stop.
pub open spec fn enc_span(s: SpanView) -> Seq<u8> {
    enc_span_front(s) + enc_span_back(s)
}

/// An endpoint whose strings fit the wire's 32-bit length prefixes.
pub open spec fn endpoint_encodable(e: EndpointView) -> bool {
    &&& (match e.service_name {
        Some(s) => str_encodable(s),
        None => true,
    })
    &&& (match e.ipv6 {
        Some(b) => b.len() < 0x8000_0000,
        None => true,
    })
}

/// An annotation whose strings and endpoint fit the wire limits.
pub open spec fn annotation_encodable(a: AnnotationView) -> bool {
    &&& (match a.value {
        Some(s) => str_encodable(s),
        None => true,
    })
    &&& (match a.host {
        Some(e) => endpoint_encodable(e),
        None => true,
    })
}

/// A binary annotation whose strings and endpoint fit the wire limits.
pub open spec fn binary_annotation_encodable(a: BinaryAnnotationView) -> bool {
    &&& (match a.key {
        Some(s) => str_encodable(s),
        None => true,
    })
    &&& (match a.value {
        Some(b) => b.len() < 0x8000_0000,
        None => true,
    })
    &&& (match a.host {
        Some(e) => endpoint_encodable(e),
        None => true,
    })
}

/// A span whose strings, lists and nested records fit the wire limits.
pub open spec fn span_encodable(s: SpanView) -> bool {
    &&& (match s.name {
        Some(n) => str_encodable(n),
        None => true,
    })
    &&& (match s.annotations {
        Some(v) => v.len() < 0x8000_0000 && (forall|i: int|
            0 <= i < v.len() ==> annotation_encodable(#[trigger] v[i])),
        None => true,
    })
    &&& (match s.binary_annotations {
        Some(v) => v.len() < 0x8000_0000 && (forall|i: int|
            0 <= i < v.len() ==> binary_annotation_encodable(#[trigger] v[i])),
        None => true,
    })
}


/// Appends an optional signed 64-bit field.
fn write_opt_i64_field(out: &mut Vec<u8>, id: u16, v: Option<i64>)
    ensures
        final(out)@ == old(out)@ + enc_opt_i64_field(id, v),
{
    if let Some(v) = v {
        crate::tracer::binary_format::write_field_header(out, TT_I64, id);
        crate::wire::write_u64_be(out, i64_to_bits(v));
        assert(out@ =~= old(out)@ + enc_opt_i64_field(id, Some(v)));
    } else {
        assert(out@ =~= old(out)@ + enc_opt_i64_field(id, None::<i64>));
    }
}

/// Appends an optional signed 32-bit field.
fn write_opt_i32_field(out: &mut Vec<u8>, id: u16, v: Option<i32>)
    ensures
        final(out)@ == old(out)@ + enc_opt_i32_field(id, v),
{
    if let Some(v) = v {
        crate::tracer::binary_format::write_field_header(out, TT_I32, id);
        crate::wire::write_u32_be(out, i32_to_bits(v));
        assert(out@ =~= old(out)@ + enc_opt_i32_field(id, Some(v)));
    } else {
        assert(out@ =~= old(out)@ + enc_opt_i32_field(id, None::<i32>));
    }
}

/// Appends an optional signed 16-bit field.
fn write_opt_i16_field(out: &mut Vec<u8>, id: u16, v: Option<i16>)
    ensures
        final(out)@ == old(out)@ + enc_opt_i16_field(id, v),
{
    if let Some(v) = v {
        crate::tracer::binary_format::write_field_header(out, TT_I16, id);
        crate::wire::write_u16_be(out, i16_to_bits(v));
        assert(out@ =~= old(out)@ + enc_opt_i16_field(id, Some(v)));
    } else {
        assert(out@ =~= old(out)@ + enc_opt_i16_field(id, None::<i16>));
    }
}

/// Appends an optional bool field.
fn write_opt_bool_field(out: &mut Vec<u8>, id: u16, v: Option<bool>)
    ensures
        final(out)@ == old(out)@ + enc_opt_bool_field_z(id, v),
{
    if let Some(v) = v {
        crate::tracer::binary_format::write_field_header(out, TT_BOOL, id);
        out.push(if v { 1 } else { 0 });
        assert(out@ =~= old(out)@ + enc_opt_bool_field_z(id, Some(v)));
    } else {
        assert(out@ =~= old(out)@ + enc_opt_bool_field_z(id, None::<bool>));
    }
}

/// Appends an optional string field.
fn write_opt_str_field(out: &mut Vec<u8>, id: u16, v: &Option<String>)
    requires
        match v {
            Some(s) => str_encodable(s@),
            None => true,
        },
    ensures
        final(out)@ == old(out)@ + enc_opt_str_field(
            id,
            match v {
                Some(s) => Some(s@),
                None => None,
            },
        ),
{
    if let Some(s) = v {
        crate::tracer::binary_format::write_field_header(out, TT_STRING, id);
        crate::tracer::binary_format::write_str(out, s);
        assert(out@ =~= old(out)@ + enc_opt_str_field(id, Some(s@)));
    } else {
        assert(out@ =~= old(out)@ + enc_opt_str_field(id, None::<Seq<char>>));
    }
}

/// Appends an optional raw bytes field.
fn write_opt_bytes_field(out: &mut Vec<u8>, id: u16, v: &Option<Vec<u8>>)
    requires
        match v {
            Some(b) => b@.len() < 0x8000_0000,
            None => true,
        },
    ensures
        final(out)@ == old(out)@ + enc_opt_bytes_field(
            id,
            match v {
                Some(b) => Some(b@),
                None => None,
            },
        ),
{
    if let Some(b) = v {
        crate::tracer::binary_format::write_field_header(out, TT_STRING, id);
        crate::wire::write_u32_be(out, b.len() as u32);
        let mut copy = b.clone();
        out.append(&mut copy);
        assert(out@ =~= old(out)@ + enc_opt_bytes_field(id, Some(b@)));
    } else {
        assert(out@ =~= old(out)@ + enc_opt_bytes_field(id, None::<Seq<u8>>));
    }
}

impl Endpoint {
    /// Appends the endpoint's wire encoding.
    fn write_to_wire(&self, out: &mut Vec<u8>)
        requires
            endpoint_encodable(self@),
        ensures
            final(out)@ == old(out)@ + enc_endpoint(self@),
    {
        write_opt_i32_field(out, 1, self.ipv4);
        write_opt_i16_field(out, 2, self.port);
        write_opt_str_field(out, 3, &self.service_name);
        write_opt_bytes_field(out, 4, &self.ipv6);
        out.push(TT_STOP);
        assert(out@ =~= old(out)@ + enc_endpoint(self@));
    }
}

/// Appends an optional endpoint struct field.
fn write_opt_endpoint_field(out: &mut Vec<u8>, id: u16, v: &Option<Endpoint>)
    requires
        match v {
            Some(e) => endpoint_encodable(e@),
            None => true,
        },
    ensures
        final(out)@ == old(out)@ + enc_opt_endpoint_field(
            id,
            match v {
                Some(e) => Some(e@),
                None => None,
            },
        ),
{
    if let Some(e) = v {
        crate::tracer::binary_format::write_field_header(out, TT_STRUCT, id);
        e.write_to_wire(out);
        assert(out@ =~= old(out)@ + enc_opt_endpoint_field(id, Some(e@)));
    } else {
        assert(out@ =~= old(out)@ + enc_opt_endpoint_field(id, None::<EndpointView>));
    }
}

impl Annotation {
    /// Appends the annotation's wire encoding.
    fn write_to_wire(&self, out: &mut Vec<u8>)
        requires
            annotation_encodable(self@),
        ensures
            final(out)@ == old(out)@ + enc_annotation(self@),
    {
        write_opt_i64_field(out, 1, self.timestamp);
        write_opt_str_field(out, 2, &self.value);
        write_opt_endpoint_field(out, 3, &self.host);
        out.push(TT_STOP);
        assert(out@ =~= old(out)@ + enc_annotation(self@));
    }
}

impl BinaryAnnotation {
    /// Appends the binary annotation's wire encoding.
    #[verifier::rlimit(60)]
    fn write_to_wire(&self, out: &mut Vec<u8>)
        requires
            binary_annotation_encodable(self@),
        ensures
            final(out)@ == old(out)@ + enc_binary_annotation(self@),
    {
        write_opt_str_field(out, 1, &self.key);
        write_opt_bytes_field(out, 2, &self.value);
        let at: Option<i32> = match &self.annotation_type {
            Some(t) => Some(t.wire_value() as i32),
            None => None,
        };
        write_opt_i32_field(out, 3, at);
        write_opt_endpoint_field(out, 4, &self.host);
        out.push(TT_STOP);
        assert(out@ =~= old(out)@ + enc_binary_annotation(self@));
    }
}

/// Extending an annotation list's encoding by one element appends that
/// element's encoding.
proof fn lemma_enc_annotation_list_snoc(v: Seq<AnnotationView>, i: int)
    requires
        0 <= i < v.len(),
    ensures
        enc_annotation_list(v.take(i + 1)) == enc_annotation_list(v.take(i)) + enc_annotation(
            v[i],
        ),
    decreases i,
{
    if i == 0 {
        let t1 = v.take(1);
        assert(t1[0] == v[0]);
        assert(t1.skip(1) =~= Seq::<AnnotationView>::empty());
        assert(enc_annotation_list(Seq::<AnnotationView>::empty()) == Seq::<u8>::empty());
        assert(v.take(0) =~= Seq::<AnnotationView>::empty());
        assert(enc_annotation_list(t1) =~= enc_annotation(v[0]));
    } else {
        let rest = v.skip(1);
        lemma_enc_annotation_list_snoc(rest, i - 1);
        let ti1 = v.take(i + 1);
        let ti = v.take(i);
        assert(ti1[0] == v[0]);
        assert(ti[0] == v[0]);
        assert(ti1.skip(1) =~= rest.take(i));
        assert(ti.skip(1) =~= rest.take(i - 1));
        assert(rest[i - 1] == v[i]);
        assert(enc_annotation_list(ti1) =~= enc_annotation_list(ti) + enc_annotation(v[i]));
    }
}

/// Extending a binary annotation list's encoding by one element appends
/// that element's encoding.
proof fn lemma_enc_binary_annotation_list_snoc(v: Seq<BinaryAnnotationView>, i: int)
    requires
        0 <= i < v.len(),
    ensures
        enc_binary_annotation_list(v.take(i + 1)) == enc_binary_annotation_list(v.take(i))
            + enc_binary_annotation(v[i]),
    decreases i,
{
    if i == 0 {
        let t1 = v.take(1);
        assert(t1[0] == v[0]);
        assert(t1.skip(1) =~= Seq::<BinaryAnnotationView>::empty());
        assert(enc_binary_annotation_list(Seq::<BinaryAnnotationView>::empty())
            == Seq::<u8>::empty());
        assert(v.take(0) =~= Seq::<BinaryAnnotationView>::empty());
        assert(enc_binary_annotation_list(t1) =~= enc_binary_annotation(v[0]));
    } else {
        let rest = v.skip(1);
        lemma_enc_binary_annotation_list_snoc(rest, i - 1);
        let ti1 = v.take(i + 1);
        let ti = v.take(i);
        assert(ti1[0] == v[0]);
        assert(ti[0] == v[0]);
        assert(ti1.skip(1) =~= rest.take(i));
        assert(ti.skip(1) =~= rest.take(i - 1));
        assert(rest[i - 1] == v[i]);
        assert(enc_binary_annotation_list(ti1) =~= enc_binary_annotation_list(ti)
            + enc_binary_annotation(v[i]));
    }
}

/// Appends an optional annotation list field.
fn write_opt_annotations_field(out: &mut Vec<u8>, id: u16, v: &Option<Vec<Annotation>>)
    requires
        match v {
            Some(v) => v@.len() < 0x8000_0000 && (forall|i: int|
                0 <= i < v@.len() ==> annotation_encodable(#[trigger] annotations_view(v@)[i])),
            None => true,
        },
    ensures
        final(out)@ == old(out)@ + enc_opt_annotations_field(
            id,
            match v {
                Some(v) => Some(annotations_view(v@)),
                None => None,
            },
        ),
{
    if let Some(v) = v {
        let ghost gv = annotations_view(v@);
        crate::tracer::binary_format::write_field_header(out, TT_LIST, id);
        out.push(TT_STRUCT);
        crate::wire::write_u32_be(out, v.len() as u32);
        let ghost header = old(out)@ + seq![TT_LIST] + be16(id) + seq![TT_STRUCT] + be32(
            v@.len() as u32,
        );
        proof {
            assert(enc_annotation_list(gv.take(0)) =~= Seq::<u8>::empty());
            assert(out@ =~= header + enc_annotation_list(gv.take(0)));
        }
        let mut i: usize = 0;
        while i < v.len()
            invariant
                gv == annotations_view(v@),
                gv.len() == v@.len(),
                forall|j: int| 0 <= j < v@.len() ==> annotation_encodable(
                    #[trigger] annotations_view(v@)[j],
                ),
                i <= v@.len(),
                out@ == header + enc_annotation_list(gv.take(i as int)),
            decreases v@.len() - i,
        {
            proof {
                assert(gv[i as int] == v@[i as int]@);
                lemma_enc_annotation_list_snoc(gv, i as int);
                assert(annotation_encodable(gv[i as int]));
            }
            v[i].write_to_wire(out);
            proof {
                assert(out@ =~= header + enc_annotation_list(gv.take(i + 1)));
            }
            i += 1;
        }
        proof {
            assert(gv.take(gv.len() as int) =~= gv);
            assert(out@ =~= old(out)@ + enc_opt_annotations_field(id, Some(gv)));
        }
    } else {
        assert(out@ =~= old(out)@ + enc_opt_annotations_field(id, None::<Seq<AnnotationView>>));
    }
}

/// Appends an optional binary annotation list field.
fn write_opt_binary_annotations_field(out: &mut Vec<u8>, id: u16, v: &Option<Vec<BinaryAnnotation>>)
    requires
        match v {
            Some(v) => v@.len() < 0x8000_0000 && (forall|i: int|
                0 <= i < v@.len() ==> binary_annotation_encodable(
                    #[trigger] binary_annotations_view(v@)[i],
                )),
            None => true,
        },
    ensures
        final(out)@ == old(out)@ + enc_opt_binary_annotations_field(
            id,
            match v {
                Some(v) => Some(binary_annotations_view(v@)),
                None => None,
            },
        ),
{
    if let Some(v) = v {
        let ghost gv = binary_annotations_view(v@);
        crate::tracer::binary_format::write_field_header(out, TT_LIST, id);
        out.push(TT_STRUCT);
        crate::wire::write_u32_be(out, v.len() as u32);
        let ghost header = old(out)@ + seq![TT_LIST] + be16(id) + seq![TT_STRUCT] + be32(
            v@.len() as u32,
        );
        proof {
            assert(enc_binary_annotation_list(gv.take(0)) =~= Seq::<u8>::empty());
            assert(out@ =~= header + enc_binary_annotation_list(gv.take(0)));
        }
        let mut i: usize = 0;
        while i < v.len()
            invariant
                gv == binary_annotations_view(v@),
                gv.len() == v@.len(),
                forall|j: int| 0 <= j < v@.len() ==> binary_annotation_encodable(
                    #[trigger] binary_annotations_view(v@)[j],
                ),
                i <= v@.len(),
                out@ == header + enc_binary_annotation_list(gv.take(i as int)),
            decreases v@.len() - i,
        {
            proof {
                assert(gv[i as int] == v@[i as int]@);
                lemma_enc_binary_annotation_list_snoc(gv, i as int);
                assert(binary_annotation_encodable(gv[i as int]));
            }
            v[i].write_to_wire(out);
            proof {
                assert(out@ =~= header + enc_binary_annotation_list(gv.take(i + 1)));
            }
            i += 1;
        }
        proof {
            assert(gv.take(gv.len() as int) =~= gv);
            assert(out@ =~= old(out)@ + enc_opt_binary_annotations_field(id, Some(gv)));
        }
    } else {
        assert(out@ =~= old(out)@ + enc_opt_binary_annotations_field(
            id,
            None::<Seq<BinaryAnnotationView>>,
        ));
    }
}

/// Appends the first half of the span's encoding.
#[verifier::rlimit(60)]
fn write_span_front(s: &Span, out: &mut Vec<u8>)
    requires
        span_encodable(s@),
    ensures
        final(out)@ == old(out)@ + enc_span_front(s@),
{
    write_opt_i64_field(out, 1, s.trace_id);
    write_opt_str_field(out, 3, &s.name);
    write_opt_i64_field(out, 4, s.id);
    write_opt_i64_field(out, 5, s.parent_id);
    write_opt_annotations_field(out, 6, &s.annotations);
    assert(out@ =~= old(out)@ + enc_span_front(s@));
}

/// Appends the second half of the span's encoding.
#[verifier::rlimit(60)]
fn write_span_back(s: &Span, out: &mut Vec<u8>)
    requires
        span_encodable(s@),
    ensures
        final(out)@ == old(out)@ + enc_span_back(s@),
{
    write_opt_binary_annotations_field(out, 8, &s.binary_annotations);
    write_opt_bool_field(out, 9, s.debug);
    write_opt_i64_field(out, 10, s.timestamp);
    write_opt_i64_field(out, 11, s.duration);
    write_opt_i64_field(out, 12, s.trace_id_high);
    out.push(TT_STOP);
    assert(out@ =~= old(out)@ + enc_span_back(s@));
}

impl Span {
    /// Appends the span's wire encoding: the present fields in schema
    /// order, then the stop tag.
    pub fn write_to_wire(&self, out: &mut Vec<u8>)
        requires
            span_encodable(self@),
        ensures
            final(out)@ == old(out)@ + enc_span(self@),
    {
        write_span_front(self, out);
        write_span_back(self, out);
        proof {
            assert(out@ =~= old(out)@ + enc_span(self@));
        }
    }
}


/// The spans as mathematical values.
pub open spec fn spans_view(v: Seq<Span>) -> Seq<SpanView> {
    v.map_values(|s: Span| s@)
}

/// The encodings of a list of spans, in order.
pub open spec fn enc_span_list(v: Seq<SpanView>) -> Seq<u8>
    decreases v.len(),
{
    if v.len() == 0 {
        Seq::<u8>::empty()
    } else {
        enc_span(v[0]) + enc_span_list(v.skip(1))
    }
}

/// A batch of spans: a list header (struct element type and count), then
/// each span's encoding.
pub open spec fn enc_span_batch(v: Seq<SpanView>) -> Seq<u8> {
    seq![TT_STRUCT] + be32(v.len() as u32) + enc_span_list(v)
}

/// Extending a span list's encoding by one span appends that span's
/// encoding.
#[verifier::rlimit(100)]
pub proof fn lemma_enc_span_list_snoc(v: Seq<SpanView>, i: int)
    requires
        0 <= i < v.len(),
    ensures
        enc_span_list(v.take(i + 1)) == enc_span_list(v.take(i)) + enc_span(v[i]),
    decreases i,
{
    if i == 0 {
        let t1 = v.take(1);
        assert(t1[0] == v[0]);
        assert(t1.skip(1) =~= Seq::<SpanView>::empty());
        assert(enc_span_list(Seq::<SpanView>::empty()) == Seq::<u8>::empty());
        assert(v.take(0) =~= Seq::<SpanView>::empty());
        assert(enc_span_list(t1) =~= enc_span(v[0]));
    } else {
        let rest = v.skip(1);
        lemma_enc_span_list_snoc(rest, i - 1);
        let ti1 = v.take(i + 1);
        let ti = v.take(i);
        assert(ti1[0] == v[0]);
        assert(ti[0] == v[0]);
        assert(ti1.skip(1) =~= rest.take(i));
        assert(ti.skip(1) =~= rest.take(i - 1));
        assert(rest[i - 1] == v[i]);
        assert(enc_span_list(ti1) =~= enc_span_list(ti) + enc_span(v[i]));
    }
}

/// Whether a string's UTF-8 byte length fits a 32-bit wire prefix.
fn string_fits_wire(s: &String) -> (r: bool)
    ensures
        r == str_encodable(s@),
{
    let bytes = s.as_str().as_bytes();
    bytes.len() < 0x8000_0000
}

/// Whether an endpoint fits the wire's length prefixes.
pub fn endpoint_fits_wire(e: &Endpoint) -> (r: bool)
    ensures
        r == endpoint_encodable(e@),
{
    let name_ok = match &e.service_name {
        Some(s) => string_fits_wire(s),
        None => true,
    };
    let ipv6_ok = match &e.ipv6 {
        Some(b) => b.len() < 0x8000_0000,
        None => true,
    };
    name_ok && ipv6_ok
}

/// Whether an annotation fits the wire's length prefixes.
pub fn annotation_fits_wire(a: &Annotation) -> (r: bool)
    ensures
        r == annotation_encodable(a@),
{
    let value_ok = match &a.value {
        Some(s) => string_fits_wire(s),
        None => true,
    };
    let host_ok = match &a.host {
        Some(e) => endpoint_fits_wire(e),
        None => true,
    };
    value_ok && host_ok
}

/// Whether a binary annotation fits the wire's length prefixes.
pub fn binary_annotation_fits_wire(a: &BinaryAnnotation) -> (r: bool)
    ensures
        r == binary_annotation_encodable(a@),
{
    let key_ok = match &a.key {
        Some(s) => string_fits_wire(s),
        None => true,
    };
    let value_ok = match &a.value {
        Some(b) => b.len() < 0x8000_0000,
        None => true,
    };
    let host_ok = match &a.host {
        Some(e) => endpoint_fits_wire(e),
        None => true,
    };
    key_ok && value_ok && host_ok
}

/// Whether a span record fits the wire's length prefixes, so that its
/// encoding is well formed.
pub fn span_fits_wire(s: &Span) -> (r: bool)
    ensures
        r == span_encodable(s@),
{
    let name_ok = match &s.name {
        Some(n) => string_fits_wire(n),
        None => true,
    };
    if !name_ok {
        return false;
    }
    if let Some(v) = &s.annotations {
        if v.len() >= 0x8000_0000 {
            return false;
        }
        let mut i: usize = 0;
        while i < v.len()
            invariant
                s@.annotations == Some(annotations_view(v@)),
                i <= v@.len(),
                forall|j: int| 0 <= j < i ==> annotation_encodable(
                    #[trigger] annotations_view(v@)[j],
                ),
            decreases v@.len() - i,
        {
            proof {
                assert(annotations_view(v@)[i as int] == v@[i as int]@);
            }
            if !annotation_fits_wire(&v[i]) {
                proof {
                    assert(!annotation_encodable(annotations_view(v@)[i as int]));
                }
                return false;
            }
            i += 1;
        }
    }
    if let Some(v) = &s.binary_annotations {
        if v.len() >= 0x8000_0000 {
            return false;
        }
        let mut i: usize = 0;
        while i < v.len()
            invariant
                s@.binary_annotations == Some(binary_annotations_view(v@)),
                i <= v@.len(),
                forall|j: int| 0 <= j < i ==> binary_annotation_encodable(
                    #[trigger] binary_annotations_view(v@)[j],
                ),
            decreases v@.len() - i,
        {
            proof {
                assert(binary_annotations_view(v@)[i as int] == v@[i as int]@);
            }
            if !binary_annotation_fits_wire(&v[i]) {
                proof {
                    assert(!binary_annotation_encodable(binary_annotations_view(v@)[i as int]));
                }
                return false;
            }
            i += 1;
        }
    }
    true
}

} // verus!
