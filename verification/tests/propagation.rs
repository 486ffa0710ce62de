use std::collections::HashMap;
use std::str::FromStr;

use thrift::protocol::TBinaryInputProtocol;
use thrift::protocol::TBinaryOutputProtocol;
use thrift::protocol::TFieldIdentifier;
use thrift::protocol::TInputProtocol;
use thrift::protocol::TMapIdentifier;
use thrift::protocol::TOutputProtocol;
use thrift::protocol::TType;
use thrift::transport::TBufferedReadTransport;
use thrift::transport::TBufferedWriteTransport;

use opentracingrust_zipkin::TraceID;
use opentracingrust_zipkin::ZipkinContext;
use opentracingrust_zipkin::ZipkinContextOptions;
use opentracingrust_zipkin::tracer::extract;
use opentracingrust_zipkin::tracer::inject;

fn sorted_baggage(context: &ZipkinContext) -> Vec<(String, String)> {
    let mut items: Vec<(String, String)> = context
        .baggage_items()
        .iter()
        .map(|(k, v)| (k.clone(), v.clone()))
        .collect();
    items.sort();
    items
}

#[test]
fn test_binary_decoding() {
    // Mock a wire record with the thrift binary protocol.
    let mut buffer: Vec<u8> = Vec::new();
    {
        let transport = TBufferedWriteTransport::new(&mut buffer);
        let mut protocol = TBinaryOutputProtocol::new(transport, true);
        protocol
            .write_field_begin(&TFieldIdentifier::new("trace_id", TType::I64, 1))
            .unwrap();
        protocol.write_i64(651345242494996240).unwrap();
        protocol.write_field_end().unwrap();
        protocol
            .write_field_begin(&TFieldIdentifier::new("trace_id_high", TType::I64, 2))
            .unwrap();
        protocol.write_i64(72623859790382856).unwrap();
        protocol.write_field_end().unwrap();
        protocol
            .write_field_begin(&TFieldIdentifier::new("span_id", TType::I64, 3))
            .unwrap();
        protocol.write_i64(42).unwrap();
        protocol.write_field_end().unwrap();
        protocol
            .write_field_begin(&TFieldIdentifier::new("parent_span_id", TType::I64, 4))
            .unwrap();
        protocol.write_i64(42).unwrap();
        protocol.write_field_end().unwrap();
        protocol
            .write_field_begin(&TFieldIdentifier::new("sampled", TType::Bool, 5))
            .unwrap();
        protocol.write_bool(true).unwrap();
        protocol.write_field_end().unwrap();
        protocol
            .write_field_begin(&TFieldIdentifier::new("flags", TType::I32, 6))
            .unwrap();
        protocol.write_i32(1).unwrap();
        protocol.write_field_end().unwrap();
        protocol
            .write_field_begin(&TFieldIdentifier::new("baggage_items", TType::Map, 7))
            .unwrap();
        protocol
            .write_map_begin(&TMapIdentifier::new(TType::String, TType::String, 3))
            .unwrap();
        for (key, value) in [("a", "1"), ("b", "2"), ("c", "3")] {
            protocol.write_string(key).unwrap();
            protocol.write_string(value).unwrap();
        }
        protocol.write_map_end().unwrap();
        protocol.write_field_end().unwrap();
        protocol.write_field_stop().unwrap();
        protocol.flush().unwrap();
    }

    // Decode the buffer into a context.
    let inner = extract::binary(&buffer).unwrap().unwrap();

    // Check content.
    assert_eq!(inner.debug(), true);
    assert_eq!(inner.parent_span_id().unwrap(), 42);
    assert_eq!(inner.sampled(), true);
    assert_eq!(inner.span_id(), 42);
    assert_eq!(
        inner.trace_id(),
        &TraceID::from_str("0102030405060708090a0b0c0d0e0f10").unwrap()
    );

    let items = sorted_baggage(&inner);
    assert_eq!(items, vec![
        (String::from("a"), String::from("1")),
        (String::from("b"), String::from("2")),
        (String::from("c"), String::from("3"))
    ]);
}

#[test]
fn test_http_headers_decoding() {
    // Build a headers list.
    let mut headers: Vec<(String, String)> = Vec::new();
    headers.push((
        String::from("X-B3-TraceId"),
        String::from("0102030405060708090a0b0c0d0e0f10"),
    ));
    headers.push((String::from("X-B3-SpanId"), String::from("2a")));
    headers.push((String::from("X-B3-ParentSpanId"), String::from("2a")));
    headers.push((String::from("X-B3-Flags"), String::from("1")));
    headers.push((String::from("X-B3-Sampled"), String::from("1")));
    headers.push((String::from("OT-Baggage-a"), String::from("1")));
    headers.push((String::from("OT-Baggage-b"), String::from("2")));
    headers.push((String::from("OT-Baggage-c"), String::from("3")));

    // Check content.
    let inner = extract::http_headers(&headers).unwrap().unwrap();
    assert_eq!(
        inner.trace_id(),
        &TraceID::from_str("0102030405060708090a0b0c0d0e0f10").unwrap()
    );
    assert_eq!(inner.span_id(), 42);
    assert_eq!(inner.parent_span_id().unwrap(), 42);
    assert_eq!(inner.debug(), true);
    assert_eq!(inner.sampled(), true);

    let items = sorted_baggage(&inner);
    assert_eq!(items, vec![
        (String::from("a"), String::from("1")),
        (String::from("b"), String::from("2")),
        (String::from("c"), String::from("3"))
    ]);
}

fn make_context() -> ZipkinContext {
    let options = ZipkinContextOptions::default()
        .debug(true)
        .sampled(true)
        .span_id(42)
        .trace_id(TraceID::from_str("0102030405060708090a0b0c0d0e0f10").unwrap());
    let mut context = ZipkinContext::new_with_options(options);
    context.set_baggage_item(String::from("a"), String::from("1"));
    context.set_baggage_item(String::from("b"), String::from("2"));
    context.set_baggage_item(String::from("c"), String::from("3"));
    context
}

#[test]
fn test_binary_encoding() {
    // Encode the context in memory.
    let context = make_context();
    let buffer = inject::binary(&context).unwrap();
    assert_ne!(buffer.len(), 0);

    // Decode the record from memory with the thrift binary protocol.
    let transport = TBufferedReadTransport::new(std::io::Cursor::new(buffer));
    let mut protocol = TBinaryInputProtocol::new(transport, true);
    let mut trace_id: Option<i64> = None;
    let mut trace_id_high: Option<i64> = None;
    let mut span_id: Option<i64> = None;
    let mut parent_span_id: Option<i64> = None;
    let mut sampled: Option<bool> = None;
    let mut flags: Option<i32> = None;
    let mut items: Vec<(String, String)> = Vec::new();
    loop {
        let field = protocol.read_field_begin().unwrap();
        if field.field_type == TType::Stop {
            break;
        }
        match field.id.unwrap() {
            1 => trace_id = Some(protocol.read_i64().unwrap()),
            2 => trace_id_high = Some(protocol.read_i64().unwrap()),
            3 => span_id = Some(protocol.read_i64().unwrap()),
            4 => parent_span_id = Some(protocol.read_i64().unwrap()),
            5 => sampled = Some(protocol.read_bool().unwrap()),
            6 => flags = Some(protocol.read_i32().unwrap()),
            7 => {
                let map = protocol.read_map_begin().unwrap();
                for _ in 0..map.size {
                    let key = protocol.read_string().unwrap();
                    let value = protocol.read_string().unwrap();
                    items.push((key, value));
                }
                protocol.read_map_end().unwrap();
            },
            _ => panic!("Unexpected field in encoded context"),
        }
        protocol.read_field_end().unwrap();
    }

    // Validate content: field 1 carries the low half, field 2 the high.
    assert_eq!(trace_id.unwrap(), 651345242494996240);
    assert_eq!(trace_id_high.unwrap(), 72623859790382856);
    assert_eq!(span_id.unwrap(), 42);
    assert_eq!(parent_span_id, None);
    assert_eq!(sampled.unwrap(), true);
    assert_eq!(flags.unwrap(), 1);
    items.sort();
    assert_eq!(items, [
        (String::from("a"), String::from("1")),
        (String::from("b"), String::from("2")),
        (String::from("c"), String::from("3")),
    ]);
}

#[test]
fn test_headers_encoding() {
    // Encode the context in memory.
    let mut context = make_context();
    context.reference_span(&opentracingrust_zipkin::tracer::context::SpanReference::ChildOf(
        make_context(),
    ));
    let header_list = inject::http_headers(&context);
    let headers: HashMap<String, String> = header_list.into_iter().collect();

    // Validate content.
    assert_eq!(headers.get("X-B3-ParentSpanId").unwrap(), "2a");
    assert_eq!(headers.get("X-B3-Sampled").unwrap(), "1");
    assert_eq!(headers.get("X-B3-SpanId").unwrap(), "2a");
    assert_eq!(headers.get("X-B3-TraceId").unwrap(), "0102030405060708090a0b0c0d0e0f10");
    assert_eq!(headers.get("OT-Baggage-a").unwrap(), "1");
    assert_eq!(headers.get("OT-Baggage-b").unwrap(), "2");
    assert_eq!(headers.get("OT-Baggage-c").unwrap(), "3");
}

#[test]
fn binary_carrier_round_trip() {
    let context = make_context();
    let buffer = inject::binary(&context).unwrap();
    let back = extract::binary(&buffer).unwrap().unwrap();
    assert_eq!(back.trace_id(), context.trace_id());
    assert_eq!(back.span_id(), context.span_id());
    assert_eq!(back.parent_span_id(), context.parent_span_id());
    assert_eq!(back.debug(), context.debug());
    assert_eq!(back.sampled(), context.sampled());
    assert_eq!(sorted_baggage(&back), sorted_baggage(&context));
}

#[test]
fn binary_carrier_keeps_unicode_baggage() {
    let mut context = make_context();
    context.set_baggage_item(String::from("caf\u{e9}"), String::from("cr\u{e8}me"));
    let buffer = inject::binary(&context).unwrap();
    let back = extract::binary(&buffer).unwrap().unwrap();
    assert_eq!(sorted_baggage(&back), sorted_baggage(&context));
}

#[test]
fn b3_headers_round_trip() {
    let mut context = make_context();
    context.set_baggage_item(String::from("d"), String::from("4"));
    let headers = inject::http_headers(&context);
    let back = extract::http_headers(&headers).unwrap().unwrap();
    assert_eq!(back.trace_id(), context.trace_id());
    assert_eq!(back.span_id(), context.span_id());
    assert_eq!(back.parent_span_id(), context.parent_span_id());
    assert_eq!(back.debug(), context.debug());
    assert_eq!(back.sampled(), context.sampled());
    assert_eq!(sorted_baggage(&back), sorted_baggage(&context));
}

#[test]
fn b3_missing_trace_id_is_no_context() {
    let headers: Vec<(String, String)> = vec![(String::from("X-B3-SpanId"), String::from("2a"))];
    let result = extract::http_headers(&headers).unwrap();
    assert!(result.is_none());
}

#[test]
fn b3_missing_span_id_is_an_error() {
    let headers: Vec<(String, String)> = vec![(
        String::from("X-B3-TraceId"),
        String::from("0102030405060708090a0b0c0d0e0f10"),
    )];
    assert!(extract::http_headers(&headers).is_err());
}

#[test]
fn b3_sampled_defaults_to_true() {
    let headers: Vec<(String, String)> = vec![
        (
            String::from("X-B3-TraceId"),
            String::from("0102030405060708090a0b0c0d0e0f10"),
        ),
        (String::from("X-B3-SpanId"), String::from("2a")),
    ];
    let inner = extract::http_headers(&headers).unwrap().unwrap();
    assert_eq!(inner.sampled(), true);
    assert_eq!(inner.debug(), false);
    assert_eq!(inner.parent_span_id(), None);
}

#[test]
fn binary_missing_span_id_is_an_error() {
    let options = ZipkinContextOptions::default()
        .span_id(42)
        .trace_id(TraceID::from_str("0102030405060708090a0b0c0d0e0f10").unwrap());
    let context = ZipkinContext::new_with_options(options);
    let buffer = inject::binary(&context).unwrap();
    // Truncating before the span id field (two 11-byte i64 fields in)
    // leaves a record without it: the stop tag alone follows.
    let mut truncated: Vec<u8> = buffer[0..22].to_vec();
    truncated.push(0);
    let result = extract::binary(&truncated);
    assert!(result.is_err());
}

#[test]
fn binary_garbage_is_an_error() {
    let buffer: Vec<u8> = vec![0x0B, 0x00, 0x09, 0xff, 0xff, 0xff];
    assert!(extract::binary(&buffer).is_err());
}
