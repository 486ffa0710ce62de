use std::str::FromStr;

use opentracingrust_zipkin::TraceID;
use opentracingrust_zipkin::ZipkinContext;
use opentracingrust_zipkin::ZipkinContextOptions;
use opentracingrust_zipkin::tracer::context::SpanReference;

#[test]
fn new_span_with_defaults() {
    let context = ZipkinContext::new();
    assert_eq!(context.debug(), false);
    assert_eq!(context.sampled(), true);
}

#[test]
fn new_span_with_options() {
    let options = ZipkinContextOptions::default()
        .debug(true)
        .sampled(false)
        .span_id(42)
        .trace_id(TraceID::from_str("0102030405060708090a0b0c0d0e0f10").unwrap());
    let context = ZipkinContext::new_with_options(options);
    assert_eq!(context.debug(), true);
    assert_eq!(context.sampled(), false);
    assert_eq!(context.span_id(), 42);
    assert_eq!(
        context.trace_id(),
        &TraceID::from_str("0102030405060708090a0b0c0d0e0f10").unwrap()
    );
}

fn mock_context() -> ZipkinContext {
    let options = ZipkinContextOptions::default()
        .debug(true)
        .sampled(false)
        .trace_id(TraceID::from_str("0102030405060708090a0b0c0d0e0f10").unwrap());
    ZipkinContext::new_with_options(options)
}

#[test]
fn child_of_updates_details() {
    let child_of = mock_context();
    let child_of = SpanReference::ChildOf(child_of);
    let mut context = ZipkinContext::new();
    context.reference_span(&child_of);
    assert_eq!(context.debug(), true);
    assert_eq!(context.sampled(), false);
    assert_eq!(
        context.trace_id(),
        &TraceID::from_str("0102030405060708090a0b0c0d0e0f10").unwrap()
    );
}

#[test]
fn follows_from_updates_details() {
    let follows_from = mock_context();
    let follows_from = SpanReference::FollowsFrom(follows_from);
    let mut context = ZipkinContext::new();
    context.reference_span(&follows_from);
    assert_eq!(context.debug(), true);
    assert_eq!(context.sampled(), false);
    assert_eq!(
        context.trace_id(),
        &TraceID::from_str("0102030405060708090a0b0c0d0e0f10").unwrap()
    );
}

#[test]
fn child_keeps_own_span_id_and_gains_parent() {
    let parent = mock_context();
    let parent_span_id = parent.span_id();
    let mut child = ZipkinContext::new();
    let child_span_id = child.span_id();
    child.reference_span(&SpanReference::ChildOf(parent));
    assert_eq!(child.span_id(), child_span_id);
    assert_ne!(child.span_id(), parent_span_id);
    assert_eq!(child.parent_span_id(), Some(parent_span_id));
}

#[test]
fn baggage_set_replaces_first_match() {
    let mut context = ZipkinContext::new();
    context.set_baggage_item(String::from("a"), String::from("1"));
    context.set_baggage_item(String::from("b"), String::from("2"));
    context.set_baggage_item(String::from("a"), String::from("3"));
    assert_eq!(
        context.baggage_items(),
        &vec![
            (String::from("a"), String::from("3")),
            (String::from("b"), String::from("2")),
        ]
    );
}
