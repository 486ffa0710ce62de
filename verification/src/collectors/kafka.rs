//! Collects finished spans for Zipkin over a message-queue topic.
//!
//! The collector encodes each span into its wire record; publishing the
//! encoded message to the brokers is the caller's transport concern.

use vstd::prelude::*;

use super::FinishedSpan;
use super::thrift_encode;
use crate::zipkin_core::Endpoint;
use crate::zipkin_core::enc_span;
use crate::zipkin_core::span_encodable;

verus! {

/// Collects finished spans to Zipkin over a message-queue topic.
pub struct KafkaCollector {
    /// The process endpoint attached to every encoded annotation.
    pub endpoint: Endpoint,
    /// The topic messages are published to.
    pub topic: String,
    /// The broker addresses supplied at construction.
    pub hosts: Vec<String>,
}

impl KafkaCollector {
    /// Create a new collector seeded by the given hosts.
    pub fn new(endpoint: Endpoint, topic: String, hosts: Vec<String>) -> (r: KafkaCollector)
        ensures
            r.endpoint@ == endpoint@,
            r.topic@ == topic@,
            r.hosts@ == hosts@,
    {
        KafkaCollector { endpoint, topic, hosts }
    }

    /// The topic messages are published to.
    pub fn topic(&self) -> (r: &String)
        ensures
            r == self.topic,
    {
        &self.topic
    }

    /// The broker addresses supplied at construction.
    pub fn hosts(&self) -> (r: &Vec<String>)
        ensures
            r == self.hosts,
    {
        &self.hosts
    }

    /// Encodes a finished span into one wire message for the topic.
    ///
    /// Yields the encoded record to publish, or nothing for a span too
    /// large for the wire's 32-bit length prefixes.
    pub fn collect(&mut self, span: &FinishedSpan) -> (r: Option<Vec<u8>>)
        ensures
            *final(self) == *old(self),
            ({
                let encoded = super::wire_span_of(span@, old(self).endpoint@);
                match r {
                    Some(bytes) => span_encodable(encoded) && bytes@ == enc_span(encoded),
                    None => !span_encodable(encoded),
                }
            }),
    {
        let encoded = thrift_encode(span, &self.endpoint);
        if !crate::zipkin_core::span_fits_wire(&encoded) {
            return None;
        }
        let mut buffer: Vec<u8> = Vec::new();
        encoded.write_to_wire(&mut buffer);
        Some(buffer)
    }
}

} // verus!
