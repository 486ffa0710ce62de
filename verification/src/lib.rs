//! Zipkin tracing core: trace identifiers, span contexts, span-context
//! propagation over binary and B3 header carriers, encoding of finished
//! spans into the Zipkin wire format, and buffered collectors that batch
//! encoded spans for a transport.

pub mod collectors;
pub mod error;
pub mod hex;
pub mod rng;
pub mod text;
pub mod tracer;
pub mod wire;
pub mod zipkin_core;

pub use collectors::FinishedSpan;
pub use collectors::LogRecord;
pub use collectors::LogValue;
pub use collectors::TagValue;
pub use collectors::http::HttpCollector;
pub use collectors::http::HttpCollectorOpts;
pub use collectors::kafka::KafkaCollector;
pub use collectors::thrift_encode;
pub use error::Error;
pub use tracer::ZipkinContext;
pub use tracer::ZipkinContextOptions;
pub use tracer::context::SpanReference;
pub use tracer::trace_id::TraceID;
pub use zipkin_core::Endpoint as ZipkinEndpoint;
