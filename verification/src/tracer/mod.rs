//! The tracing side of the crate: trace identifiers, span contexts, and
//! the propagation codecs that move a context across process boundaries.

pub mod binary_format;
pub mod context;
pub mod extract;
pub mod inject;
pub mod trace_id;

pub use context::ZipkinContext;
pub use context::ZipkinContextOptions;
