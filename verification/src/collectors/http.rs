//! Buffers finished spans and batches them for submission to Zipkin
//! over HTTP.
//!
//! The collector owns the buffering and flush policy and produces the
//! encoded POST payload; performing the POST to `<target>/api/v1/spans`
//! is the caller's transport concern. Times are plain microsecond
//! counts supplied by the caller, so the policy itself is checked here.

use vstd::prelude::*;
use vstd::string::StringExecFns;

use super::FinishedSpan;
use super::thrift_encode;
use super::wire_span_of;
use crate::zipkin_core::Endpoint;
use crate::zipkin_core::EndpointView;
use crate::zipkin_core::Span;
use crate::zipkin_core::SpanView;
use crate::zipkin_core::enc_span_batch;
use crate::zipkin_core::enc_span_list;
use crate::zipkin_core::lemma_enc_span_list_snoc;
use crate::zipkin_core::span_encodable;
use crate::zipkin_core::span_fits_wire;
use crate::zipkin_core::spans_view;

verus! {

/// The mathematical state of an HTTP collector.
pub ghost struct HttpCollectorView {
    pub endpoint: EndpointView,
    pub flush_count: usize,
    pub flush_last: u64,
    pub flush_timeout: u64,
    pub spans: Seq<SpanView>,
    pub target_url: Seq<char>,
}

/// Submit finished spans to Zipkin over HTTP.
pub struct HttpCollector {
    endpoint: Endpoint,
    flush_count: usize,
    flush_last: u64,
    flush_timeout: u64,
    spans: Vec<Span>,
    target_url: String,
}

impl View for HttpCollector {
    type V = HttpCollectorView;

    closed spec fn view(&self) -> HttpCollectorView {
        HttpCollectorView {
            endpoint: self.endpoint@,
            flush_count: self.flush_count,
            flush_last: self.flush_last,
            flush_timeout: self.flush_timeout,
            spans: spans_view(self.spans@),
            target_url: self.target_url@,
        }
    }
}

/// Every buffered span fits the wire, and the buffer count fits the
/// batch header's 32-bit count.
pub open spec fn buffer_wf(c: HttpCollectorView) -> bool {
    c.spans.len() < 0x8000_0000 && (forall|i: int|
        0 <= i < c.spans.len() ==> span_encodable(#[trigger] c.spans[i]))
}

/// The microseconds elapsed from `last` to `now`, never negative.
pub open spec fn spec_elapsed(last: u64, now: u64) -> int {
    if now >= last {
        now - last
    } else {
        0
    }
}

/// Whether the lazy-flush policy fires: the buffered count exceeds the
/// configured threshold, or the elapsed time since the last flush
/// exceeds the configured timeout — and never otherwise.
pub open spec fn should_flush(c: HttpCollectorView, now: u64) -> bool {
    c.spans.len() > c.flush_count || spec_elapsed(c.flush_last, now) > c.flush_timeout
}

impl HttpCollector {
    /// Creates a collector from the given options, with an empty buffer
    /// and `now` as the time of the last flush.
    pub fn new(opts: HttpCollectorOpts, now: u64) -> (r: HttpCollector)
        ensures
            r@.endpoint == opts.endpoint@,
            r@.flush_count == opts.flush_count,
            r@.flush_last == now,
            r@.flush_timeout == opts.flush_timeout,
            r@.spans =~= Seq::<SpanView>::empty(),
            r@.target_url == opts.target@ + "/api/v1/spans"@,
            buffer_wf(r@),
    {
        let target_url = opts.target_url();
        let r = HttpCollector {
            endpoint: opts.endpoint,
            flush_count: opts.flush_count,
            flush_last: now,
            flush_timeout: opts.flush_timeout,
            spans: Vec::new(),
            target_url,
        };
        proof {
            assert(r@.spans =~= Seq::<SpanView>::empty());
        }
        r
    }

    /// The full URL to POST span batches to.
    pub fn target_url(&self) -> (r: &String)
        ensures
            r@ == self@.target_url,
    {
        &self.target_url
    }

    /// Append a span to the send buffer: the span is encoded into its
    /// wire record and buffered. A record too large for the wire's
    /// 32-bit length prefixes, or arriving when the buffer count has
    /// reached the batch header's limit, is discarded instead.
    pub fn collect(&mut self, span: &FinishedSpan)
        requires
            buffer_wf(old(self)@),
        ensures
            buffer_wf(final(self)@),
            final(self)@ == (HttpCollectorView { spans: final(self)@.spans, ..old(self)@ }),
            ({
                let encoded = wire_span_of(span@, old(self)@.endpoint);
                if span_encodable(encoded) && old(self)@.spans.len() < 0x7fff_ffff {
                    final(self)@.spans =~= old(self)@.spans.push(encoded)
                } else {
                    final(self)@.spans =~= old(self)@.spans
                }
            }),
    {
        let encoded = thrift_encode(span, &self.endpoint);
        if self.spans.len() < 0x7fff_ffff && span_fits_wire(&encoded) {
            let ghost before = spans_view(self.spans@);
            self.spans.push(encoded);
            proof {
                assert(spans_view(self.spans@) =~= before.push(
                    wire_span_of(span@, old(self)@.endpoint),
                ));
            }
        }
    }

    /// Unconditionally drain the buffer: the time of the last flush
    /// becomes `now`, and the buffered spans leave as one encoded batch
    /// for the transport. An empty buffer yields nothing to send rather
    /// than an error.
    pub fn flush(&mut self, now: u64) -> (r: Option<Vec<u8>>)
        requires
            buffer_wf(old(self)@),
        ensures
            buffer_wf(final(self)@),
            final(self)@ == (HttpCollectorView {
                flush_last: now,
                spans: Seq::<SpanView>::empty(),
                ..old(self)@
            }),
            match r {
                None => old(self)@.spans.len() == 0,
                Some(payload) => old(self)@.spans.len() > 0 && payload@ == enc_span_batch(
                    old(self)@.spans,
                ),
            },
    {
        self.flush_last = now;
        if self.spans.len() == 0 {
            proof {
                assert(spans_view(self.spans@) =~= Seq::<SpanView>::empty());
            }
            return None;
        }
        let payload = encode_batch(&self.spans);
        self.spans.clear();
        proof {
            assert(spans_view(self.spans@) =~= Seq::<SpanView>::empty());
        }
        Some(payload)
    }

    /// Flush if enough spans were collected or the last flush was too
    /// long ago; otherwise leave the buffer untouched.
    ///
    /// The policy fires exactly when the buffered count exceeds
    /// `flush_count` or the time elapsed since the last flush exceeds
    /// `flush_timeout`, and never otherwise. Call this after collecting
    /// every span and periodically even when no spans arrive, so that a
    /// low-traffic buffer still drains within the timeout.
    pub fn lazy_flush(&mut self, now: u64) -> (r: Option<Vec<u8>>)
        requires
            buffer_wf(old(self)@),
        ensures
            buffer_wf(final(self)@),
            if should_flush(old(self)@, now) {
                final(self)@ == (HttpCollectorView {
                    flush_last: now,
                    spans: Seq::<SpanView>::empty(),
                    ..old(self)@
                }) && (match r {
                    None => old(self)@.spans.len() == 0,
                    Some(payload) => old(self)@.spans.len() > 0 && payload@ == enc_span_batch(
                        old(self)@.spans,
                    ),
                })
            } else {
                r is None && *final(self) == *old(self)
            },
    {
        let elapsed = if now >= self.flush_last {
            now - self.flush_last
        } else {
            0
        };
        let trigger = self.spans.len() > self.flush_count || elapsed > self.flush_timeout;
        if trigger {
            return self.flush(now);
        }
        None
    }
}

/// Encodes the given spans as one batch payload.
fn encode_batch(spans: &Vec<Span>) -> (r: Vec<u8>)
    requires
        spans@.len() < 0x8000_0000,
        forall|i: int| 0 <= i < spans@.len() ==> span_encodable(#[trigger] spans_view(spans@)[i]),
    ensures
        r@ == enc_span_batch(spans_view(spans@)),
{
    let ghost gv = spans_view(spans@);
    let mut buffer: Vec<u8> = Vec::new();
    buffer.push(crate::tracer::binary_format::TT_STRUCT);
    crate::wire::write_u32_be(&mut buffer, spans.len() as u32);
    let ghost header = seq![crate::tracer::binary_format::TT_STRUCT] + crate::wire::be32(
        spans@.len() as u32,
    );
    proof {
        assert(enc_span_list(gv.take(0)) =~= Seq::<u8>::empty());
        assert(buffer@ =~= header + enc_span_list(gv.take(0)));
    }
    let mut i: usize = 0;
    while i < spans.len()
        invariant
            gv == spans_view(spans@),
            gv.len() == spans@.len(),
            forall|j: int| 0 <= j < spans@.len() ==> span_encodable(#[trigger] gv[j]),
            i <= spans@.len(),
            buffer@ == header + enc_span_list(gv.take(i as int)),
        decreases spans@.len() - i,
    {
        proof {
            assert(gv[i as int] == spans@[i as int]@);
            lemma_enc_span_list_snoc(gv, i as int);
        }
        spans[i].write_to_wire(&mut buffer);
        proof {
            assert(buffer@ =~= header + enc_span_list(gv.take(i + 1)));
        }
        i += 1;
    }
    proof {
        assert(gv.take(gv.len() as int) =~= gv);
        assert(buffer@ =~= enc_span_batch(gv));
    }
    buffer
}

/// HTTP collector options.
pub struct HttpCollectorOpts {
    pub endpoint: Endpoint,
    pub flush_count: usize,
    pub flush_timeout: u64,
    pub target: String,
}

impl HttpCollectorOpts {
    /// Default HTTP collector options: flush after 1000 buffered spans
    /// or one second. The target URL must not include the API path;
    /// "/api/v1/spans" is appended.
    pub fn new(url: &str, endpoint: Endpoint) -> (r: HttpCollectorOpts)
        ensures
            r.endpoint@ == endpoint@,
            r.flush_count == 1000usize,
            r.flush_timeout == 1_000_000u64,
            r.target@ == url@,
    {
        HttpCollectorOpts {
            endpoint,
            flush_count: 1000,
            flush_timeout: 1_000_000,
            target: String::from_str(url),
        }
    }

    /// Set the number of buffered spans that should trigger a flush.
    pub fn flush_count(self, count: usize) -> (r: HttpCollectorOpts)
        ensures
            r == (HttpCollectorOpts { flush_count: count, ..self }),
    {
        HttpCollectorOpts { flush_count: count, ..self }
    }

    /// Set the maximum delay, in microseconds, between span flushes.
    pub fn flush_timeout(self, timeout: u64) -> (r: HttpCollectorOpts)
        ensures
            r == (HttpCollectorOpts { flush_timeout: timeout, ..self }),
    {
        HttpCollectorOpts { flush_timeout: timeout, ..self }
    }

    /// Return the full URL to POST spans to.
    fn target_url(&self) -> (r: String)
        ensures
            r@ == self.target@ + "/api/v1/spans"@,
    {
        let mut url = self.target.clone();
        url.append("/api/v1/spans");
        url
    }
}

} // verus!
