//! Decoding a span context from an inbound carrier.

use vstd::prelude::*;
use vstd::string::StringExecFns;

use crate::error::Error;
use crate::wire::be64;

use super::binary_format;
use super::binary_format::RecordView;
use super::binary_format::empty_record;
use super::binary_format::spec_dec_fields;
use super::context::ZipkinContext;
use super::context::ZipkinContextOptions;
use super::context::baggage_from_items;
use super::context::key_index;
use super::context::lemma_key_index_spec;
use super::trace_id::TraceID;

verus! {

/// The context fields that follow from a decoded carrier record, per the
/// extraction rules: the trace id joins the two halves big-endian, debug
/// holds exactly when flags is 1, sampling defaults to sampled, and the
/// baggage items are set in carrier order.
pub open spec fn context_of_record(c: crate::tracer::context::CtxView, rec: RecordView) -> bool {
    &&& rec.trace_id is Some
    &&& rec.trace_id_high is Some
    &&& rec.span_id is Some
    &&& c.trace_id == be64(rec.trace_id_high->Some_0) + be64(rec.trace_id->Some_0)
    &&& c.span_id == rec.span_id->Some_0
    &&& c.parent_span_id == rec.parent_span_id
    &&& c.debug == (rec.flags == Some(1u32))
    &&& c.sampled == (match rec.sampled {
        Some(s) => s,
        None => true,
    })
    &&& c.baggage == baggage_from_items(
        match rec.baggage_items {
            Some(items) => items,
            None => Seq::<(Seq<char>, Seq<char>)>::empty(),
        },
    )
}

/// Decode the span context from a binary carrier.
///
/// Fails when the carrier does not decode, or when the decoded record
/// misses the trace id halves or the span id; succeeds otherwise, with
/// the context that the record describes.
pub fn binary(carrier: &Vec<u8>) -> (r: Result<Option<ZipkinContext>, Error>)
    ensures
        ({
            let dec = spec_dec_fields(carrier@, empty_record());
            match r {
                Err(_) => dec is None || dec->Some_0.trace_id is None
                    || dec->Some_0.trace_id_high is None || dec->Some_0.span_id is None,
                Ok(None) => false,
                Ok(Some(ctx)) => dec is Some && context_of_record(ctx@, dec->Some_0),
            }
        }),
{
    let message = match binary_format::SpanContext::read_from_bytes(carrier) {
        Ok(message) => message,
        Err(_) => {
            return Err(Error::Msg(String::from_str("Failed to decode the binary carrier")));
        },
    };
    let ghost grec = message@;

    // Decode the TraceID from a (low, high) tuple.
    let trace_id_low = match message.trace_id {
        Some(low) => low,
        None => {
            return Err(
                Error::Msg(String::from_str("Decoded context does not have a TraceID (low)")),
            );
        },
    };
    let trace_id_high = match message.trace_id_high {
        Some(high) => high,
        None => {
            return Err(
                Error::Msg(String::from_str("Decoded context does not have a TraceID (high)")),
            );
        },
    };
    let trace_id = TraceID::join(trace_id_high, trace_id_low);
    let span_id = match message.span_id {
        Some(span_id) => span_id,
        None => {
            return Err(Error::Msg(String::from_str("Decoded context does not have a SpanID")));
        },
    };

    // Build the context.
    let flags = match message.flags {
        Some(flags) => flags,
        None => 0,
    };
    let sampled = match message.sampled {
        Some(sampled) => sampled,
        None => true,
    };
    let options = ZipkinContextOptions::default().debug(flags == 1).span_id(span_id).trace_id(
        trace_id,
    ).sampled(sampled);
    let options = match message.parent_span_id {
        None => options,
        Some(parent_span_id) => options.parent_span_id(parent_span_id),
    };
    let mut context = ZipkinContext::new_with_options(options);

    if let Some(items) = message.baggage_items {
        let ghost gitems = binary_format::items_view(items@);
        proof {
            assert(grec.baggage_items == Some(gitems));
            assert(gitems.take(0) =~= Seq::<(Seq<char>, Seq<char>)>::empty());
        }
        let mut i: usize = 0;
        while i < items.len()
            invariant
                grec.baggage_items == Some(gitems),
                gitems == binary_format::items_view(items@),
                gitems.len() == items@.len(),
                i <= items@.len(),
                context@.baggage == baggage_from_items(gitems.take(i as int)),
                context@.trace_id == be64(trace_id_high) + be64(trace_id_low),
                context@.span_id == span_id,
                context@.parent_span_id == message.parent_span_id,
                context@.debug == (flags == 1),
                context@.sampled == sampled,
            decreases items@.len() - i,
        {
            proof {
                assert(gitems[i as int] == (items@[i as int].0@, items@[i as int].1@));
                let t1 = gitems.take(i + 1);
                assert(t1.drop_last() =~= gitems.take(i as int));
                assert(t1.last() == gitems[i as int]);
            }
            let pair = &items[i];
            context.set_baggage_item(pair.0.clone(), pair.1.clone());
            proof {
                let prev = baggage_from_items(gitems.take(i as int));
                assert(context@.baggage == crate::tracer::context::baggage_set(
                    prev,
                    gitems[i as int].0,
                    gitems[i as int].1,
                ));
            }
            i += 1;
        }
        proof {
            assert(gitems.take(gitems.len() as int) =~= gitems);
            assert(context@.baggage == baggage_from_items(
                match grec.baggage_items {
                    Some(items) => items,
                    None => Seq::<(Seq<char>, Seq<char>)>::empty(),
                },
            ));
        }
    } else {
        proof {
            assert(grec.baggage_items is None);
            assert(context@.baggage =~= Seq::<(Seq<char>, Seq<char>)>::empty());
            assert(baggage_from_items(Seq::<(Seq<char>, Seq<char>)>::empty())
                == Seq::<(Seq<char>, Seq<char>)>::empty());
            assert(context@.baggage == baggage_from_items(
                match grec.baggage_items {
                    Some(items) => items,
                    None => Seq::<(Seq<char>, Seq<char>)>::empty(),
                },
            ));
        }
    }
    proof {
        assert(grec.trace_id == Some(trace_id_low));
        assert(grec.trace_id_high == Some(trace_id_high));
        assert(grec.span_id == Some(span_id));
        assert(context@.trace_id == be64(trace_id_high) + be64(trace_id_low));
        assert(context@.span_id == span_id);
        assert(context@.parent_span_id == grec.parent_span_id);
        assert(context@.debug == (grec.flags == Some(1u32)));
        assert(context@.sampled == (match grec.sampled {
            Some(s) => s,
            None => true,
        }));
        assert(context_of_record(context@, grec));
    }
    Ok(Some(context))
}


/// The value of the first header with the given key, if any.
pub open spec fn header_get(h: Seq<(Seq<char>, Seq<char>)>, key: Seq<char>) -> Option<Seq<char>> {
    let i = key_index(h, key);
    if i < 0 {
        None
    } else {
        Some(h[i].1)
    }
}

/// Looking a key up in a list that starts with one pair either hits that
/// pair or falls through to the rest.
pub proof fn lemma_header_get_cons(
    pair: (Seq<char>, Seq<char>),
    rest: Seq<(Seq<char>, Seq<char>)>,
    key: Seq<char>,
)
    ensures
        header_get(seq![pair] + rest, key) == (if pair.0 == key {
            Some(pair.1)
        } else {
            header_get(rest, key)
        }),
{
    let h = seq![pair] + rest;
    assert(h[0] == pair);
    if pair.0 != key {
        assert(h.skip(1) =~= rest);
        lemma_key_index_spec(rest, key);
        if key_index(rest, key) >= 0 {
            assert(h[1 + key_index(rest, key)] == rest[key_index(rest, key)]);
        }
    }
}

/// Looking a key up past a block of headers with other keys falls
/// through to the rest.
pub proof fn lemma_header_get_skip_block(
    a: Seq<(Seq<char>, Seq<char>)>,
    rest: Seq<(Seq<char>, Seq<char>)>,
    key: Seq<char>,
)
    requires
        forall|i: int| 0 <= i < a.len() ==> (#[trigger] a[i]).0 != key,
    ensures
        header_get(a + rest, key) == header_get(rest, key),
    decreases a.len(),
{
    if a.len() == 0 {
        assert(a + rest =~= rest);
    } else {
        assert(a + rest =~= seq![a[0]] + (a.skip(1) + rest));
        lemma_header_get_cons(a[0], a.skip(1) + rest, key);
        assert(forall|i: int| 0 <= i < a.skip(1).len() ==> (#[trigger] a.skip(1)[i]) == a[i + 1]);
        lemma_header_get_skip_block(a.skip(1), rest, key);
    }
}

/// A key that no header holds is not found.
pub proof fn lemma_header_get_absent(h: Seq<(Seq<char>, Seq<char>)>, key: Seq<char>)
    requires
        forall|i: int| 0 <= i < h.len() ==> (#[trigger] h[i]).0 != key,
    ensures
        header_get(h, key) is None,
{
    lemma_key_index_spec(h, key);
    if key_index(h, key) >= 0 {
        assert(h[key_index(h, key)].0 == key);
        assert(false);
    }
}

/// Whether a header key carries a baggage item.
pub open spec fn has_baggage_prefix(s: Seq<char>) -> bool {
    s.len() >= 11 && s.take(11) == "OT-Baggage-"@
}

/// The baggage that a header list carries: every entry whose key starts
/// with the baggage prefix, stripped of the prefix, set in order.
pub open spec fn b3_baggage_of(h: Seq<(Seq<char>, Seq<char>)>) -> Seq<(Seq<char>, Seq<char>)>
    decreases h.len(),
{
    if h.len() == 0 {
        Seq::<(Seq<char>, Seq<char>)>::empty()
    } else {
        let rest = b3_baggage_of(h.drop_last());
        if has_baggage_prefix(h.last().0) {
            crate::tracer::context::baggage_set(rest, h.last().0.skip(11), h.last().1)
        } else {
            rest
        }
    }
}

/// The baggage items as carrier headers: each key gains the baggage
/// prefix.
pub open spec fn prefixed_baggage(items: Seq<(Seq<char>, Seq<char>)>) -> Seq<
    (Seq<char>, Seq<char>),
> {
    items.map_values(|p: (Seq<char>, Seq<char>)| ("OT-Baggage-"@ + p.0, p.1))
}

/// Headers without the baggage prefix carry no baggage.
pub proof fn lemma_b3_baggage_none(h: Seq<(Seq<char>, Seq<char>)>)
    requires
        forall|i: int| 0 <= i < h.len() ==> !has_baggage_prefix((#[trigger] h[i]).0),
    ensures
        b3_baggage_of(h) == Seq::<(Seq<char>, Seq<char>)>::empty(),
    decreases h.len(),
{
    if h.len() > 0 {
        let pre = h.drop_last();
        assert(forall|i: int| 0 <= i < pre.len() ==> (#[trigger] pre[i]) == h[i]);
        lemma_b3_baggage_none(pre);
        assert(h.last() == h[h.len() - 1]);
    }
}

/// Appending prefixed baggage headers to headers that carry no baggage
/// yields exactly those items, set in order.
pub proof fn lemma_b3_baggage_append(
    a: Seq<(Seq<char>, Seq<char>)>,
    items: Seq<(Seq<char>, Seq<char>)>,
)
    requires
        b3_baggage_of(a) == Seq::<(Seq<char>, Seq<char>)>::empty(),
    ensures
        b3_baggage_of(a + prefixed_baggage(items)) == baggage_from_items(items),
    decreases items.len(),
{
    reveal_strlit("OT-Baggage-");
    let m = prefixed_baggage(items);
    if items.len() == 0 {
        assert(m =~= Seq::<(Seq<char>, Seq<char>)>::empty());
        assert(a + m =~= a);
    } else {
        let pre = items.drop_last();
        let last = items.last();
        let mpre = prefixed_baggage(pre);
        let hv = a + m;
        assert(m[items.len() - 1] == ("OT-Baggage-"@ + last.0, last.1));
        assert(hv.last() == m[items.len() - 1]);
        assert(hv.drop_last() =~= a + mpre) by {
            assert(forall|i: int| 0 <= i < pre.len() ==> (#[trigger] pre[i]) == items[i]);
        }
        assert(("OT-Baggage-"@ + last.0).len() >= 11);
        assert(("OT-Baggage-"@ + last.0).take(11) =~= "OT-Baggage-"@);
        assert(has_baggage_prefix(hv.last().0));
        assert(("OT-Baggage-"@ + last.0).skip(11) =~= last.0);
        lemma_b3_baggage_append(a, pre);
        assert(b3_baggage_of(hv) == crate::tracer::context::baggage_set(
            baggage_from_items(pre),
            last.0,
            last.1,
        ));
        assert((last.0, last.1) == last);
    }
}

/// A hex rendering that decodes to a trace id: 16 or 32 hex digits.
pub open spec fn valid_trace_hex(t: Seq<char>) -> bool {
    (t.len() == 16 || t.len() == 32) && crate::hex::is_hex_seq(t)
}

/// Returns the value of the first header with the given key, if any.
fn get_header(headers: &Vec<(String, String)>, key: &str) -> (r: Option<String>)
    ensures
        match r {
            Some(s) => header_get(crate::tracer::context::baggage_view(headers@), key@) == Some(
                s@,
            ),
            None => header_get(crate::tracer::context::baggage_view(headers@), key@) is None,
        },
{
    let ghost hv = crate::tracer::context::baggage_view(headers@);
    let mut i: usize = 0;
    let n = headers.len();
    while i < n
        invariant
            n == headers@.len(),
            hv == crate::tracer::context::baggage_view(headers@),
            hv.len() == n,
            i <= n,
            forall|j: int| 0 <= j < i ==> (#[trigger] hv[j]).0 != key@,
        decreases n - i,
    {
        proof {
            assert(hv[i as int] == (headers@[i as int].0@, headers@[i as int].1@));
        }
        let pair = &headers[i];
        if crate::text::str_eq(pair.0.as_str(), key) {
            proof {
                crate::tracer::context::lemma_key_index_scan(hv, key@, i as int);
            }
            return Some(pair.1.clone());
        }
        i += 1;
    }
    proof {
        crate::tracer::context::lemma_key_index_scan(hv, key@, n as int);
    }
    None
}


/// Decode the span context from HTTP headers, following the B3
/// propagation format.
///
/// A missing trace-id header is no context, not an error: the carrier
/// simply carries no trace. A present trace id with a missing span id is
/// a malformed carrier and an error, as is any id that does not parse as
/// hex. Sampling defaults to sampled; debug holds exactly when the flags
/// header is "1". Baggage items are read from the headers whose key
/// starts with "OT-Baggage-", stripped of that prefix, in header order.
pub fn http_headers(headers: &Vec<(String, String)>) -> (r: Result<Option<ZipkinContext>, Error>)
    ensures
        ({
            let hv = crate::tracer::context::baggage_view(headers@);
            let tid = header_get(hv, "X-B3-TraceId"@);
            let sid = header_get(hv, "X-B3-SpanId"@);
            let pid = header_get(hv, "X-B3-ParentSpanId"@);
            match r {
                Ok(None) => tid is None,
                Ok(Some(ctx)) => {
                    &&& tid is Some
                    &&& valid_trace_hex(tid->Some_0)
                    &&& ctx@.trace_id == crate::hex::bytes_of_hex(tid->Some_0)
                    &&& sid is Some
                    &&& crate::hex::is_hex_u64(sid->Some_0)
                    &&& ctx@.span_id as int == crate::hex::hex_val_of(sid->Some_0)
                    &&& (match pid {
                        Some(pt) => crate::hex::is_hex_u64(pt) && ctx@.parent_span_id is Some
                            && ctx@.parent_span_id->Some_0 as int == crate::hex::hex_val_of(pt),
                        None => ctx@.parent_span_id is None,
                    })
                    &&& ctx@.debug == (match header_get(hv, "X-B3-Flags"@) {
                        Some(f) => f == "1"@,
                        None => false,
                    })
                    &&& ctx@.sampled == (match header_get(hv, "X-B3-Sampled"@) {
                        Some(s) => s == "1"@,
                        None => true,
                    })
                    &&& ctx@.baggage == b3_baggage_of(hv)
                },
                Err(_) => tid is Some && (!valid_trace_hex(tid->Some_0) || sid is None || !crate::hex::is_hex_u64(
                    sid->Some_0,
                ) || (pid is Some && !crate::hex::is_hex_u64(pid->Some_0))),
            }
        }),
{
    let ghost hv = crate::tracer::context::baggage_view(headers@);

    // Trace ID.
    let trace_id_text = match get_header(headers, "X-B3-TraceId") {
        Some(trace_id_text) => trace_id_text,
        None => {
            return Ok(None);
        },
    };
    let trace_id = match TraceID::parse(trace_id_text.as_str()) {
        Ok(trace_id) => trace_id,
        Err(_) => {
            return Err(Error::Msg(String::from_str("The TraceId header does not parse as hex")));
        },
    };

    // Span ID.
    let span_id_text = match get_header(headers, "X-B3-SpanId") {
        Some(span_id_text) => span_id_text,
        None => {
            return Err(Error::Msg(String::from_str("Decoded context does not have a SpanID")));
        },
    };
    let span_id = match crate::hex::parse_hex_u64(span_id_text.as_str()) {
        Ok(span_id) => span_id,
        Err(_) => {
            return Err(Error::Msg(String::from_str("The SpanId header does not parse as hex")));
        },
    };

    // Debug flag.
    let debug = match get_header(headers, "X-B3-Flags") {
        Some(flags_text) => crate::text::str_eq(flags_text.as_str(), "1"),
        None => false,
    };

    let options = ZipkinContextOptions::default().debug(debug).span_id(span_id).trace_id(trace_id);

    // Parent Span ID.
    let options = match get_header(headers, "X-B3-ParentSpanId") {
        None => options,
        Some(parent_text) => {
            let parent_span_id = match crate::hex::parse_hex_u64(parent_text.as_str()) {
                Ok(parent_span_id) => parent_span_id,
                Err(_) => {
                    return Err(
                        Error::Msg(
                            String::from_str("The ParentSpanId header does not parse as hex"),
                        ),
                    );
                },
            };
            options.parent_span_id(parent_span_id)
        },
    };
    let options = match get_header(headers, "X-B3-Sampled") {
        None => options.sampled(true),
        Some(sampled_text) => options.sampled(
            crate::text::str_eq(sampled_text.as_str(), "1"),
        ),
    };

    let mut context = ZipkinContext::new_with_options(options);
    let ghost ctx0 = context@;
    proof {
        assert(hv.take(0) =~= Seq::<(Seq<char>, Seq<char>)>::empty());
    }
    let mut i: usize = 0;
    let n = headers.len();
    while i < n
        invariant
            n == headers@.len(),
            hv == crate::tracer::context::baggage_view(headers@),
            hv.len() == n,
            i <= n,
            context@.baggage == b3_baggage_of(hv.take(i as int)),
            context@ == (crate::tracer::context::CtxView { baggage: context@.baggage, ..ctx0 }),
        decreases n - i,
    {
        proof {
            assert(hv[i as int] == (headers@[i as int].0@, headers@[i as int].1@));
            let t1 = hv.take(i + 1);
            assert(t1.drop_last() =~= hv.take(i as int));
            assert(t1.last() == hv[i as int]);
            reveal_strlit("OT-Baggage-");
        }
        let pair = &headers[i];
        if crate::text::str_has_prefix(pair.0.as_str(), "OT-Baggage-") {
            proof {
                assert(has_baggage_prefix(hv[i as int].0));
            }
            let stripped = crate::text::str_suffix(pair.0.as_str(), 11);
            context.set_baggage_item(stripped, pair.1.clone());
            proof {
                assert(context@.baggage == crate::tracer::context::baggage_set(
                    b3_baggage_of(hv.take(i as int)),
                    hv[i as int].0.skip(11),
                    hv[i as int].1,
                ));
                assert(context@.baggage == b3_baggage_of(hv.take(i + 1)));
            }
        } else {
            proof {
                assert(!has_baggage_prefix(hv[i as int].0));
                assert(b3_baggage_of(hv.take(i + 1)) == b3_baggage_of(hv.take(i as int)));
            }
        }
        i += 1;
    }
    proof {
        assert(hv.take(n as int) =~= hv);
    }
    Ok(Some(context))
}

} // verus!
