//! Encoding a span context into an outbound carrier.

use vstd::prelude::*;

use crate::error::Error;
use crate::wire::be64;

use super::binary_format;
use super::binary_format::RecordView;
use super::binary_format::empty_record;
use super::binary_format::enc_record;
use super::binary_format::record_encodable;
use super::binary_format::spec_dec_fields;
use super::binary_format::str_encodable;
use super::context::CtxView;
use super::context::ZipkinContext;
use super::context::baggage_from_items;
use super::context::baggage_keys_unique;
use super::context::clone_baggage;
use super::context::lemma_baggage_from_items_unique;
use super::extract::context_of_record;
use super::trace_id::spec_split;

verus! {

/// A context small enough for the carrier's wire limits: fewer than 2^31
/// baggage items, each key and value below 2^31 UTF-8 bytes.
pub open spec fn ctx_encodable(c: CtxView) -> bool {
    c.baggage.len() < 0x8000_0000 && (forall|i: int|
        0 <= i < c.baggage.len() ==> str_encodable((#[trigger] c.baggage[i]).0) && str_encodable(
            c.baggage[i].1,
        ))
}

/// The carrier record that a context injects: the low trace-id half in
/// field 1, the high half in field 2, flags 1 exactly in debug, and the
/// baggage items in order.
pub open spec fn binary_record_of(c: CtxView) -> RecordView {
    RecordView {
        trace_id: Some(spec_split(c.trace_id).1),
        trace_id_high: Some(spec_split(c.trace_id).0),
        span_id: Some(c.span_id),
        parent_span_id: c.parent_span_id,
        sampled: Some(c.sampled),
        flags: Some(if c.debug { 1u32 } else { 0u32 }),
        baggage_items: Some(c.baggage),
    }
}

/// Encode the span context into a binary carrier.
pub fn binary(context: &ZipkinContext) -> (r: Result<Vec<u8>, Error>)
    ensures
        ({
            match r {
                Ok(bytes) => ctx_encodable(context@) && bytes@ == enc_record(
                    binary_record_of(context@),
                ),
                Err(_) => !ctx_encodable(context@),
            }
        }),
{
    let items = context.baggage_items();
    if items.len() >= 0x8000_0000 {
        return Err(Error::Msg(String::from_str("Context holds too many baggage items")));
    }
    let mut i: usize = 0;
    let n = items.len();
    while i < n
        invariant
            n == items@.len(),
            i <= n,
            context@.baggage == crate::tracer::context::baggage_view(items@),
            forall|j: int| 0 <= j < i ==> str_encodable((#[trigger] context@.baggage[j]).0)
                && str_encodable(context@.baggage[j].1),
        decreases n - i,
    {
        proof {
            assert(context@.baggage[i as int] == (items@[i as int].0@, items@[i as int].1@));
        }
        let pair = &items[i];
        if !str_len_fits(&pair.0) || !str_len_fits(&pair.1) {
            return Err(Error::Msg(String::from_str("Baggage item is too large for the carrier")));
        }
        i += 1;
    }
    let (high, low) = context.trace_id().split();
    let span_id = context.span_id();
    let sampled = context.sampled();
    let flags: u32 = if context.debug() {
        1
    } else {
        0
    };
    let message = binary_format::SpanContext::new(
        Some(low),
        Some(high),
        Some(span_id),
        context.parent_span_id(),
        Some(sampled),
        Some(flags),
        Some(clone_baggage(items)),
    );
    proof {
        assert(message@ == binary_record_of(context@));
    }
    let mut out: Vec<u8> = Vec::new();
    message.write_to_bytes(&mut out);
    Ok(out)
}

/// Whether the string's UTF-8 byte length fits the wire's 32-bit limit.
fn str_len_fits(s: &String) -> (r: bool)
    ensures
        r == str_encodable(s@),
{
    let bytes = s.as_str().as_bytes();
    bytes.len() < 0x8000_0000
}

/// Extracting an injected binary carrier yields a context with the same
/// trace id, span id, parent span id, sampled flag, debug flag and
/// baggage items: decoding the injected record succeeds, and the context
/// that the extraction rules build from it agrees with the original in
/// every field. The trace id must be a full 16-byte id; an 8-byte id
/// comes back as the 16-byte id with the same split halves.
pub proof fn lemma_binary_carrier_round_trip(c: CtxView)
    requires
        ctx_encodable(c),
        c.trace_id.len() == 16,
        baggage_keys_unique(c.baggage),
    ensures
        spec_dec_fields(enc_record(binary_record_of(c)), empty_record()) == Some(
            binary_record_of(c),
        ),
        context_of_record(c, binary_record_of(c)),
{
    let rec = binary_record_of(c);
    assert(record_encodable(rec));
    binary_format::lemma_binary_round_trip(rec);
    assert(c.trace_id.take(8).len() == 8);
    assert(c.trace_id.skip(8).len() == 8);
    crate::wire::lemma_be64_of_u64_of_be(c.trace_id.take(8));
    crate::wire::lemma_be64_of_u64_of_be(c.trace_id.skip(8));
    assert(be64(spec_split(c.trace_id).0) + be64(spec_split(c.trace_id).1) =~= c.trace_id);
    lemma_baggage_from_items_unique(c.baggage);
}


/// The B3 headers that a context injects, in order: the parent span id
/// when present, the span id and trace id in hex, the sampled flag as
/// "1" or "0", the flags header as "1" exactly in debug, and one
/// prefixed header per baggage item.
pub open spec fn b3_headers_of(c: CtxView) -> Seq<(Seq<char>, Seq<char>)> {
    (match c.parent_span_id {
        Some(p) => seq![("X-B3-ParentSpanId"@, crate::hex::hex_min_of(p as int))],
        None => Seq::<(Seq<char>, Seq<char>)>::empty(),
    }) + (seq![("X-B3-SpanId"@, crate::hex::hex_min_of(c.span_id as int))] + (seq![
        ("X-B3-TraceId"@, crate::hex::hex_of_bytes(c.trace_id)),
    ] + (seq![
        ("X-B3-Sampled"@, if c.sampled {
            "1"@
        } else {
            "0"@
        }),
    ] + ((if c.debug {
        seq![("X-B3-Flags"@, "1"@)]
    } else {
        Seq::<(Seq<char>, Seq<char>)>::empty()
    }) + super::extract::prefixed_baggage(c.baggage)))))
}

/// Encode the span context into B3 HTTP headers.
pub fn http_headers(context: &ZipkinContext) -> (r: Vec<(String, String)>)
    ensures
        crate::tracer::context::baggage_view(r@) == b3_headers_of(context@),
{
    let mut headers: Vec<(String, String)> = Vec::new();
    if let Some(parent_span_id) = context.parent_span_id() {
        headers.push(
            (String::from_str("X-B3-ParentSpanId"), crate::hex::format_hex_u64(parent_span_id)),
        );
    }
    headers.push((String::from_str("X-B3-SpanId"), crate::hex::format_hex_u64(context.span_id())));
    headers.push((String::from_str("X-B3-TraceId"), context.trace_id().to_string()));
    headers.push(
        (
            String::from_str("X-B3-Sampled"),
            String::from_str(
                if context.sampled() {
                    "1"
                } else {
                    "0"
                },
            ),
        ),
    );
    if context.debug() {
        headers.push((String::from_str("X-B3-Flags"), String::from_str("1")));
    }
    let ghost fixed = (match context@.parent_span_id {
        Some(p) => seq![("X-B3-ParentSpanId"@, crate::hex::hex_min_of(p as int))],
        None => Seq::<(Seq<char>, Seq<char>)>::empty(),
    }) + (seq![("X-B3-SpanId"@, crate::hex::hex_min_of(context@.span_id as int))] + (seq![
        ("X-B3-TraceId"@, crate::hex::hex_of_bytes(context@.trace_id)),
    ] + (seq![
        ("X-B3-Sampled"@, if context@.sampled {
            "1"@
        } else {
            "0"@
        }),
    ] + (if context@.debug {
        seq![("X-B3-Flags"@, "1"@)]
    } else {
        Seq::<(Seq<char>, Seq<char>)>::empty()
    }))));
    proof {
        assert(crate::tracer::context::baggage_view(headers@) =~= fixed);
    }
    let items = context.baggage_items();
    let ghost gmapped = super::extract::prefixed_baggage(context@.baggage);
    let mut i: usize = 0;
    let n = items.len();
    while i < n
        invariant
            n == items@.len(),
            context@.baggage == crate::tracer::context::baggage_view(items@),
            gmapped == super::extract::prefixed_baggage(context@.baggage),
            gmapped.len() == n,
            i <= n,
            crate::tracer::context::baggage_view(headers@) =~= fixed + gmapped.take(i as int),
        decreases n - i,
    {
        proof {
            assert(context@.baggage[i as int] == (items@[i as int].0@, items@[i as int].1@));
            assert(gmapped[i as int] == ("OT-Baggage-"@ + items@[i as int].0@, items@[i as int].1@));
        }
        let pair = &items[i];
        let mut key = String::from_str("OT-Baggage-");
        key.append(pair.0.as_str());
        proof {
            assert(key@ == "OT-Baggage-"@ + items@[i as int].0@);
        }
        let ghost gkey = key@;
        let ghost before = headers@;
        headers.push((key, pair.1.clone()));
        proof {
            assert(headers@ == before.push((headers@.last().0, headers@.last().1)));
            assert(headers@.last().0@ == gkey);
            assert(headers@.last().1@ == items@[i as int].1@);
            let hv = crate::tracer::context::baggage_view(headers@);
            let prev = crate::tracer::context::baggage_view(before);
            assert forall|j: int| 0 <= j < before.len() implies hv[j] == prev[j] by {
                assert(headers@[j] == before[j]);
            }
            assert(hv[before.len() as int] == (gkey, items@[i as int].1@));
            assert(hv =~= prev + seq![(gkey, items@[i as int].1@)]);
            assert(hv =~= fixed + gmapped.take(i + 1));
        }
        i += 1;
    }
    proof {
        assert(gmapped.take(n as int) =~= gmapped);
        assert(fixed + gmapped =~= b3_headers_of(context@));
    }
    headers
}


/// Extracting injected B3 headers yields a context equal to the original
/// in trace id, span id, parent span id, sampled, debug and baggage: the
/// trace id header holds the id's hex rendering and parses back to the
/// same bytes, the span and parent ids round-trip through minimal hex,
/// the sampled and flags headers read back as the original flags, and
/// the baggage headers set exactly the original items.
#[verifier::rlimit(100)]
pub proof fn lemma_b3_round_trip(c: CtxView)
    requires
        c.trace_id.len() == 8 || c.trace_id.len() == 16,
        baggage_keys_unique(c.baggage),
    ensures
        ({
            let hv = b3_headers_of(c);
            &&& super::extract::header_get(hv, "X-B3-TraceId"@) == Some(
                crate::hex::hex_of_bytes(c.trace_id),
            )
            &&& super::extract::valid_trace_hex(crate::hex::hex_of_bytes(c.trace_id))
            &&& crate::hex::bytes_of_hex(crate::hex::hex_of_bytes(c.trace_id)) == c.trace_id
            &&& super::extract::header_get(hv, "X-B3-SpanId"@) == Some(
                crate::hex::hex_min_of(c.span_id as int),
            )
            &&& crate::hex::is_hex_u64(crate::hex::hex_min_of(c.span_id as int))
            &&& crate::hex::hex_val_of(crate::hex::hex_min_of(c.span_id as int)) == c.span_id as int
            &&& (match c.parent_span_id {
                Some(p) => super::extract::header_get(hv, "X-B3-ParentSpanId"@) == Some(
                    crate::hex::hex_min_of(p as int),
                ) && crate::hex::is_hex_u64(crate::hex::hex_min_of(p as int))
                    && crate::hex::hex_val_of(crate::hex::hex_min_of(p as int)) == p as int,
                None => super::extract::header_get(hv, "X-B3-ParentSpanId"@) is None,
            })
            &&& (match super::extract::header_get(hv, "X-B3-Flags"@) {
                Some(f) => f == "1"@,
                None => false,
            }) == c.debug
            &&& (match super::extract::header_get(hv, "X-B3-Sampled"@) {
                Some(s) => s == "1"@,
                None => true,
            }) == c.sampled
            &&& super::extract::b3_baggage_of(hv) == c.baggage
        }),
{
    reveal_strlit("X-B3-ParentSpanId");
    reveal_strlit("X-B3-SpanId");
    reveal_strlit("X-B3-TraceId");
    reveal_strlit("X-B3-Sampled");
    reveal_strlit("X-B3-Flags");
    reveal_strlit("OT-Baggage-");
    reveal_strlit("1");
    reveal_strlit("0");
    let pk = "X-B3-ParentSpanId"@;
    let sk = "X-B3-SpanId"@;
    let tk = "X-B3-TraceId"@;
    let sak = "X-B3-Sampled"@;
    let fk = "X-B3-Flags"@;
    assert("X-B3-TraceId"@ != "X-B3-Sampled"@) by {
        reveal_strlit("X-B3-TraceId");
        reveal_strlit("X-B3-Sampled");
        assert("X-B3-TraceId"@[5] == 'T');
        assert("X-B3-Sampled"@[5] == 'S');
        if "X-B3-TraceId"@ == "X-B3-Sampled"@ {
            assert("X-B3-TraceId"@[5] == "X-B3-Sampled"@[5]);
        }
    }
    let hv = b3_headers_of(c);
    let p_part = (match c.parent_span_id {
        Some(p) => seq![(pk, crate::hex::hex_min_of(p as int))],
        None => Seq::<(Seq<char>, Seq<char>)>::empty(),
    });
    let s_pair = (sk, crate::hex::hex_min_of(c.span_id as int));
    let t_pair = (tk, crate::hex::hex_of_bytes(c.trace_id));
    let sa_pair = (
        sak,
        if c.sampled {
            "1"@
        } else {
            "0"@
        },
    );
    let f_part = (if c.debug {
        seq![(fk, "1"@)]
    } else {
        Seq::<(Seq<char>, Seq<char>)>::empty()
    });
    let m = super::extract::prefixed_baggage(c.baggage);
    let after_p = seq![s_pair] + (seq![t_pair] + (seq![sa_pair] + (f_part + m)));
    assert(hv == p_part + after_p);
    assert(forall|i: int| 0 <= i < c.baggage.len() ==> (#[trigger] m[i]) == (
        "OT-Baggage-"@ + c.baggage[i].0,
        c.baggage[i].1,
    ));
    assert forall|i: int| 0 <= i < m.len() implies (#[trigger] m[i]).0[0] == 'O' by {
        assert(m[i].0 == "OT-Baggage-"@ + c.baggage[i].0);
    }

    // Hex round trips for the id renderings.
    crate::hex::lemma_hex_round_trip(c.trace_id);
    crate::hex::lemma_hex_min_round_trip(c.span_id as int);
    if c.parent_span_id is Some {
        crate::hex::lemma_hex_min_round_trip(c.parent_span_id->Some_0 as int);
    }

    // The span id header.
    assert forall|i: int| 0 <= i < p_part.len() implies (#[trigger] p_part[i]).0 != sk by {
        assert(p_part[i].0 == pk);
    }
    super::extract::lemma_header_get_skip_block(p_part, after_p, sk);
    super::extract::lemma_header_get_cons(s_pair, seq![t_pair] + (seq![sa_pair] + (f_part + m)), sk);

    // The trace id header.
    assert forall|i: int| 0 <= i < p_part.len() implies (#[trigger] p_part[i]).0 != tk by {
        assert(p_part[i].0 == pk);
    }
    super::extract::lemma_header_get_skip_block(p_part, after_p, tk);
    super::extract::lemma_header_get_cons(s_pair, seq![t_pair] + (seq![sa_pair] + (f_part + m)), tk);
    super::extract::lemma_header_get_cons(t_pair, seq![sa_pair] + (f_part + m), tk);

    // The sampled header.
    assert forall|i: int| 0 <= i < p_part.len() implies (#[trigger] p_part[i]).0 != sak by {
        assert(p_part[i].0 == pk);
    }
    super::extract::lemma_header_get_skip_block(p_part, after_p, sak);
    super::extract::lemma_header_get_cons(
        s_pair,
        seq![t_pair] + (seq![sa_pair] + (f_part + m)),
        sak,
    );
    super::extract::lemma_header_get_cons(t_pair, seq![sa_pair] + (f_part + m), sak);
    super::extract::lemma_header_get_cons(sa_pair, f_part + m, sak);
    assert("0"@ != "1"@) by {
        reveal_strlit("0");
        reveal_strlit("1");
        assert("0"@[0] == '0');
        assert("1"@[0] == '1');
        if "0"@ == "1"@ {
            assert("0"@[0] == "1"@[0]);
        }
    }

    // The parent span id header.
    match c.parent_span_id {
        Some(p) => {
            super::extract::lemma_header_get_cons(
                (pk, crate::hex::hex_min_of(p as int)),
                after_p,
                pk,
            );
        },
        None => {
            assert(p_part + after_p =~= after_p);
            super::extract::lemma_header_get_cons(
                s_pair,
                seq![t_pair] + (seq![sa_pair] + (f_part + m)),
                pk,
            );
            super::extract::lemma_header_get_cons(t_pair, seq![sa_pair] + (f_part + m), pk);
            super::extract::lemma_header_get_cons(sa_pair, f_part + m, pk);
            assert forall|i: int| 0 <= i < f_part.len() implies (#[trigger] f_part[i]).0 != pk by {
                assert(f_part[i].0 == fk);
            }
            super::extract::lemma_header_get_skip_block(f_part, m, pk);
            assert forall|i: int| 0 <= i < m.len() implies (#[trigger] m[i]).0 != pk by {
                assert(m[i].0[0] == 'O' && pk[0] == 'X');
            }
            super::extract::lemma_header_get_absent(m, pk);
        },
    }

    // The flags header.
    assert forall|i: int| 0 <= i < p_part.len() implies (#[trigger] p_part[i]).0 != fk by {
        assert(p_part[i].0 == pk);
    }
    super::extract::lemma_header_get_skip_block(p_part, after_p, fk);
    super::extract::lemma_header_get_cons(s_pair, seq![t_pair] + (seq![sa_pair] + (f_part + m)), fk);
    super::extract::lemma_header_get_cons(t_pair, seq![sa_pair] + (f_part + m), fk);
    super::extract::lemma_header_get_cons(sa_pair, f_part + m, fk);
    if c.debug {
        super::extract::lemma_header_get_cons((fk, "1"@), m, fk);
        assert(f_part + m == seq![(fk, "1"@)] + m);
    } else {
        assert(f_part + m =~= m);
        assert forall|i: int| 0 <= i < m.len() implies (#[trigger] m[i]).0 != fk by {
            assert(m[i].0[0] == 'O' && fk[0] == 'X');
        }
        super::extract::lemma_header_get_absent(m, fk);
    }

    // The baggage headers.
    let fixed = p_part + seq![s_pair] + seq![t_pair] + seq![sa_pair] + f_part;
    assert(hv =~= fixed + m);
    assert forall|i: int| 0 <= i < fixed.len() implies !super::extract::has_baggage_prefix(
        (#[trigger] fixed[i]).0,
    ) by {
        let key = fixed[i].0;
        assert(key == pk || key == sk || key == tk || key == sak || key == fk);
        if key.len() >= 11 {
            assert(key.take(11)[0] == 'X');
            assert("OT-Baggage-"@[0] == 'O');
        }
    }
    super::extract::lemma_b3_baggage_none(fixed);
    super::extract::lemma_b3_baggage_append(fixed, c.baggage);
    lemma_baggage_from_items_unique(c.baggage);
    assert(super::extract::b3_baggage_of(hv) == super::extract::b3_baggage_of(fixed + m));
    assert(super::extract::header_get(hv, tk) == Some(crate::hex::hex_of_bytes(c.trace_id)));
    assert(super::extract::valid_trace_hex(crate::hex::hex_of_bytes(c.trace_id)));
    assert(crate::hex::bytes_of_hex(crate::hex::hex_of_bytes(c.trace_id)) == c.trace_id);
    assert(super::extract::header_get(hv, sk) == Some(crate::hex::hex_min_of(c.span_id as int)));
    assert(crate::hex::is_hex_u64(crate::hex::hex_min_of(c.span_id as int)));
    assert(crate::hex::hex_val_of(crate::hex::hex_min_of(c.span_id as int)) == c.span_id as int);
    assert(match c.parent_span_id {
        Some(p) => super::extract::header_get(hv, pk) == Some(crate::hex::hex_min_of(p as int)),
        None => super::extract::header_get(hv, pk) is None,
    });
    assert((match super::extract::header_get(hv, fk) {
        Some(f) => f == "1"@,
        None => false,
    }) == c.debug);
    assert((match super::extract::header_get(hv, sak) {
        Some(s) => s == "1"@,
        None => true,
    }) == c.sampled);
    assert(super::extract::b3_baggage_of(hv) == c.baggage);
}

} // verus!
