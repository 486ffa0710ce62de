//! The binary span-context carrier: a length-prefixed, typed structure
//! in the Zipkin thrift-derived schema.
//!
//! Field ids: 1 trace_id (low half), 2 trace_id_high, 3 span_id,
//! 4 parent_span_id, 5 sampled, 6 flags (bit 0 = debug), 7 baggage_items
//! (map of string to string). A reader skips unknown fields for forward
//! compatibility. All integers are big-endian; strings carry a 32-bit
//! byte length before their UTF-8 bytes.

use vstd::prelude::*;
use vstd::string::StrSliceExecFns;
use vstd::utf8::decode_utf8;
use vstd::utf8::encode_utf8;
use vstd::utf8::valid_utf8;

use crate::wire::be16;
use crate::wire::be32;
use crate::wire::be64;
use crate::wire::u16_of_be;
use crate::wire::u32_of_be;
use crate::wire::u64_of_be;

verus! {

/// Wire type tags of the binary structure codec.
pub const TT_STOP: u8 = 0x00;
pub const TT_BOOL: u8 = 0x02;
pub const TT_I8: u8 = 0x03;
pub const TT_DOUBLE: u8 = 0x04;
pub const TT_I16: u8 = 0x06;
pub const TT_I32: u8 = 0x08;
pub const TT_I64: u8 = 0x0A;
pub const TT_STRING: u8 = 0x0B;
pub const TT_STRUCT: u8 = 0x0C;
pub const TT_MAP: u8 = 0x0D;
pub const TT_SET: u8 = 0x0E;
pub const TT_LIST: u8 = 0x0F;
pub const TT_UUID: u8 = 0x10;

/// Nesting allowance when skipping an unknown field.
pub const SKIP_DEPTH: u8 = 64;

/// The mathematical value of a carrier record.
pub ghost struct RecordView {
    pub trace_id: Option<u64>,
    pub trace_id_high: Option<u64>,
    pub span_id: Option<u64>,
    pub parent_span_id: Option<u64>,
    pub sampled: Option<bool>,
    pub flags: Option<u32>,
    pub baggage_items: Option<Seq<(Seq<char>, Seq<char>)>>,
}

/// The span-context record of the binary carrier. A 64-bit identifier
/// travels as a 64-bit wire integer; absent fields are not written.
pub struct SpanContext {
    pub trace_id: Option<u64>,
    pub trace_id_high: Option<u64>,
    pub span_id: Option<u64>,
    pub parent_span_id: Option<u64>,
    pub sampled: Option<bool>,
    pub flags: Option<u32>,
    pub baggage_items: Option<Vec<(String, String)>>,
}

/// The baggage items as sequences of characters.
pub open spec fn items_view(b: Seq<(String, String)>) -> Seq<(Seq<char>, Seq<char>)> {
    b.map_values(|p: (String, String)| (p.0@, p.1@))
}

impl View for SpanContext {
    type V = RecordView;

    open spec fn view(&self) -> RecordView {
        RecordView {
            trace_id: self.trace_id,
            trace_id_high: self.trace_id_high,
            span_id: self.span_id,
            parent_span_id: self.parent_span_id,
            sampled: self.sampled,
            flags: self.flags,
            baggage_items: match self.baggage_items {
                Some(items) => Some(items_view(items@)),
                None => None,
            },
        }
    }
}

impl SpanContext {
    /// Builds a record field by field, in schema order.
    pub fn new(
        trace_id: Option<u64>,
        trace_id_high: Option<u64>,
        span_id: Option<u64>,
        parent_span_id: Option<u64>,
        sampled: Option<bool>,
        flags: Option<u32>,
        baggage_items: Option<Vec<(String, String)>>,
    ) -> (r: SpanContext)
        ensures
            r.trace_id == trace_id,
            r.trace_id_high == trace_id_high,
            r.span_id == span_id,
            r.parent_span_id == parent_span_id,
            r.sampled == sampled,
            r.flags == flags,
            r.baggage_items == baggage_items,
    {
        SpanContext {
            trace_id,
            trace_id_high,
            span_id,
            parent_span_id,
            sampled,
            flags,
            baggage_items,
        }
    }
}

/// A string small enough for its 32-bit wire length prefix.
pub open spec fn str_encodable(s: Seq<char>) -> bool {
    encode_utf8(s).len() < 0x8000_0000
}

/// A record whose baggage fits the wire limits: fewer than 2^31 items,
/// each string below 2^31 UTF-8 bytes.
pub open spec fn record_encodable(r: RecordView) -> bool {
    match r.baggage_items {
        Some(items) => items.len() < 0x8000_0000 && (forall|i: int|
            0 <= i < items.len() ==> str_encodable((#[trigger] items[i]).0) && str_encodable(
                items[i].1,
            )),
        None => true,
    }
}

/// A 64-bit integer field: type tag, field id, eight value bytes.
pub open spec fn enc_u64_field(id: u16, v: u64) -> Seq<u8> {
    seq![TT_I64] + be16(id) + be64(v)
}

/// A bool field: type tag, field id, one byte holding 0 or 1.
pub open spec fn enc_bool_field(id: u16, v: bool) -> Seq<u8> {
    seq![TT_BOOL] + be16(id) + seq![if v { 1u8 } else { 0u8 }]
}

/// A 32-bit integer field: type tag, field id, four value bytes.
pub open spec fn enc_u32_field(id: u16, v: u32) -> Seq<u8> {
    seq![TT_I32] + be16(id) + be32(v)
}

/// A string: 32-bit byte length, then the UTF-8 bytes.
pub open spec fn enc_str(s: Seq<char>) -> Seq<u8> {
    be32(encode_utf8(s).len() as u32) + encode_utf8(s)
}

/// Baggage entries: each item is an encoded key then an encoded value.
pub open spec fn enc_baggage_entries(items: Seq<(Seq<char>, Seq<char>)>) -> Seq<u8>
    decreases items.len(),
{
    if items.len() == 0 {
        Seq::<u8>::empty()
    } else {
        enc_str(items[0].0) + enc_str(items[0].1) + enc_baggage_entries(items.skip(1))
    }
}

/// The baggage field: map header (key type, value type, item count),
/// then the entries.
pub open spec fn enc_baggage_field(items: Seq<(Seq<char>, Seq<char>)>) -> Seq<u8> {
    seq![TT_MAP] + be16(7) + seq![TT_STRING, TT_STRING] + be32(items.len() as u32)
        + enc_baggage_entries(items)
}

/// An optional 64-bit field: absent fields are not written.
pub open spec fn enc_opt_u64_field(id: u16, v: Option<u64>) -> Seq<u8> {
    match v {
        Some(v) => enc_u64_field(id, v),
        None => Seq::<u8>::empty(),
    }
}

/// An optional bool field: absent fields are not written.
pub open spec fn enc_opt_bool_field(id: u16, v: Option<bool>) -> Seq<u8> {
    match v {
        Some(v) => enc_bool_field(id, v),
        None => Seq::<u8>::empty(),
    }
}

/// An optional 32-bit field: absent fields are not written.
pub open spec fn enc_opt_u32_field(id: u16, v: Option<u32>) -> Seq<u8> {
    match v {
        Some(v) => enc_u32_field(id, v),
        None => Seq::<u8>::empty(),
    }
}

/// The optional baggage field: absent baggage is not written.
pub open spec fn enc_opt_baggage_field(items: Option<Seq<(Seq<char>, Seq<char>)>>) -> Seq<u8> {
    match items {
        Some(items) => enc_baggage_field(items),
        None => Seq::<u8>::empty(),
    }
}

/// A whole record: present fields in schema order, then the stop tag.
pub open spec fn enc_record(r: RecordView) -> Seq<u8> {
    enc_opt_u64_field(1, r.trace_id) + (enc_opt_u64_field(2, r.trace_id_high) + (
    enc_opt_u64_field(3, r.span_id) + (enc_opt_u64_field(4, r.parent_span_id) + (
    enc_opt_bool_field(5, r.sampled) + (enc_opt_u32_field(6, r.flags) + (enc_opt_baggage_field(
        r.baggage_items,
    ) + seq![TT_STOP]))))))
}

/// Appends a field header: the type tag and the big-endian field id.
pub(crate) fn write_field_header(out: &mut Vec<u8>, t: u8, id: u16)
    ensures
        final(out)@ == old(out)@ + seq![t] + be16(id),
{
    out.push(t);
    crate::wire::write_u16_be(out, id);
    assert(out@ =~= old(out)@ + seq![t] + be16(id));
}

/// Appends a string: its UTF-8 byte length, then its UTF-8 bytes.
pub(crate) fn write_str(out: &mut Vec<u8>, s: &String)
    requires
        str_encodable(s@),
    ensures
        final(out)@ == old(out)@ + enc_str(s@),
{
    let mut bytes = s.as_str().as_bytes_vec();
    crate::wire::write_u32_be(out, bytes.len() as u32);
    out.append(&mut bytes);
    assert(out@ =~= old(out)@ + enc_str(s@));
}

impl SpanContext {
    /// Appends the record's wire encoding.
    pub fn write_to_bytes(&self, out: &mut Vec<u8>)
        requires
            record_encodable(self@),
        ensures
            final(out)@ == old(out)@ + enc_record(self@),
    {
        write_opt_u64_field(out, 1, self.trace_id);
        write_opt_u64_field(out, 2, self.trace_id_high);
        write_opt_u64_field(out, 3, self.span_id);
        write_opt_u64_field(out, 4, self.parent_span_id);
        write_opt_bool_field(out, 5, self.sampled);
        write_opt_u32_field(out, 6, self.flags);
        match &self.baggage_items {
            Some(items) => {
                proof {
                    assert(self@.baggage_items == Some(items_view(items@)));
                    assert forall|j: int| 0 <= j < items@.len() implies str_encodable(
                        (#[trigger] items@[j]).0@,
                    ) && str_encodable(items@[j].1@) by {
                        assert(items_view(items@)[j] == (items@[j].0@, items@[j].1@));
                    }
                }
                write_baggage_field(out, items);
            },
            None => {
            },
        }
        out.push(TT_STOP);
        proof {
            assert(out@ =~= old(out)@ + enc_record(self@));
        }
    }
}

/// Appends an optional 64-bit field.
fn write_opt_u64_field(out: &mut Vec<u8>, id: u16, v: Option<u64>)
    ensures
        final(out)@ == old(out)@ + enc_opt_u64_field(id, v),
{
    if let Some(v) = v {
        write_field_header(out, TT_I64, id);
        crate::wire::write_u64_be(out, v);
        assert(out@ =~= old(out)@ + enc_opt_u64_field(id, Some(v)));
    } else {
        assert(out@ =~= old(out)@ + enc_opt_u64_field(id, None::<u64>));
    }
}

/// Appends an optional bool field.
fn write_opt_bool_field(out: &mut Vec<u8>, id: u16, v: Option<bool>)
    ensures
        final(out)@ == old(out)@ + enc_opt_bool_field(id, v),
{
    if let Some(v) = v {
        write_field_header(out, TT_BOOL, id);
        out.push(if v { 1 } else { 0 });
        assert(out@ =~= old(out)@ + enc_opt_bool_field(id, Some(v)));
    } else {
        assert(out@ =~= old(out)@ + enc_opt_bool_field(id, None::<bool>));
    }
}

/// Appends an optional 32-bit field.
fn write_opt_u32_field(out: &mut Vec<u8>, id: u16, v: Option<u32>)
    ensures
        final(out)@ == old(out)@ + enc_opt_u32_field(id, v),
{
    if let Some(v) = v {
        write_field_header(out, TT_I32, id);
        crate::wire::write_u32_be(out, v);
        assert(out@ =~= old(out)@ + enc_opt_u32_field(id, Some(v)));
    } else {
        assert(out@ =~= old(out)@ + enc_opt_u32_field(id, None::<u32>));
    }
}

/// Appends the baggage field: map header, then each key and value.
fn write_baggage_field(out: &mut Vec<u8>, items: &Vec<(String, String)>)
    requires
        items@.len() < 0x8000_0000,
        forall|i: int| 0 <= i < items@.len() ==> str_encodable((#[trigger] items@[i]).0@)
            && str_encodable(items@[i].1@),
    ensures
        final(out)@ == old(out)@ + enc_baggage_field(items_view(items@)),
{
    let ghost gitems = items_view(items@);
    write_field_header(out, TT_MAP, 7);
    out.push(TT_STRING);
    out.push(TT_STRING);
    crate::wire::write_u32_be(out, items.len() as u32);
    let ghost header = old(out)@ + seq![TT_MAP] + be16(7) + seq![TT_STRING, TT_STRING] + be32(
        items@.len() as u32,
    );
    proof {
        assert(enc_baggage_entries(gitems.take(0)) =~= Seq::<u8>::empty());
        assert(out@ =~= header + enc_baggage_entries(gitems.take(0)));
    }
    let mut i: usize = 0;
    while i < items.len()
        invariant
            gitems == items_view(items@),
            gitems.len() == items@.len(),
            forall|j: int| 0 <= j < items@.len() ==> str_encodable((#[trigger] items@[j]).0@)
                && str_encodable(items@[j].1@),
            i <= items@.len(),
            out@ == header + enc_baggage_entries(gitems.take(i as int)),
        decreases items@.len() - i,
    {
        proof {
            assert(gitems[i as int] == (items@[i as int].0@, items@[i as int].1@));
            lemma_enc_baggage_entries_snoc(gitems, i as int);
        }
        let pair = &items[i];
        write_str(out, &pair.0);
        write_str(out, &pair.1);
        proof {
            assert(out@ =~= header + enc_baggage_entries(gitems.take(i + 1)));
        }
        i += 1;
    }
    proof {
        assert(gitems.take(gitems.len() as int) =~= gitems);
        assert(out@ =~= old(out)@ + enc_baggage_field(gitems));
    }
}

/// Extending the encoded entries by one item appends that item's encoding.
proof fn lemma_enc_baggage_entries_snoc(items: Seq<(Seq<char>, Seq<char>)>, i: int)
    requires
        0 <= i < items.len(),
    ensures
        enc_baggage_entries(items.take(i + 1)) == enc_baggage_entries(items.take(i)) + enc_str(
            items[i].0,
        ) + enc_str(items[i].1),
    decreases i,
{
    if i == 0 {
        let t1 = items.take(1);
        assert(t1[0] == items[0]);
        assert(t1.skip(1) =~= Seq::<(Seq<char>, Seq<char>)>::empty());
        assert(enc_baggage_entries(Seq::<(Seq<char>, Seq<char>)>::empty())
            == Seq::<u8>::empty());
        assert(items.take(0) =~= Seq::<(Seq<char>, Seq<char>)>::empty());
        assert(enc_baggage_entries(t1) == enc_str(t1[0].0) + enc_str(t1[0].1)
            + enc_baggage_entries(t1.skip(1)));
        assert(enc_baggage_entries(t1) =~= enc_str(items[0].0) + enc_str(items[0].1));
    } else {
        let rest = items.skip(1);
        lemma_enc_baggage_entries_snoc(rest, i - 1);
        let ti1 = items.take(i + 1);
        let ti = items.take(i);
        assert(ti1[0] == items[0]);
        assert(ti[0] == items[0]);
        assert(ti1.skip(1) =~= rest.take(i));
        assert(ti.skip(1) =~= rest.take(i - 1));
        assert(rest[i - 1] == items[i]);
        assert(enc_baggage_entries(ti1) == enc_str(items[0].0) + enc_str(items[0].1)
            + enc_baggage_entries(rest.take(i)));
        assert(enc_baggage_entries(ti) == enc_str(items[0].0) + enc_str(items[0].1)
            + enc_baggage_entries(rest.take(i - 1)));
        assert(enc_baggage_entries(ti1) =~= enc_baggage_entries(ti) + enc_str(items[i].0) + enc_str(
            items[i].1,
        ));
    }
}


/// A record with no field seen yet.
pub open spec fn empty_record() -> RecordView {
    RecordView {
        trace_id: None,
        trace_id_high: None,
        span_id: None,
        parent_span_id: None,
        sampled: None,
        flags: None,
        baggage_items: None,
    }
}

/// Reads a string at the head of `b`: 32-bit byte length, then that many
/// UTF-8 bytes. Yields the characters and the bytes consumed.
pub open spec fn dec_string_at(b: Seq<u8>) -> Option<(Seq<char>, nat)> {
    if b.len() < 4 {
        None
    } else {
        let n = u32_of_be(b.take(4)) as int;
        if n >= 0x8000_0000 {
            None
        } else if b.len() < 4 + n {
            None
        } else {
            let raw = b.subrange(4, 4 + n);
            if valid_utf8(raw) {
                Some((decode_utf8(raw), (4 + n) as nat))
            } else {
                None
            }
        }
    }
}

/// Skips one value of wire type `t` at the head of `b`, up to `depth`
/// nested levels; yields the bytes consumed.
pub open spec fn spec_skip_value(t: u8, b: Seq<u8>, depth: int) -> Option<nat>
    decreases b.len(), depth, 1int, 0int,
{
    if depth <= 0 {
        None
    } else if t == TT_BOOL || t == TT_I8 {
        if b.len() >= 1 {
            Some(1nat)
        } else {
            None
        }
    } else if t == TT_I16 {
        if b.len() >= 2 {
            Some(2nat)
        } else {
            None
        }
    } else if t == TT_I32 {
        if b.len() >= 4 {
            Some(4nat)
        } else {
            None
        }
    } else if t == TT_I64 || t == TT_DOUBLE {
        if b.len() >= 8 {
            Some(8nat)
        } else {
            None
        }
    } else if t == TT_UUID {
        if b.len() >= 16 {
            Some(16nat)
        } else {
            None
        }
    } else if t == TT_STRING {
        if b.len() < 4 {
            None
        } else {
            let n = u32_of_be(b.take(4)) as int;
            if n >= 0x8000_0000 {
                None
            } else if b.len() < 4 + n {
                None
            } else {
                Some((4 + n) as nat)
            }
        }
    } else if t == TT_STRUCT {
        spec_skip_fields(b, depth)
    } else if t == TT_MAP {
        if b.len() < 6 {
            None
        } else {
            let size = u32_of_be(b.subrange(2, 6)) as int;
            if size >= 0x8000_0000 {
                None
            } else {
                match spec_skip_map_entries(b.skip(6), b[0], b[1], size, depth) {
                    None => None,
                    Some(c) => Some((6 + c) as nat),
                }
            }
        }
    } else if t == TT_SET || t == TT_LIST {
        if b.len() < 5 {
            None
        } else {
            let size = u32_of_be(b.subrange(1, 5)) as int;
            if size >= 0x8000_0000 {
                None
            } else {
                match spec_skip_list_entries(b.skip(5), b[0], size, depth) {
                    None => None,
                    Some(c) => Some((5 + c) as nat),
                }
            }
        }
    } else {
        None
    }
}

/// Skips whole fields until a stop tag; yields the bytes consumed,
/// the stop tag included.
pub open spec fn spec_skip_fields(b: Seq<u8>, depth: int) -> Option<nat>
    decreases b.len(), depth, 0int, 0int,
{
    if b.len() == 0 {
        None
    } else if b[0] == TT_STOP {
        Some(1nat)
    } else if b.len() < 3 {
        None
    } else {
        match spec_skip_value(b[0], b.skip(3), depth - 1) {
            None => None,
            Some(c) => if c > b.len() - 3 {
                None
            } else {
                match spec_skip_fields(b.skip(3 + c as int), depth) {
                    None => None,
                    Some(c2) => Some((3 + c + c2) as nat),
                }
            },
        }
    }
}

/// Skips `count` key/value pairs of the given wire types.
pub open spec fn spec_skip_map_entries(b: Seq<u8>, kt: u8, vt: u8, count: int, depth: int) -> Option<
    nat,
>
    decreases b.len(), depth, 0int, count,
{
    if count <= 0 {
        Some(0nat)
    } else if depth <= 0 {
        None
    } else {
        match spec_skip_value(kt, b, depth - 1) {
            None => None,
            Some(c1) => if c1 > b.len() {
                None
            } else {
                match spec_skip_value(vt, b.skip(c1 as int), depth - 1) {
                    None => None,
                    Some(c2) => if c1 + c2 > b.len() {
                        None
                    } else {
                        match spec_skip_map_entries(
                            b.skip((c1 + c2) as int),
                            kt,
                            vt,
                            count - 1,
                            depth,
                        ) {
                            None => None,
                            Some(c3) => Some((c1 + c2 + c3) as nat),
                        }
                    },
                }
            },
        }
    }
}

/// Skips `count` elements of the given wire type.
pub open spec fn spec_skip_list_entries(b: Seq<u8>, et: u8, count: int, depth: int) -> Option<nat>
    decreases b.len(), depth, 0int, count,
{
    if count <= 0 {
        Some(0nat)
    } else if depth <= 0 {
        None
    } else {
        match spec_skip_value(et, b, depth - 1) {
            None => None,
            Some(c) => if c > b.len() {
                None
            } else {
                match spec_skip_list_entries(b.skip(c as int), et, count - 1, depth) {
                    None => None,
                    Some(c2) => Some((c + c2) as nat),
                }
            },
        }
    }
}

/// Reads `count` baggage entries, each a key string then a value string;
/// yields the items and the bytes consumed.
pub open spec fn spec_dec_baggage_entries(b: Seq<u8>, count: int) -> Option<
    (Seq<(Seq<char>, Seq<char>)>, nat),
>
    decreases b.len(), count,
{
    if count <= 0 {
        Some((Seq::<(Seq<char>, Seq<char>)>::empty(), 0nat))
    } else {
        match dec_string_at(b) {
            None => None,
            Some((k, c1)) => if c1 > b.len() {
                None
            } else {
                match dec_string_at(b.skip(c1 as int)) {
                    None => None,
                    Some((v, c2)) => if c1 + c2 > b.len() {
                        None
                    } else {
                        match spec_dec_baggage_entries(b.skip((c1 + c2) as int), count - 1) {
                            None => None,
                            Some((rest, c3)) => Some(
                                (seq![(k, v)] + rest, (c1 + c2 + c3) as nat),
                            ),
                        }
                    },
                }
            },
        }
    }
}

/// Updates the identifier field named by `id` (1 to 4).
pub open spec fn record_with_u64(acc: RecordView, id: u16, v: u64) -> RecordView {
    if id == 1 {
        RecordView { trace_id: Some(v), ..acc }
    } else if id == 2 {
        RecordView { trace_id_high: Some(v), ..acc }
    } else if id == 3 {
        RecordView { span_id: Some(v), ..acc }
    } else {
        RecordView { parent_span_id: Some(v), ..acc }
    }
}

/// Reads fields into `acc` until a stop tag. A field is recognized by its
/// id; a field with any other id is skipped. Trailing bytes after the
/// stop tag are left unread.
pub open spec fn spec_dec_fields(b: Seq<u8>, acc: RecordView) -> Option<RecordView>
    decreases b.len(),
{
    if b.len() == 0 {
        None
    } else if b[0] == TT_STOP {
        Some(acc)
    } else if b.len() < 3 {
        None
    } else {
        let t = b[0];
        let id = u16_of_be(b.subrange(1, 3));
        let r = b.skip(3);
        if id == 1 || id == 2 || id == 3 || id == 4 {
            if r.len() < 8 {
                None
            } else {
                spec_dec_fields(b.skip(11), record_with_u64(acc, id, u64_of_be(r.take(8))))
            }
        } else if id == 5 {
            if r.len() < 1 {
                None
            } else {
                spec_dec_fields(b.skip(4), RecordView { sampled: Some(r[0] != 0), ..acc })
            }
        } else if id == 6 {
            if r.len() < 4 {
                None
            } else {
                spec_dec_fields(b.skip(7), RecordView { flags: Some(u32_of_be(r.take(4))), ..acc })
            }
        } else if id == 7 {
            if r.len() < 6 {
                None
            } else {
                let size = u32_of_be(r.subrange(2, 6)) as int;
                if size >= 0x8000_0000 {
                    None
                } else {
                    match spec_dec_baggage_entries(r.skip(6), size) {
                        None => None,
                        Some((items, c)) => if c > r.len() - 6 {
                            None
                        } else {
                            spec_dec_fields(
                                b.skip(9 + c as int),
                                RecordView { baggage_items: Some(items), ..acc },
                            )
                        },
                    }
                }
            }
        } else {
            match spec_skip_value(t, r, SKIP_DEPTH as int) {
                None => None,
                Some(c) => if c > r.len() {
                    None
                } else {
                    spec_dec_fields(b.skip(3 + c as int), acc)
                },
            }
        }
    }
}


/// Relies on String::from_utf8: it succeeds exactly on valid UTF-8 and
/// returns the string holding those very bytes, so its characters are
/// the UTF-8 decoding of the input.
#[verifier::external_body]
fn string_from_utf8(bytes: Vec<u8>) -> (r: Option<String>)
    ensures
        match r {
            Some(s) => valid_utf8(bytes@) && s@ == decode_utf8(bytes@),
            None => !valid_utf8(bytes@),
        },
{
    String::from_utf8(bytes).ok()
}

/// Copies `n` bytes starting at `start` into a fresh vector.
fn copy_range(buf: &Vec<u8>, start: usize, n: usize) -> (r: Vec<u8>)
    requires
        start + n <= buf@.len(),
    ensures
        r@ == buf@.subrange(start as int, start + n),
{
    let total = buf.len();
    let mut out: Vec<u8> = Vec::new();
    let mut i: usize = 0;
    while i < n
        invariant
            total == buf@.len(),
            start + n <= total,
            i <= n,
            out@ =~= buf@.subrange(start as int, start + i),
        decreases n - i,
    {
        out.push(buf[start + i]);
        proof {
            assert(out@ =~= buf@.subrange(start as int, start + i + 1));
        }
        i += 1;
    }
    out
}

/// Reads a length-prefixed UTF-8 string at `pos`; yields the string and
/// the position after it.
fn read_string_at(buf: &Vec<u8>, pos: usize) -> (r: Result<(String, usize), ()>)
    requires
        pos <= buf@.len(),
    ensures
        match r {
            Ok((s, p)) => pos < p <= buf@.len() && dec_string_at(buf@.skip(pos as int)) == Some(
                (s@, (p - pos) as nat),
            ),
            Err(_) => dec_string_at(buf@.skip(pos as int)) is None,
        },
{
    let ghost b = buf@.skip(pos as int);
    if buf.len() - pos < 4 {
        return Err(());
    }
    let n32 = crate::wire::read_u32_be(buf.as_slice(), pos);
    proof {
        assert(buf@.subrange(pos as int, pos + 4) =~= b.take(4));
    }
    if n32 >= 0x8000_0000u32 {
        return Err(());
    }
    let n = n32 as usize;
    if buf.len() - (pos + 4) < n {
        return Err(());
    }
    let raw = copy_range(buf, pos + 4, n);
    proof {
        assert(buf@.subrange(pos + 4, pos + 4 + n) =~= b.subrange(4, 4 + n as int));
    }
    match string_from_utf8(raw) {
        Some(s) => Ok((s, pos + 4 + n)),
        None => Err(()),
    }
}

/// Skips one value of wire type `t` at `pos`, up to `depth` nested levels.
fn skip_value_at(buf: &Vec<u8>, pos: usize, t: u8, depth: u8) -> (r: Result<usize, ()>)
    requires
        pos <= buf@.len(),
    ensures
        match r {
            Ok(p) => pos <= p <= buf@.len() && spec_skip_value(
                t,
                buf@.skip(pos as int),
                depth as int,
            ) == Some((p - pos) as nat),
            Err(_) => spec_skip_value(t, buf@.skip(pos as int), depth as int) is None,
        },
    decreases buf@.len() - pos, depth, 1int, 0int,
{
    let ghost b = buf@.skip(pos as int);
    if depth == 0 {
        return Err(());
    }
    let remaining = buf.len() - pos;
    if t == TT_BOOL || t == TT_I8 {
        if remaining >= 1 {
            Ok(pos + 1)
        } else {
            Err(())
        }
    } else if t == TT_I16 {
        if remaining >= 2 {
            Ok(pos + 2)
        } else {
            Err(())
        }
    } else if t == TT_I32 {
        if remaining >= 4 {
            Ok(pos + 4)
        } else {
            Err(())
        }
    } else if t == TT_I64 || t == TT_DOUBLE {
        if remaining >= 8 {
            Ok(pos + 8)
        } else {
            Err(())
        }
    } else if t == TT_UUID {
        if remaining >= 16 {
            Ok(pos + 16)
        } else {
            Err(())
        }
    } else if t == TT_STRING {
        if remaining < 4 {
            return Err(());
        }
        let n32 = crate::wire::read_u32_be(buf.as_slice(), pos);
        proof {
            assert(buf@.subrange(pos as int, pos + 4) =~= b.take(4));
        }
        if n32 >= 0x8000_0000u32 {
            return Err(());
        }
        let n = n32 as usize;
        if buf.len() - (pos + 4) < n {
            return Err(());
        }
        Ok(pos + 4 + n)
    } else if t == TT_STRUCT {
        skip_fields_at(buf, pos, depth)
    } else if t == TT_MAP {
        if remaining < 6 {
            return Err(());
        }
        let kt = buf[pos];
        let vt = buf[pos + 1];
        let size = crate::wire::read_u32_be(buf.as_slice(), pos + 2);
        proof {
            assert(b[0] == buf@[pos as int] && b[1] == buf@[pos + 1]);
            assert(buf@.subrange(pos + 2, pos + 6) =~= b.subrange(2, 6));
        }
        if size >= 0x8000_0000u32 {
            return Err(());
        }
        proof {
            assert(buf@.skip(pos + 6) =~= b.skip(6));
        }
        match skip_map_entries_at(buf, pos + 6, kt, vt, size, depth) {
            Ok(p) => Ok(p),
            Err(_) => Err(()),
        }
    } else if t == TT_SET || t == TT_LIST {
        if remaining < 5 {
            return Err(());
        }
        let et = buf[pos];
        let size = crate::wire::read_u32_be(buf.as_slice(), pos + 1);
        proof {
            assert(b[0] == buf@[pos as int]);
            assert(buf@.subrange(pos + 1, pos + 5) =~= b.subrange(1, 5));
        }
        if size >= 0x8000_0000u32 {
            return Err(());
        }
        proof {
            assert(buf@.skip(pos + 5) =~= b.skip(5));
        }
        match skip_list_entries_at(buf, pos + 5, et, size, depth) {
            Ok(p) => Ok(p),
            Err(_) => Err(()),
        }
    } else {
        Err(())
    }
}

/// Skips whole fields at `pos` until a stop tag.
fn skip_fields_at(buf: &Vec<u8>, pos: usize, depth: u8) -> (r: Result<usize, ()>)
    requires
        pos <= buf@.len(),
    ensures
        match r {
            Ok(p) => pos <= p <= buf@.len() && spec_skip_fields(
                buf@.skip(pos as int),
                depth as int,
            ) == Some((p - pos) as nat),
            Err(_) => spec_skip_fields(buf@.skip(pos as int), depth as int) is None,
        },
    decreases buf@.len() - pos, depth, 0int, 0int,
{
    let ghost b = buf@.skip(pos as int);
    if buf.len() == pos {
        return Err(());
    }
    let t = buf[pos];
    proof {
        assert(b[0] == buf@[pos as int]);
    }
    if t == TT_STOP {
        return Ok(pos + 1);
    }
    if buf.len() - pos < 3 {
        return Err(());
    }
    proof {
        assert(b.skip(3) =~= buf@.skip(pos + 3));
    }
    if depth == 0 {
        proof {
            assert(spec_skip_value(t, b.skip(3), -1) is None);
        }
        return Err(());
    }
    match skip_value_at(buf, pos + 3, t, depth - 1) {
        Err(_) => Err(()),
        Ok(p1) => {
            proof {
                assert(b.skip(3 + (p1 - pos - 3)) =~= buf@.skip(p1 as int));
            }
            match skip_fields_at(buf, p1, depth) {
                Err(_) => Err(()),
                Ok(p2) => Ok(p2),
            }
        },
    }
}

/// Skips `count` key/value pairs at `pos`.
fn skip_map_entries_at(buf: &Vec<u8>, pos: usize, kt: u8, vt: u8, count: u32, depth: u8) -> (r:
    Result<usize, ()>)
    requires
        pos <= buf@.len(),
    ensures
        match r {
            Ok(p) => pos <= p <= buf@.len() && spec_skip_map_entries(
                buf@.skip(pos as int),
                kt,
                vt,
                count as int,
                depth as int,
            ) == Some((p - pos) as nat),
            Err(_) => spec_skip_map_entries(
                buf@.skip(pos as int),
                kt,
                vt,
                count as int,
                depth as int,
            ) is None,
        },
    decreases buf@.len() - pos, depth, 0int, count,
{
    let ghost b = buf@.skip(pos as int);
    if count == 0 {
        return Ok(pos);
    }
    if depth == 0 {
        return Err(());
    }
    match skip_value_at(buf, pos, kt, depth - 1) {
        Err(_) => Err(()),
        Ok(p1) => {
            proof {
                assert(b.skip(p1 - pos) =~= buf@.skip(p1 as int));
            }
            match skip_value_at(buf, p1, vt, depth - 1) {
                Err(_) => Err(()),
                Ok(p2) => {
                    proof {
                        assert(b.skip(p2 - pos) =~= buf@.skip(p2 as int));
                    }
                    match skip_map_entries_at(buf, p2, kt, vt, count - 1, depth) {
                        Err(_) => Err(()),
                        Ok(p3) => Ok(p3),
                    }
                },
            }
        },
    }
}

/// Skips `count` elements at `pos`.
fn skip_list_entries_at(buf: &Vec<u8>, pos: usize, et: u8, count: u32, depth: u8) -> (r: Result<
    usize,
    (),
>)
    requires
        pos <= buf@.len(),
    ensures
        match r {
            Ok(p) => pos <= p <= buf@.len() && spec_skip_list_entries(
                buf@.skip(pos as int),
                et,
                count as int,
                depth as int,
            ) == Some((p - pos) as nat),
            Err(_) => spec_skip_list_entries(
                buf@.skip(pos as int),
                et,
                count as int,
                depth as int,
            ) is None,
        },
    decreases buf@.len() - pos, depth, 0int, count,
{
    let ghost b = buf@.skip(pos as int);
    if count == 0 {
        return Ok(pos);
    }
    if depth == 0 {
        return Err(());
    }
    match skip_value_at(buf, pos, et, depth - 1) {
        Err(_) => Err(()),
        Ok(p1) => {
            proof {
                assert(b.skip(p1 - pos) =~= buf@.skip(p1 as int));
            }
            match skip_list_entries_at(buf, p1, et, count - 1, depth) {
                Err(_) => Err(()),
                Ok(p2) => Ok(p2),
            }
        },
    }
}

/// Joins a decoded prefix with the outcome on the remaining bytes.
pub open spec fn join_baggage_dec(
    prefix: Seq<(Seq<char>, Seq<char>)>,
    consumed: nat,
    rest: Option<(Seq<(Seq<char>, Seq<char>)>, nat)>,
) -> Option<(Seq<(Seq<char>, Seq<char>)>, nat)> {
    match rest {
        None => None,
        Some((items, c)) => Some((prefix + items, (consumed + c) as nat)),
    }
}

/// Reads `count` baggage entries at `pos`.
fn read_baggage_entries_at(buf: &Vec<u8>, pos: usize, count: u32) -> (r: Result<
    (Vec<(String, String)>, usize),
    (),
>)
    requires
        pos <= buf@.len(),
    ensures
        match r {
            Ok((items, p)) => pos <= p <= buf@.len() && spec_dec_baggage_entries(
                buf@.skip(pos as int),
                count as int,
            ) == Some((items_view(items@), (p - pos) as nat)),
            Err(_) => spec_dec_baggage_entries(buf@.skip(pos as int), count as int) is None,
        },
{
    let mut items: Vec<(String, String)> = Vec::new();
    let mut p = pos;
    let mut remaining = count;
    while remaining > 0
        invariant
            pos <= p <= buf@.len(),
            spec_dec_baggage_entries(buf@.skip(pos as int), count as int) == join_baggage_dec(
                items_view(items@),
                (p - pos) as nat,
                spec_dec_baggage_entries(buf@.skip(p as int), remaining as int),
            ),
        decreases remaining,
    {
        let ghost b = buf@.skip(p as int);
        let ghost items0 = items_view(items@);
        let (k, p1) = match read_string_at(buf, p) {
            Ok(kp) => kp,
            Err(_) => {
                return Err(());
            },
        };
        proof {
            assert(b.skip(p1 - p) =~= buf@.skip(p1 as int));
        }
        let (v, p2) = match read_string_at(buf, p1) {
            Ok(vp) => vp,
            Err(_) => {
                return Err(());
            },
        };
        proof {
            assert(b.skip(p2 - p) =~= buf@.skip(p2 as int));
        }
        items.push((k, v));
        proof {
            assert(items_view(items@) =~= items0 + seq![(k@, v@)]);
            let rest2 = spec_dec_baggage_entries(buf@.skip(p2 as int), remaining - 1);
            assert(spec_dec_baggage_entries(b, remaining as int) == (match rest2 {
                None => None,
                Some((restitems, c3)) => Some(
                    (seq![(k@, v@)] + restitems, ((p2 - p) + c3) as nat),
                ),
            }));
            match rest2 {
                None => {
                },
                Some((restitems, c3)) => {
                    assert(items0 + (seq![(k@, v@)] + restitems) =~= (items0 + seq![(k@, v@)])
                        + restitems);
                },
            }
        }
        p = p2;
        remaining -= 1;
    }
    proof {
        let empty_items = Seq::<(Seq<char>, Seq<char>)>::empty();
        assert(spec_dec_baggage_entries(buf@.skip(p as int), 0) == Some((empty_items, 0nat)));
        assert(items_view(items@) + empty_items =~= items_view(items@));
    }
    Ok((items, p))
}

impl SpanContext {
    /// Decodes a record from a byte carrier, reading fields until the
    /// stop tag and skipping fields with unknown ids.
    pub fn read_from_bytes(buf: &Vec<u8>) -> (r: Result<SpanContext, ()>)
        ensures
            match r {
                Ok(rec) => spec_dec_fields(buf@, empty_record()) == Some(rec@),
                Err(_) => spec_dec_fields(buf@, empty_record()) is None,
            },
    {
        let mut rec = SpanContext {
            trace_id: None,
            trace_id_high: None,
            span_id: None,
            parent_span_id: None,
            sampled: None,
            flags: None,
            baggage_items: None,
        };
        let mut pos: usize = 0;
        proof {
            assert(buf@.skip(0) =~= buf@);
            assert(rec@ == empty_record());
        }
        loop
            invariant
                pos <= buf@.len(),
                spec_dec_fields(buf@, empty_record()) == spec_dec_fields(
                    buf@.skip(pos as int),
                    rec@,
                ),
            decreases buf@.len() - pos,
        {
            match read_one_field(buf, pos, &mut rec) {
                Err(_) => {
                    return Err(());
                },
                Ok(None) => {
                    return Ok(rec);
                },
                Ok(Some(p)) => {
                    pos = p;
                },
            }
        }
    }
}

/// Reads one field at `pos` into `rec`. Yields the position after the
/// field, or nothing once the stop tag is reached.
#[verifier::rlimit(100)]
fn read_one_field(buf: &Vec<u8>, pos: usize, rec: &mut SpanContext) -> (r: Result<
    Option<usize>,
    (),
>)
    requires
        pos <= buf@.len(),
    ensures
        match r {
            Ok(None) => spec_dec_fields(buf@.skip(pos as int), old(rec)@) == Some(old(rec)@)
                && *final(rec) == *old(rec),
            Ok(Some(p)) => pos < p <= buf@.len() && spec_dec_fields(
                buf@.skip(pos as int),
                old(rec)@,
            ) == spec_dec_fields(buf@.skip(p as int), final(rec)@),
            Err(_) => spec_dec_fields(buf@.skip(pos as int), old(rec)@) is None,
        },
{
    let ghost b = buf@.skip(pos as int);
    if pos == buf.len() {
        return Err(());
    }
    let t = buf[pos];
    proof {
        assert(b[0] == buf@[pos as int]);
    }
    if t == TT_STOP {
        return Ok(None);
    }
    if buf.len() - pos < 3 {
        return Err(());
    }
    let id = crate::wire::read_u16_be(buf.as_slice(), pos + 1);
    proof {
        assert(buf@.subrange(pos + 1, pos + 3) =~= b.subrange(1, 3));
        assert(b.skip(3) =~= buf@.skip(pos + 3));
    }
    if id >= 1 && id <= 4 {
        read_u64_field(buf, pos, id, rec)
    } else if id == 5 {
        if buf.len() - (pos + 3) < 1 {
            return Err(());
        }
        let sampled = buf[pos + 3] != 0;
        rec.sampled = Some(sampled);
        proof {
            assert(b.skip(3)[0] == buf@[pos + 3]);
            assert(b.skip(4) =~= buf@.skip(pos + 4));
        }
        Ok(Some(pos + 4))
    } else if id == 6 {
        if buf.len() - (pos + 3) < 4 {
            return Err(());
        }
        let v = crate::wire::read_u32_be(buf.as_slice(), pos + 3);
        rec.flags = Some(v);
        proof {
            assert(buf@.subrange(pos + 3, pos + 7) =~= b.skip(3).take(4));
            assert(b.skip(7) =~= buf@.skip(pos + 7));
        }
        Ok(Some(pos + 7))
    } else if id == 7 {
        read_baggage_field(buf, pos, rec)
    } else {
        match skip_value_at(buf, pos + 3, t, SKIP_DEPTH) {
            Err(_) => Err(()),
            Ok(p) => {
                proof {
                    assert(b.skip(3 + (p - pos - 3)) =~= buf@.skip(p as int));
                }
                Ok(Some(p))
            },
        }
    }
}


/// Reads a 64-bit identifier field (ids 1 to 4) at `pos` into `rec`.
#[verifier::rlimit(60)]
fn read_u64_field(buf: &Vec<u8>, pos: usize, id: u16, rec: &mut SpanContext) -> (r: Result<
    Option<usize>,
    (),
>)
    requires
        pos <= buf@.len(),
        pos < buf@.len() && buf@[pos as int] != TT_STOP,
        buf@.len() - pos >= 3,
        1 <= id <= 4,
        id == u16_of_be(buf@.skip(pos as int).subrange(1, 3)),
    ensures
        match r {
            Ok(Some(p)) => pos < p <= buf@.len() && spec_dec_fields(
                buf@.skip(pos as int),
                old(rec)@,
            ) == spec_dec_fields(buf@.skip(p as int), final(rec)@),
            Ok(None) => false,
            Err(_) => spec_dec_fields(buf@.skip(pos as int), old(rec)@) is None,
        },
{
    let ghost b = buf@.skip(pos as int);
    proof {
        assert(b[0] == buf@[pos as int]);
        assert(b.skip(3) =~= buf@.skip(pos + 3));
    }
    if buf.len() - (pos + 3) < 8 {
        return Err(());
    }
    let v = crate::wire::read_u64_be(buf.as_slice(), pos + 3);
    proof {
        assert(buf@.subrange(pos + 3, pos + 11) =~= b.skip(3).take(8));
    }
    if id == 1 {
        rec.trace_id = Some(v);
    } else if id == 2 {
        rec.trace_id_high = Some(v);
    } else if id == 3 {
        rec.span_id = Some(v);
    } else {
        rec.parent_span_id = Some(v);
    }
    proof {
        assert(rec@ == record_with_u64(old(rec)@, id, v));
        assert(b.skip(11) =~= buf@.skip(pos + 11));
    }
    Ok(Some(pos + 11))
}

/// Reads the baggage map field (id 7) at `pos` into `rec`.
#[verifier::rlimit(60)]
fn read_baggage_field(buf: &Vec<u8>, pos: usize, rec: &mut SpanContext) -> (r: Result<
    Option<usize>,
    (),
>)
    requires
        pos <= buf@.len(),
        pos < buf@.len() && buf@[pos as int] != TT_STOP,
        buf@.len() - pos >= 3,
        u16_of_be(buf@.skip(pos as int).subrange(1, 3)) == 7,
    ensures
        match r {
            Ok(Some(p)) => pos < p <= buf@.len() && spec_dec_fields(
                buf@.skip(pos as int),
                old(rec)@,
            ) == spec_dec_fields(buf@.skip(p as int), final(rec)@),
            Ok(None) => false,
            Err(_) => spec_dec_fields(buf@.skip(pos as int), old(rec)@) is None,
        },
{
    let ghost b = buf@.skip(pos as int);
    proof {
        assert(b[0] == buf@[pos as int]);
        assert(b.skip(3) =~= buf@.skip(pos + 3));
    }
    if buf.len() - (pos + 3) < 6 {
        return Err(());
    }
    let size = crate::wire::read_u32_be(buf.as_slice(), pos + 5);
    proof {
        assert(buf@.subrange(pos + 5, pos + 9) =~= b.skip(3).subrange(2, 6));
        assert(b.skip(3).skip(6) =~= buf@.skip(pos + 9));
    }
    if size >= 0x8000_0000u32 {
        return Err(());
    }
    match read_baggage_entries_at(buf, pos + 9, size) {
        Err(_) => Err(()),
        Ok((items, p)) => {
            rec.baggage_items = Some(items);
            proof {
                assert(b.skip(9 + (p - pos - 9)) =~= buf@.skip(p as int));
            }
            Ok(Some(p))
        },
    }
}

/// Decoding a 64-bit identifier field sets that field and moves on.
proof fn lemma_dec_u64_field_step(id: u16, v: u64, rest: Seq<u8>, acc: RecordView)
    requires
        1 <= id <= 4,
    ensures
        spec_dec_fields(enc_u64_field(id, v) + rest, acc) == spec_dec_fields(
            rest,
            record_with_u64(acc, id, v),
        ),
{
    let b = enc_u64_field(id, v) + rest;
    assert(b.len() == 11 + rest.len());
    assert(b[0] == TT_I64);
    assert(b.subrange(1, 3) =~= be16(id));
    crate::wire::lemma_u16_be_round_trip(id);
    assert(b.skip(3).take(8) =~= be64(v));
    crate::wire::lemma_u64_be_round_trip(v);
    assert(b.skip(11) =~= rest);
}

/// Decoding the sampled field sets it and moves on.
proof fn lemma_dec_bool_field_step(v: bool, rest: Seq<u8>, acc: RecordView)
    ensures
        spec_dec_fields(enc_bool_field(5, v) + rest, acc) == spec_dec_fields(
            rest,
            RecordView { sampled: Some(v), ..acc },
        ),
{
    let b = enc_bool_field(5, v) + rest;
    assert(b.len() == 4 + rest.len());
    assert(b[0] == TT_BOOL);
    assert(b.subrange(1, 3) =~= be16(5));
    crate::wire::lemma_u16_be_round_trip(5);
    assert(b.skip(3)[0] == (if v { 1u8 } else { 0u8 }));
    assert(b.skip(4) =~= rest);
}

/// Decoding the flags field sets it and moves on.
proof fn lemma_dec_u32_field_step(v: u32, rest: Seq<u8>, acc: RecordView)
    ensures
        spec_dec_fields(enc_u32_field(6, v) + rest, acc) == spec_dec_fields(
            rest,
            RecordView { flags: Some(v), ..acc },
        ),
{
    let b = enc_u32_field(6, v) + rest;
    assert(b.len() == 7 + rest.len());
    assert(b[0] == TT_I32);
    assert(b.subrange(1, 3) =~= be16(6));
    crate::wire::lemma_u16_be_round_trip(6);
    assert(b.skip(3).take(4) =~= be32(v));
    crate::wire::lemma_u32_be_round_trip(v);
    assert(b.skip(7) =~= rest);
}

/// Decoding an encoded string yields the characters and its length.
proof fn lemma_dec_string_step(s: Seq<char>, rest: Seq<u8>)
    requires
        str_encodable(s),
    ensures
        dec_string_at(enc_str(s) + rest) == Some(
            (s, (4 + encode_utf8(s).len()) as nat),
        ),
{
    broadcast use vstd::utf8::encode_utf8_valid_utf8;
    broadcast use vstd::utf8::encode_utf8_decode_utf8;

    let raw = encode_utf8(s);
    let n = raw.len() as int;
    let b = enc_str(s) + rest;
    assert(b.len() == 4 + n + rest.len());
    assert(b.take(4) =~= be32(n as u32));
    crate::wire::lemma_u32_be_round_trip(n as u32);
    assert(b.subrange(4, 4 + n) =~= raw);
}

/// Decoding encoded baggage entries yields the items and their length.
proof fn lemma_dec_baggage_entries_round(items: Seq<(Seq<char>, Seq<char>)>, rest: Seq<u8>)
    requires
        forall|i: int| 0 <= i < items.len() ==> str_encodable((#[trigger] items[i]).0)
            && str_encodable(items[i].1),
    ensures
        spec_dec_baggage_entries(enc_baggage_entries(items) + rest, items.len() as int) == Some(
            (items, enc_baggage_entries(items).len() as nat),
        ),
    decreases items.len(),
{
    if items.len() == 0 {
        assert(enc_baggage_entries(items) =~= Seq::<u8>::empty());
    } else {
        let k = items[0].0;
        let v = items[0].1;
        let tail = items.skip(1);
        let ek = enc_str(k);
        let ev = enc_str(v);
        let etail = enc_baggage_entries(tail);
        let b = enc_baggage_entries(items) + rest;
        assert(enc_baggage_entries(items) == ek + ev + etail);
        assert(b =~= ek + (ev + etail + rest));
        lemma_dec_string_step(k, ev + etail + rest);
        assert(dec_string_at(b) == Some((k, ek.len() as nat)));
        assert(b.skip(ek.len() as int) =~= ev + (etail + rest));
        lemma_dec_string_step(v, etail + rest);
        assert(dec_string_at(b.skip(ek.len() as int)) == Some((v, ev.len() as nat)));
        assert(b.skip(ek.len() + ev.len() as int) =~= etail + rest);
        assert(forall|i: int| 0 <= i < tail.len() ==> (#[trigger] tail[i]) == items[i + 1]);
        lemma_dec_baggage_entries_round(tail, rest);
        assert((k, v) == items[0]);
        assert(seq![(k, v)] + tail =~= items);
    }
}

/// Decoding the baggage field sets it and moves on.
proof fn lemma_dec_baggage_field_step(
    items: Seq<(Seq<char>, Seq<char>)>,
    rest: Seq<u8>,
    acc: RecordView,
)
    requires
        items.len() < 0x8000_0000,
        forall|i: int| 0 <= i < items.len() ==> str_encodable((#[trigger] items[i]).0)
            && str_encodable(items[i].1),
    ensures
        spec_dec_fields(enc_baggage_field(items) + rest, acc) == spec_dec_fields(
            rest,
            RecordView { baggage_items: Some(items), ..acc },
        ),
{
    let entries = enc_baggage_entries(items);
    let b = enc_baggage_field(items) + rest;
    assert(b.len() == 9 + entries.len() + rest.len());
    assert(b[0] == TT_MAP);
    assert(b.subrange(1, 3) =~= be16(7));
    crate::wire::lemma_u16_be_round_trip(7);
    let r = b.skip(3);
    assert(r.len() >= 6);
    assert(r.subrange(2, 6) =~= be32(items.len() as u32));
    crate::wire::lemma_u32_be_round_trip(items.len() as u32);
    assert(r.skip(6) =~= entries + rest);
    lemma_dec_baggage_entries_round(items, rest);
    assert(spec_dec_baggage_entries(r.skip(6), items.len() as int) == Some(
        (items, entries.len() as nat),
    ));
    assert(entries.len() <= r.len() - 6);
    assert(b.skip(9 + entries.len() as int) =~= rest);
}

/// Decoding the trailing fields (sampled, flags, baggage, stop) of an
/// encoded record sets exactly those fields.
proof fn lemma_round_trip_tail(r: RecordView, acc: RecordView)
    requires
        record_encodable(r),
    ensures
        spec_dec_fields(
            enc_opt_bool_field(5, r.sampled) + (enc_opt_u32_field(6, r.flags) + (
            enc_opt_baggage_field(r.baggage_items) + seq![TT_STOP])),
            acc,
        ) == Some(
            RecordView {
                sampled: if r.sampled is Some {
                    r.sampled
                } else {
                    acc.sampled
                },
                flags: if r.flags is Some {
                    r.flags
                } else {
                    acc.flags
                },
                baggage_items: if r.baggage_items is Some {
                    r.baggage_items
                } else {
                    acc.baggage_items
                },
                ..acc
            },
        ),
{
    let e5 = enc_opt_bool_field(5, r.sampled);
    let e6 = enc_opt_u32_field(6, r.flags);
    let e7 = enc_opt_baggage_field(r.baggage_items);
    let stop = seq![TT_STOP];
    let rest6 = e7 + stop;
    let rest5 = e6 + rest6;
    let acc5 = match r.sampled {
        Some(v) => RecordView { sampled: Some(v), ..acc },
        None => acc,
    };
    let acc6 = match r.flags {
        Some(v) => RecordView { flags: Some(v), ..acc5 },
        None => acc5,
    };
    let acc7 = match r.baggage_items {
        Some(items) => RecordView { baggage_items: Some(items), ..acc6 },
        None => acc6,
    };
    assert(spec_dec_fields(e5 + rest5, acc) == spec_dec_fields(rest5, acc5)) by {
        match r.sampled {
            Some(v) => {
                lemma_dec_bool_field_step(v, rest5, acc);
            },
            None => {
                assert(e5 + rest5 =~= rest5);
            },
        }
    }
    assert(spec_dec_fields(e6 + rest6, acc5) == spec_dec_fields(rest6, acc6)) by {
        match r.flags {
            Some(v) => {
                lemma_dec_u32_field_step(v, rest6, acc5);
            },
            None => {
                assert(e6 + rest6 =~= rest6);
            },
        }
    }
    assert(spec_dec_fields(e7 + stop, acc6) == spec_dec_fields(stop, acc7)) by {
        match r.baggage_items {
            Some(items) => {
                lemma_dec_baggage_field_step(items, stop, acc6);
            },
            None => {
                assert(e7 + stop =~= stop);
            },
        }
    }
    assert(spec_dec_fields(stop, acc7) == Some(acc7));
}

/// Decoding the encoding of any record that fits the wire limits yields
/// the record again: every present field reads back as written, every
/// absent field stays absent, and the baggage items keep their order.
#[verifier::rlimit(100)]
pub proof fn lemma_binary_round_trip(r: RecordView)
    requires
        record_encodable(r),
    ensures
        spec_dec_fields(enc_record(r), empty_record()) == Some(r),
{
    let e1 = enc_opt_u64_field(1, r.trace_id);
    let e2 = enc_opt_u64_field(2, r.trace_id_high);
    let e3 = enc_opt_u64_field(3, r.span_id);
    let e4 = enc_opt_u64_field(4, r.parent_span_id);
    let e5 = enc_opt_bool_field(5, r.sampled);
    let e6 = enc_opt_u32_field(6, r.flags);
    let e7 = enc_opt_baggage_field(r.baggage_items);
    let stop = seq![TT_STOP];
    let rest4 = e5 + (e6 + (e7 + stop));
    let rest3 = e4 + rest4;
    let rest2 = e3 + rest3;
    let rest1 = e2 + rest2;
    let acc0 = empty_record();
    let acc1 = match r.trace_id {
        Some(v) => record_with_u64(acc0, 1, v),
        None => acc0,
    };
    let acc2 = match r.trace_id_high {
        Some(v) => record_with_u64(acc1, 2, v),
        None => acc1,
    };
    let acc3 = match r.span_id {
        Some(v) => record_with_u64(acc2, 3, v),
        None => acc2,
    };
    let acc4 = match r.parent_span_id {
        Some(v) => record_with_u64(acc3, 4, v),
        None => acc3,
    };
    assert(enc_record(r) == e1 + rest1);
    assert(spec_dec_fields(e1 + rest1, acc0) == spec_dec_fields(rest1, acc1)) by {
        match r.trace_id {
            Some(v) => {
                lemma_dec_u64_field_step(1, v, rest1, acc0);
            },
            None => {
                assert(e1 + rest1 =~= rest1);
            },
        }
    }
    assert(spec_dec_fields(e2 + rest2, acc1) == spec_dec_fields(rest2, acc2)) by {
        match r.trace_id_high {
            Some(v) => {
                lemma_dec_u64_field_step(2, v, rest2, acc1);
            },
            None => {
                assert(e2 + rest2 =~= rest2);
            },
        }
    }
    assert(spec_dec_fields(e3 + rest3, acc2) == spec_dec_fields(rest3, acc3)) by {
        match r.span_id {
            Some(v) => {
                lemma_dec_u64_field_step(3, v, rest3, acc2);
            },
            None => {
                assert(e3 + rest3 =~= rest3);
            },
        }
    }
    assert(spec_dec_fields(e4 + rest4, acc3) == spec_dec_fields(rest4, acc4)) by {
        match r.parent_span_id {
            Some(v) => {
                lemma_dec_u64_field_step(4, v, rest4, acc3);
            },
            None => {
                assert(e4 + rest4 =~= rest4);
            },
        }
    }
    lemma_round_trip_tail(r, acc4);
    assert(spec_dec_fields(rest4, acc4) == Some(r));
}

} // verus!
