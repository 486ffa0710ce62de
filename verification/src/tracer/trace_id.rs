//! Zipkin trace identifiers.
//!
//! Zipkin trace ids can be short (8 bytes) or long (16 bytes); new ids are
//! always long. An id renders as lowercase hex, two digits per byte with
//! no byte-order reversal, and splits into two unsigned 64-bit halves in
//! network (big-endian) byte order; a short id yields a zero high half.

use vstd::prelude::*;

use crate::hex::DecodeError;
use crate::hex::DecodeKind;
use crate::hex::bytes_of_hex;
use crate::hex::decode_hex;
use crate::hex::encode_hex;
use crate::hex::hex_of_bytes;
use crate::hex::is_hex_char;
use crate::hex::is_hex_seq;
use crate::hex::lemma_hex_round_trip;
use crate::wire::be64;
use crate::wire::lemma_u64_be_round_trip;
use crate::wire::read_u64_be;
use crate::wire::u64_of_be;

verus! {

/// Inner container for long or short trace ids.
#[derive(Clone, Copy, Debug)]
pub enum InnerID {
    Long([u8; 16]),
    Short([u8; 8]),
}

/// Zipkin trace identifier: 8 or 16 raw bytes.
#[derive(Clone, Copy, Debug)]
pub struct TraceID(pub InnerID);

impl View for TraceID {
    type V = Seq<u8>;

    open spec fn view(&self) -> Seq<u8> {
        match self.0 {
            InnerID::Long(id) => id@,
            InnerID::Short(id) => id@,
        }
    }
}

/// The two big-endian 64-bit halves of an id: the first 8 bytes give the
/// high half, the second 8 the low half; a short id has high half 0.
pub open spec fn spec_split(id: Seq<u8>) -> (u64, u64)
    recommends
        id.len() == 8 || id.len() == 16,
{
    if id.len() == 16 {
        (u64_of_be(id.take(8)), u64_of_be(id.skip(8)))
    } else {
        (0u64, u64_of_be(id))
    }
}

impl TraceID {
    /// An id always holds 8 or 16 bytes.
    pub proof fn lemma_len(&self)
        ensures
            self@.len() == 8 || self@.len() == 16,
    {
    }

    /// Create a TraceID for a (high, low) tuple, big-endian in each half.
    pub fn join(high: u64, low: u64) -> (r: TraceID)
        ensures
            r@ == be64(high) + be64(low),
            r@.len() == 16,
    {
        let trace_id: [u8; 16] = [
            ((high >> 56) & 0xff) as u8,
            ((high >> 48) & 0xff) as u8,
            ((high >> 40) & 0xff) as u8,
            ((high >> 32) & 0xff) as u8,
            ((high >> 24) & 0xff) as u8,
            ((high >> 16) & 0xff) as u8,
            ((high >> 8) & 0xff) as u8,
            (high & 0xff) as u8,
            ((low >> 56) & 0xff) as u8,
            ((low >> 48) & 0xff) as u8,
            ((low >> 40) & 0xff) as u8,
            ((low >> 32) & 0xff) as u8,
            ((low >> 24) & 0xff) as u8,
            ((low >> 16) & 0xff) as u8,
            ((low >> 8) & 0xff) as u8,
            (low & 0xff) as u8,
        ];
        let r = TraceID(InnerID::Long(trace_id));
        proof {
            assert(r@ =~= be64(high) + be64(low));
        }
        r
    }

    /// Generate a new, random, 16 bytes ID.
    pub fn new() -> (r: TraceID)
        ensures
            r@.len() == 16,
    {
        TraceID(InnerID::Long(rand::random::<[u8; 16]>()))
    }

    /// Returns the id as a (high, low) tuple of big-endian 64-bit halves.
    pub fn split(&self) -> (r: (u64, u64))
        ensures
            r == spec_split(self@),
    {
        match self.0 {
            InnerID::Long(id) => {
                let high = read_u64_be(id.as_slice(), 0);
                let low = read_u64_be(id.as_slice(), 8);
                proof {
                    assert(id@.subrange(0, 8) =~= self@.take(8));
                    assert(id@.subrange(8, 16) =~= self@.skip(8));
                }
                (high, low)
            },
            InnerID::Short(id) => {
                let low = read_u64_be(id.as_slice(), 0);
                proof {
                    assert(id@.subrange(0, 8) =~= self@);
                }
                (0, low)
            },
        }
    }

    /// Renders the id as lowercase hex, byte order preserved.
    pub fn to_string(&self) -> (r: String)
        ensures
            r@ == hex_of_bytes(self@),
    {
        match &self.0 {
            InnerID::Long(id) => encode_hex(id.as_slice()),
            InnerID::Short(id) => encode_hex(id.as_slice()),
        }
    }

    /// Decodes an id from hex text: exactly 16 or 32 hex digits, either
    /// case. Any other length is a length fault; a stray character is a
    /// symbol fault at its position.
    pub fn parse(s: &str) -> (r: Result<TraceID, DecodeError>)
        ensures
            match r {
                Ok(id) => (s@.len() == 16 || s@.len() == 32) && is_hex_seq(s@) && id@
                    == bytes_of_hex(s@),
                Err(e) => if s@.len() == 16 || s@.len() == 32 {
                    &&& e.kind == DecodeKind::Symbol
                    &&& e.position < s@.len()
                    &&& !is_hex_char(s@[e.position as int])
                    &&& forall|j: int| 0 <= j < e.position ==> is_hex_char(#[trigger] s@[j])
                } else {
                    e == (DecodeError { position: 0, kind: DecodeKind::Length })
                },
            },
    {
        let len = s.unicode_len();
        if len != 16 && len != 32 {
            return Err(DecodeError { position: 0, kind: DecodeKind::Length });
        }
        let bytes = match decode_hex(s) {
            Ok(bytes) => bytes,
            Err(pos) => {
                return Err(DecodeError { position: pos, kind: DecodeKind::Symbol });
            },
        };
        if bytes.len() == 8 {
            let id: [u8; 8] = [
                bytes[0], bytes[1], bytes[2], bytes[3], bytes[4], bytes[5], bytes[6], bytes[7],
            ];
            let r = TraceID(InnerID::Short(id));
            proof {
                assert(r@ =~= bytes@);
            }
            Ok(r)
        } else {
            let id: [u8; 16] = [
                bytes[0], bytes[1], bytes[2], bytes[3], bytes[4], bytes[5], bytes[6], bytes[7],
                bytes[8], bytes[9], bytes[10], bytes[11], bytes[12], bytes[13], bytes[14],
                bytes[15],
            ];
            let r = TraceID(InnerID::Long(id));
            proof {
                assert(r@ =~= bytes@);
            }
            Ok(r)
        }
    }
}

/// Parsing the hex rendering of any 8- or 16-byte id yields the id again.
pub proof fn lemma_parse_format_round_trip(id: TraceID)
    ensures
        hex_of_bytes(id@).len() == 2 * id@.len(),
        is_hex_seq(hex_of_bytes(id@)),
        bytes_of_hex(hex_of_bytes(id@)) == id@,
{
    lemma_hex_round_trip(id@);
}

/// Splitting the id joined from any (high, low) pair yields the pair again.
pub proof fn lemma_split_join_round_trip(high: u64, low: u64)
    ensures
        spec_split(be64(high) + be64(low)) == (high, low),
{
    let joined = be64(high) + be64(low);
    assert(joined.take(8) =~= be64(high));
    assert(joined.skip(8) =~= be64(low));
    lemma_u64_be_round_trip(high);
    lemma_u64_be_round_trip(low);
}

impl PartialEq for TraceID {
    /// Equality is over the raw bytes: a short id and a long id never
    /// compare equal, matching their distinct renderings.
    fn eq(&self, other: &TraceID) -> (r: bool) {
        match (self.0, other.0) {
            (InnerID::Long(a), InnerID::Long(b)) => {
                let mut i: usize = 0;
                while i < 16
                    invariant
                        self.0 == InnerID::Long(a),
                        other.0 == InnerID::Long(b),
                        i <= 16,
                        forall|j: int| 0 <= j < i ==> a@[j] == b@[j],
                    decreases 16 - i,
                {
                    if a[i] != b[i] {
                        proof {
                            if *self == *other {
                                assert(a@ == b@);
                            }
                        }
                        return false;
                    }
                    i += 1;
                }
                proof {
                    broadcast use vstd::array::axiom_array_ext_equal;
                    assert(a =~= b);
                }
                true
            },
            (InnerID::Short(a), InnerID::Short(b)) => {
                let mut i: usize = 0;
                while i < 8
                    invariant
                        self.0 == InnerID::Short(a),
                        other.0 == InnerID::Short(b),
                        i <= 8,
                        forall|j: int| 0 <= j < i ==> a@[j] == b@[j],
                    decreases 8 - i,
                {
                    if a[i] != b[i] {
                        proof {
                            if *self == *other {
                                assert(a@ == b@);
                            }
                        }
                        return false;
                    }
                    i += 1;
                }
                proof {
                    broadcast use vstd::array::axiom_array_ext_equal;
                    assert(a =~= b);
                }
                true
            },
            _ => false,
        }
    }
}

impl vstd::std_specs::cmp::PartialEqSpecImpl for TraceID {
    open spec fn obeys_eq_spec() -> bool {
        true
    }

    open spec fn eq_spec(&self, other: &TraceID) -> bool {
        self == other
    }
}

impl Eq for TraceID {

}

impl From<[u8; 8]> for TraceID {
    /// Wraps 8 raw bytes as a short id.
    fn from(id: [u8; 8]) -> (r: TraceID) {
        TraceID(InnerID::Short(id))
    }
}

impl vstd::std_specs::convert::FromSpecImpl<[u8; 8]> for TraceID {
    open spec fn obeys_from_spec() -> bool {
        true
    }

    open spec fn from_spec(id: [u8; 8]) -> TraceID {
        TraceID(InnerID::Short(id))
    }
}

impl From<[u8; 16]> for TraceID {
    /// Wraps 16 raw bytes as a long id.
    fn from(id: [u8; 16]) -> (r: TraceID) {
        TraceID(InnerID::Long(id))
    }
}

impl vstd::std_specs::convert::FromSpecImpl<[u8; 16]> for TraceID {
    open spec fn obeys_from_spec() -> bool {
        true
    }

    open spec fn from_spec(id: [u8; 16]) -> TraceID {
        TraceID(InnerID::Long(id))
    }
}

impl core::str::FromStr for TraceID {
    type Err = DecodeError;

    /// Decodes an id from hex text, as `TraceID::parse` does.
    fn from_str(s: &str) -> Result<TraceID, DecodeError> {
        TraceID::parse(s)
    }
}

} // verus!
