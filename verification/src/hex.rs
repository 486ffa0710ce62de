//! Lowercase hexadecimal codec for identifiers.
//!
//! One byte maps to two hex digits, left to right, with no byte-order
//! reversal. Decoding accepts both cases; canonical output is lowercase.

use vstd::prelude::*;
use vstd::string::StringExecFns;

verus! {

/// Reason a hex string was rejected.
#[derive(Clone, Copy, Debug, PartialEq, Eq, Structural)]
pub enum DecodeKind {
    /// The input length admits no decoding.
    Length,
    /// A character is not a hex digit.
    Symbol,
}

/// A rejected hex string: the kind of fault and the position of the first
/// offending character (0 for length faults).
#[derive(Clone, Copy, Debug, PartialEq, Eq, Structural)]
pub struct DecodeError {
    pub position: usize,
    pub kind: DecodeKind,
}

/// The lowercase hex digit for a value below 16.
pub open spec fn hex_digit_char(n: int) -> char
    recommends
        0 <= n < 16,
{
    if n == 0 { '0' } else if n == 1 { '1' } else if n == 2 { '2' } else if n == 3 { '3' }
    else if n == 4 { '4' } else if n == 5 { '5' } else if n == 6 { '6' } else if n == 7 { '7' }
    else if n == 8 { '8' } else if n == 9 { '9' } else if n == 10 { 'a' } else if n == 11 { 'b' }
    else if n == 12 { 'c' } else if n == 13 { 'd' } else if n == 14 { 'e' } else { 'f' }
}

/// The value of a hex digit, or -1 for any other character.
pub open spec fn hex_char_val(c: char) -> int {
    if c == '0' { 0 } else if c == '1' { 1 } else if c == '2' { 2 } else if c == '3' { 3 }
    else if c == '4' { 4 } else if c == '5' { 5 } else if c == '6' { 6 } else if c == '7' { 7 }
    else if c == '8' { 8 } else if c == '9' { 9 } else if c == 'a' || c == 'A' { 10 }
    else if c == 'b' || c == 'B' { 11 } else if c == 'c' || c == 'C' { 12 }
    else if c == 'd' || c == 'D' { 13 } else if c == 'e' || c == 'E' { 14 }
    else if c == 'f' || c == 'F' { 15 } else { -1 }
}

pub open spec fn is_hex_char(c: char) -> bool {
    hex_char_val(c) >= 0
}

pub open spec fn is_hex_seq(s: Seq<char>) -> bool {
    forall|i: int| 0 <= i < s.len() ==> is_hex_char(#[trigger] s[i])
}

/// The lowercase hex rendering of a byte sequence, two digits per byte.
pub open spec fn hex_of_bytes(b: Seq<u8>) -> Seq<char> {
    Seq::new(
        b.len() * 2,
        |i: int| if i % 2 == 0 {
            hex_digit_char((b[i / 2] >> 4) as int)
        } else {
            hex_digit_char((b[i / 2] & 0xf) as int)
        },
    )
}

/// The bytes denoted by an even-length hex string.
pub open spec fn bytes_of_hex(s: Seq<char>) -> Seq<u8>
    recommends
        s.len() % 2 == 0,
        is_hex_seq(s),
{
    Seq::new(
        (s.len() / 2) as nat,
        |i: int| (16 * hex_char_val(s[2 * i]) + hex_char_val(s[2 * i + 1])) as u8,
    )
}

/// Encoding a byte sequence and decoding the digits yields the bytes again.
pub proof fn lemma_hex_round_trip(b: Seq<u8>)
    ensures
        hex_of_bytes(b).len() == 2 * b.len(),
        is_hex_seq(hex_of_bytes(b)),
        bytes_of_hex(hex_of_bytes(b)) == b,
{
    let s = hex_of_bytes(b);
    assert forall|i: int| 0 <= i < s.len() implies is_hex_char(#[trigger] s[i]) by {
        let x = b[i / 2];
        assert(x >> 4 < 16 && x & 0xf < 16) by (bit_vector);
    }
    assert forall|i: int| 0 <= i < b.len() implies bytes_of_hex(s)[i] == b[i] by {
        let x = b[i];
        assert(x >> 4 < 16 && x & 0xf < 16) by (bit_vector);
        assert(s[2 * i] == hex_digit_char((x >> 4) as int));
        assert(s[2 * i + 1] == hex_digit_char((x & 0xf) as int));
        assert(x == (16 * ((x >> 4) as int) + ((x & 0xf) as int)) as u8) by (bit_vector);
    }
    assert(bytes_of_hex(s) =~= b);
}

/// The minimal lowercase hex rendering of a number: no leading zeros,
/// except that zero itself renders as "0".
pub open spec fn hex_min_of(x: int) -> Seq<char>
    recommends
        x >= 0,
    decreases x,
{
    if x < 16 {
        seq![hex_digit_char(x)]
    } else {
        hex_min_of(x / 16) + seq![hex_digit_char(x % 16)]
    }
}

/// The number denoted by a hex digit string, most significant digit first.
pub open spec fn hex_val_of(s: Seq<char>) -> int
    recommends
        is_hex_seq(s),
    decreases s.len(),
{
    if s.len() == 0 {
        0
    } else {
        16 * hex_val_of(s.drop_last()) + hex_char_val(s.last())
    }
}

/// A hex digit string denotes a nonnegative number.
pub proof fn lemma_hex_val_nonneg(s: Seq<char>)
    requires
        is_hex_seq(s),
    ensures
        hex_val_of(s) >= 0,
    decreases s.len(),
{
    if s.len() > 0 {
        assert(is_hex_seq(s.drop_last()));
        lemma_hex_val_nonneg(s.drop_last());
    }
}

/// The hex digit of a value below 16 reads back as that value.
pub proof fn lemma_hex_digit_val(n: int)
    requires
        0 <= n < 16,
    ensures
        hex_char_val(hex_digit_char(n)) == n,
        is_hex_char(hex_digit_char(n)),
{
}

/// Rendering a number as minimal hex and reading the digits back yields
/// the number; the rendering is nonempty and all hex digits.
pub proof fn lemma_hex_min_round_trip(x: int)
    requires
        x >= 0,
    ensures
        hex_min_of(x).len() >= 1,
        is_hex_seq(hex_min_of(x)),
        hex_val_of(hex_min_of(x)) == x,
    decreases x,
{
    if x < 16 {
        lemma_hex_digit_val(x);
        assert(hex_min_of(x) =~= seq![hex_digit_char(x)]);
        assert(hex_min_of(x).drop_last() =~= Seq::<char>::empty());
        assert(hex_val_of(Seq::<char>::empty()) == 0);
        assert(hex_min_of(x).last() == hex_digit_char(x));
    } else {
        lemma_hex_min_round_trip(x / 16);
        lemma_hex_digit_val(x % 16);
        let pre = hex_min_of(x / 16);
        let all = hex_min_of(x);
        assert(all == pre + seq![hex_digit_char(x % 16)]);
        assert(all.drop_last() =~= pre);
        assert(all.last() == hex_digit_char(x % 16));
    }
}

/// If the digits from position `k` on are all hex, the whole string
/// denotes at least sixteen times what the prefix before `k` denotes,
/// provided that prefix is hex too.
pub proof fn lemma_hex_val_extend_bound(s: Seq<char>, k: int)
    requires
        0 <= k < s.len(),
        is_hex_seq(s.take(k)),
        forall|j: int| k <= j < s.len() ==> is_hex_char(#[trigger] s[j]),
    ensures
        hex_val_of(s) >= 16 * hex_val_of(s.take(k)),
    decreases s.len() - k,
{
    let pre = s.take(k);
    assert(is_hex_seq(pre));
    lemma_hex_val_nonneg(pre);
    let next = s.take(k + 1);
    assert(next.drop_last() =~= pre);
    assert(next.last() == s[k]);
    assert(hex_val_of(next) == 16 * hex_val_of(pre) + hex_char_val(s[k]));
    if k + 1 == s.len() {
        assert(s.take(k + 1) =~= s);
    } else {
        assert(is_hex_seq(next));
        lemma_hex_val_extend_bound(s, k + 1);
        lemma_hex_val_nonneg(next);
    }
}

/// Appends the lowercase hex digit for `n`.
pub(crate) fn push_hex_digit(s: &mut String, n: u8)
    requires
        n < 16,
    ensures
        final(s)@ == old(s)@ + seq![hex_digit_char(n as int)],
{
    proof {
        reveal_strlit("0");
        reveal_strlit("1");
        reveal_strlit("2");
        reveal_strlit("3");
        reveal_strlit("4");
        reveal_strlit("5");
        reveal_strlit("6");
        reveal_strlit("7");
        reveal_strlit("8");
        reveal_strlit("9");
        reveal_strlit("a");
        reveal_strlit("b");
        reveal_strlit("c");
        reveal_strlit("d");
        reveal_strlit("e");
        reveal_strlit("f");
    }
    match n {
        0 => s.append("0"),
        1 => s.append("1"),
        2 => s.append("2"),
        3 => s.append("3"),
        4 => s.append("4"),
        5 => s.append("5"),
        6 => s.append("6"),
        7 => s.append("7"),
        8 => s.append("8"),
        9 => s.append("9"),
        10 => s.append("a"),
        11 => s.append("b"),
        12 => s.append("c"),
        13 => s.append("d"),
        14 => s.append("e"),
        _ => s.append("f"),
    }
    assert(s@ =~= old(s)@ + seq![hex_digit_char(n as int)]);
}

/// Renders bytes as lowercase hex, two digits per byte, byte order kept.
pub fn encode_hex(bytes: &[u8]) -> (r: String)
    ensures
        r@ == hex_of_bytes(bytes@),
{
    let mut s = String::new();
    let mut i: usize = 0;
    while i < bytes.len()
        invariant
            i <= bytes@.len(),
            s@ == hex_of_bytes(bytes@.take(i as int)),
        decreases bytes@.len() - i,
    {
        let b = bytes[i];
        proof {
            let x = b;
            assert(x >> 4 < 16 && x & 0xf < 16) by (bit_vector);
        }
        push_hex_digit(&mut s, b >> 4);
        push_hex_digit(&mut s, b & 0xf);
        proof {
            let t = bytes@.take(i as int);
            let t1 = bytes@.take(i + 1);
            assert(hex_of_bytes(t1) =~= hex_of_bytes(t) + seq![
                hex_digit_char((b >> 4) as int),
                hex_digit_char((b & 0xf) as int),
            ]);
        }
        i += 1;
    }
    assert(bytes@.take(bytes@.len() as int) =~= bytes@);
    s
}

/// Returns the value of a hex digit, or `None` for any other character.
fn hex_char_value(c: char) -> (r: Option<u8>)
    ensures
        match r {
            Some(v) => hex_char_val(c) == v as int && v < 16,
            None => hex_char_val(c) == -1,
        },
{
    match c {
        '0' => Some(0),
        '1' => Some(1),
        '2' => Some(2),
        '3' => Some(3),
        '4' => Some(4),
        '5' => Some(5),
        '6' => Some(6),
        '7' => Some(7),
        '8' => Some(8),
        '9' => Some(9),
        'a' | 'A' => Some(10),
        'b' | 'B' => Some(11),
        'c' | 'C' => Some(12),
        'd' | 'D' => Some(13),
        'e' | 'E' => Some(14),
        'f' | 'F' => Some(15),
        _ => None,
    }
}

/// Decodes an even-length hex string into bytes; on the first character
/// that is not a hex digit, reports its position instead.
pub fn decode_hex(s: &str) -> (r: Result<Vec<u8>, usize>)
    requires
        s@.len() % 2 == 0,
    ensures
        match r {
            Ok(v) => is_hex_seq(s@) && v@ == bytes_of_hex(s@),
            Err(pos) => pos < s@.len() && !is_hex_char(s@[pos as int])
                && (forall|j: int| 0 <= j < pos ==> is_hex_char(#[trigger] s@[j])),
        },
{
    let len = s.unicode_len();
    let mut out: Vec<u8> = Vec::new();
    let mut k: usize = 0;
    while k < len / 2
        invariant
            s@.len() % 2 == 0,
            len == s@.len(),
            k <= len / 2,
            out@ == bytes_of_hex(s@.take(2 * k as int)),
            forall|j: int| 0 <= j < 2 * k ==> is_hex_char(#[trigger] s@[j]),
        decreases len / 2 - k,
    {
        let c1 = s.get_char(2 * k);
        let c2 = s.get_char(2 * k + 1);
        let v1 = match hex_char_value(c1) {
            Some(v) => v,
            None => {
                return Err(2 * k);
            },
        };
        let v2 = match hex_char_value(c2) {
            Some(v) => v,
            None => {
                return Err(2 * k + 1);
            },
        };
        out.push(16 * v1 + v2);
        proof {
            let t = s@.take(2 * (k as int));
            let t1 = s@.take(2 * (k + 1 as int));
            assert(bytes_of_hex(t1) =~= bytes_of_hex(t) + seq![
                (16 * hex_char_val(s@[2 * (k as int)]) + hex_char_val(s@[2 * (k as int) + 1])) as u8,
            ]);
        }
        k += 1;
    }
    proof {
        assert(s@.take(2 * (k as int)) =~= s@);
    }
    Ok(out)
}

/// Whether a string is a valid hex rendering of a 64-bit number:
/// nonempty, all hex digits, value below 2^64. Leading zeros are accepted.
pub open spec fn is_hex_u64(s: Seq<char>) -> bool {
    s.len() > 0 && is_hex_seq(s) && hex_val_of(s) < 0x1_0000_0000_0000_0000
}

/// Parses a case-insensitive hex number into 64 bits; rejects an empty
/// string, a non-hex character, and a value that does not fit.
pub fn parse_hex_u64(s: &str) -> (r: Result<u64, ()>)
    ensures
        match r {
            Ok(v) => is_hex_u64(s@) && v as int == hex_val_of(s@),
            Err(_) => !is_hex_u64(s@),
        },
{
    let len = s.unicode_len();
    if len == 0 {
        return Err(());
    }
    let mut acc: u64 = 0;
    let mut k: usize = 0;
    while k < len
        invariant
            len == s@.len(),
            k <= len,
            is_hex_seq(s@.take(k as int)),
            acc as int == hex_val_of(s@.take(k as int)),
        decreases len - k,
    {
        let c = s.get_char(k);
        let v = match hex_char_value(c) {
            Some(v) => v,
            None => {
                return Err(());
            },
        };
        proof {
            let next = s@.take(k + 1 as int);
            assert(next.drop_last() =~= s@.take(k as int));
            assert(next.last() == s@[k as int]);
        }
        if acc >= 0x1000_0000_0000_0000 {
            proof {
                if is_hex_seq(s@) {
                    assert(forall|j: int| k <= j < s@.len() ==> is_hex_char(#[trigger] s@[j]));
                    lemma_hex_val_extend_bound(s@, k as int);
                }
            }
            return Err(());
        }
        acc = acc * 16 + (v as u64);
        k += 1;
    }
    proof {
        assert(s@.take(len as int) =~= s@);
    }
    Ok(acc)
}

/// Renders a 64-bit number as minimal lowercase hex (`42` becomes `"2a"`).
pub fn format_hex_u64(x: u64) -> (r: String)
    ensures
        r@ == hex_min_of(x as int),
{
    let mut digits: Vec<u8> = Vec::new();
    let mut y = x;
    if y == 0 {
        digits.push(0);
    }
    while y > 0
        invariant
            x > 0 ==> digits@.len() > 0 || y > 0,
            x == 0 ==> y == 0 && digits@ =~= seq![0u8],
            forall|i: int| 0 <= i < digits@.len() ==> #[trigger] digits@[i] < 16,
            hex_min_of(x as int) == (if y > 0 {
                hex_min_of(y as int)
            } else {
                Seq::<char>::empty()
            }) + Seq::new(digits@.len(), |i: int| hex_digit_char(
                digits@[digits@.len() - 1 - i] as int,
            )),
        decreases y,
    {
        let d = (y % 16) as u8;
        let y2 = y / 16;
        digits.push(d);
        proof {
            let olds = Seq::new((digits@.len() - 1) as nat, |i: int| hex_digit_char(
                digits@.take(digits@.len() - 1)[digits@.len() - 1 - 1 - i] as int,
            ));
            let news = Seq::new(digits@.len(), |i: int| hex_digit_char(
                digits@[digits@.len() - 1 - i] as int,
            ));
            assert(news =~= seq![hex_digit_char(d as int)] + olds);
            if y2 > 0 {
                assert(hex_min_of(y as int) == hex_min_of(y2 as int) + seq![
                    hex_digit_char(d as int),
                ]);
                assert(hex_min_of(y2 as int) + news =~= (hex_min_of(y as int)) + olds);
            } else {
                assert(y < 16);
                assert(hex_min_of(y as int) =~= seq![hex_digit_char(d as int)]);
                assert(Seq::<char>::empty() + news =~= hex_min_of(y as int) + olds);
            }
        }
        y = y2;
    }
    let mut s = String::new();
    let n = digits.len();
    let mut i: usize = 0;
    while i < n
        invariant
            n == digits@.len(),
            i <= n,
            forall|j: int| 0 <= j < digits@.len() ==> #[trigger] digits@[j] < 16,
            hex_min_of(x as int) == Seq::new(digits@.len(), |j: int| hex_digit_char(
                digits@[digits@.len() - 1 - j] as int,
            )),
            s@ =~= Seq::new(i as nat, |j: int| hex_digit_char(
                digits@[digits@.len() - 1 - j] as int,
            )),
        decreases n - i,
    {
        push_hex_digit(&mut s, digits[n - 1 - i]);
        proof {
            assert(s@ =~= Seq::new((i + 1) as nat, |j: int| hex_digit_char(
                digits@[digits@.len() - 1 - j] as int,
            )));
        }
        i += 1;
    }
    proof {
        assert(s@ =~= hex_min_of(x as int));
    }
    s
}

} // verus!
