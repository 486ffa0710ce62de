//! Character-level string helpers for carrier keys and baggage prefixes.

use vstd::prelude::*;
use vstd::string::StrSliceExecFns;

verus! {

/// Compares two strings character by character.
pub fn str_eq(a: &str, b: &str) -> (r: bool)
    ensures
        r == (a@ == b@),
{
    let la = a.unicode_len();
    let lb = b.unicode_len();
    if la != lb {
        return false;
    }
    let mut i: usize = 0;
    while i < la
        invariant
            la == a@.len(),
            lb == b@.len(),
            la == lb,
            i <= la,
            forall|j: int| 0 <= j < i ==> a@[j] == b@[j],
        decreases la - i,
    {
        if a.get_char(i) != b.get_char(i) {
            return false;
        }
        i += 1;
    }
    proof {
        assert(a@ =~= b@);
    }
    true
}

/// Whether `s` starts with `prefix`, character by character.
pub fn str_has_prefix(s: &str, prefix: &str) -> (r: bool)
    ensures
        r == (s@.len() >= prefix@.len() && s@.take(prefix@.len() as int) == prefix@),
{
    let ls = s.unicode_len();
    let lp = prefix.unicode_len();
    if ls < lp {
        return false;
    }
    let mut i: usize = 0;
    while i < lp
        invariant
            ls == s@.len(),
            lp == prefix@.len(),
            lp <= ls,
            i <= lp,
            forall|j: int| 0 <= j < i ==> s@[j] == prefix@[j],
        decreases lp - i,
    {
        if s.get_char(i) != prefix.get_char(i) {
            proof {
                assert(s@.take(lp as int)[i as int] != prefix@[i as int]);
            }
            return false;
        }
        i += 1;
    }
    proof {
        assert(s@.take(lp as int) =~= prefix@);
    }
    true
}

/// The characters of `s` from position `n` on, as an owned string.
pub fn str_suffix(s: &str, n: usize) -> (r: String)
    requires
        n <= s@.len(),
    ensures
        r@ == s@.skip(n as int),
{
    let len = s.unicode_len();
    let sub = s.substring_char(n, len);
    proof {
        assert(sub@ =~= s@.skip(n as int));
    }
    sub.to_owned()
}


/// The minimal decimal rendering of a number; zero renders as "0".
pub open spec fn dec_min_of(x: int) -> Seq<char>
    recommends
        x >= 0,
    decreases x,
{
    if x < 10 {
        seq![crate::hex::hex_digit_char(x)]
    } else {
        dec_min_of(x / 10) + seq![crate::hex::hex_digit_char(x % 10)]
    }
}

/// The decimal rendering of a signed number: a minus sign before the
/// magnitude when negative.
pub open spec fn dec_of_i64(x: i64) -> Seq<char> {
    if x >= 0 {
        dec_min_of(x as int)
    } else {
        seq!['-'] + dec_min_of(-(x as int))
    }
}

/// Renders a 64-bit number as minimal decimal digits.
pub fn format_dec_u64(x: u64) -> (r: String)
    ensures
        r@ == dec_min_of(x as int),
{
    let mut digits: Vec<u8> = Vec::new();
    let mut y = x;
    if y == 0 {
        digits.push(0);
    }
    while y > 0
        invariant
            x > 0 ==> digits@.len() > 0 || y > 0,
            x == 0 ==> y == 0 && digits@ =~= seq![0u8],
            forall|i: int| 0 <= i < digits@.len() ==> #[trigger] digits@[i] < 10,
            dec_min_of(x as int) == (if y > 0 {
                dec_min_of(y as int)
            } else {
                Seq::<char>::empty()
            }) + Seq::new(digits@.len(), |i: int| crate::hex::hex_digit_char(
                digits@[digits@.len() - 1 - i] as int,
            )),
        decreases y,
    {
        let d = (y % 10) as u8;
        let y2 = y / 10;
        digits.push(d);
        proof {
            let olds = Seq::new((digits@.len() - 1) as nat, |i: int| crate::hex::hex_digit_char(
                digits@.take(digits@.len() - 1)[digits@.len() - 1 - 1 - i] as int,
            ));
            let news = Seq::new(digits@.len(), |i: int| crate::hex::hex_digit_char(
                digits@[digits@.len() - 1 - i] as int,
            ));
            assert(news =~= seq![crate::hex::hex_digit_char(d as int)] + olds);
            if y2 > 0 {
                assert(dec_min_of(y as int) == dec_min_of(y2 as int) + seq![
                    crate::hex::hex_digit_char(d as int),
                ]);
                assert(dec_min_of(y2 as int) + news =~= (dec_min_of(y as int)) + olds);
            } else {
                assert(y < 10);
                assert(dec_min_of(y as int) =~= seq![crate::hex::hex_digit_char(d as int)]);
                assert(Seq::<char>::empty() + news =~= dec_min_of(y as int) + olds);
            }
        }
        y = y2;
    }
    let mut s = String::new();
    let n = digits.len();
    let mut i: usize = 0;
    while i < n
        invariant
            n == digits@.len(),
            i <= n,
            forall|j: int| 0 <= j < digits@.len() ==> #[trigger] digits@[j] < 10,
            dec_min_of(x as int) == Seq::new(digits@.len(), |j: int| crate::hex::hex_digit_char(
                digits@[digits@.len() - 1 - j] as int,
            )),
            s@ =~= Seq::new(i as nat, |j: int| crate::hex::hex_digit_char(
                digits@[digits@.len() - 1 - j] as int,
            )),
        decreases n - i,
    {
        crate::hex::push_hex_digit(&mut s, digits[n - 1 - i]);
        proof {
            assert(s@ =~= Seq::new((i + 1) as nat, |j: int| crate::hex::hex_digit_char(
                digits@[digits@.len() - 1 - j] as int,
            )));
        }
        i += 1;
    }
    proof {
        assert(s@ =~= dec_min_of(x as int));
    }
    s
}

/// Renders a signed 64-bit number as decimal, with a minus sign when
/// negative.
pub fn format_dec_i64(x: i64) -> (r: String)
    ensures
        r@ == dec_of_i64(x),
{
    if x >= 0 {
        format_dec_u64(x as u64)
    } else {
        let m = (-(x as i128)) as u64;
        let mut s = String::from_str("-");
        proof {
            reveal_strlit("-");
            assert("-"@ =~= seq!['-']);
        }
        let digits = format_dec_u64(m);
        s.append(digits.as_str());
        proof {
            assert(s@ =~= seq!['-'] + dec_min_of(-(x as int)));
        }
        s
    }
}

} // verus!
