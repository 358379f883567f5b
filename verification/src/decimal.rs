//! Decimal text: rendering arbitrary-precision big-endian integers (contract
//! `uint256` words) as decimal strings, and the sort key read back from such
//! a string.

use vstd::prelude::*;
use crate::hexfmt::hex_char_of_nibble;
use crate::hexfmt::hex_digit_value;

verus! {

/// The unsigned integer spelled by a big-endian byte string.
pub open spec fn be_value(bytes: Seq<u8>) -> nat
    decreases bytes.len(),
{
    if bytes.len() == 0 {
        0
    } else {
        (be_value(bytes.drop_last()) * 256 + bytes.last()) as nat
    }
}

/// The decimal digit string of `n`: no sign, no leading zero except for the
/// single digit `0` itself.
pub open spec fn dec_digits(n: nat) -> Seq<char>
    decreases n,
{
    if n < 10 {
        seq![hex_char_of_nibble(n as int)]
    } else {
        dec_digits(n / 10) + seq![hex_char_of_nibble((n % 10) as int)]
    }
}

/// Appending one byte multiplies the big-endian value by 256 and adds it.
proof fn lemma_be_value_push(bytes: Seq<u8>, b: u8)
    ensures
        be_value(bytes.push(b)) == be_value(bytes) * 256 + b,
{
    assert(bytes.push(b).drop_last() =~= bytes);
}

/// A big-endian value is zero exactly when every byte is zero.
proof fn lemma_be_value_zero(bytes: Seq<u8>)
    ensures
        be_value(bytes) == 0 <==> (forall|i: int| 0 <= i < bytes.len() ==> bytes[i] == 0),
    decreases bytes.len(),
{
    if bytes.len() > 0 {
        lemma_be_value_zero(bytes.drop_last());
        if be_value(bytes) == 0 {
            assert(be_value(bytes.drop_last()) == 0);
            assert forall|i: int| 0 <= i < bytes.len() implies bytes[i] == 0 by {
                if i < bytes.len() - 1 {
                    assert(bytes.drop_last()[i] == 0);
                }
            }
        } else {
            if forall|i: int| 0 <= i < bytes.len() ==> bytes[i] == 0 {
                assert forall|i: int| 0 <= i < bytes.drop_last().len() implies bytes.drop_last()[i]
                    == 0 by {
                    assert(bytes[i] == 0);
                }
                assert(be_value(bytes.drop_last()) == 0);
                assert(bytes.last() == 0);
            }
        }
    }
}

/// Whether every byte of the string is zero, which is exactly when its
/// big-endian value is zero.
pub fn is_zero_bytes(bytes: &Vec<u8>) -> (r: bool)
    ensures
        r <==> be_value(bytes@) == 0,
{
    let mut i: usize = 0;
    let mut all_zero: bool = true;
    while i < bytes.len()
        invariant
            i <= bytes@.len(),
            all_zero <==> (forall|j: int| 0 <= j < i ==> bytes@[j] == 0),
        decreases bytes@.len() - i,
    {
        if bytes[i] != 0 {
            all_zero = false;
        }
        i = i + 1;
    }
    proof {
        lemma_be_value_zero(bytes@);
    }
    all_zero
}

/// One step of byte-string long division by ten: the quotient digits and the
/// remainder.
fn div10(bytes: &Vec<u8>) -> (res: (Vec<u8>, u8))
    ensures
        res.0@.len() == bytes@.len(),
        be_value(res.0@) * 10 + res.1 == be_value(bytes@),
        res.1 < 10,
{
    let mut q: Vec<u8> = Vec::new();
    let mut carry: u16 = 0;
    let mut i: usize = 0;
    while i < bytes.len()
        invariant
            i <= bytes@.len(),
            q@.len() == i,
            carry < 10,
            be_value(q@) * 10 + carry == be_value(bytes@.take(i as int)),
        decreases bytes@.len() - i,
    {
        let ghost q_old = q@;
        let ghost carry_old = carry;
        let cur: u16 = carry * 256 + bytes[i] as u16;
        q.push((cur / 10) as u8);
        carry = cur % 10;
        proof {
            lemma_be_value_push(q_old, (cur / 10) as u8);
            assert(bytes@.take(i + 1).drop_last() =~= bytes@.take(i as int));
            assert(be_value(bytes@.take(i + 1)) == be_value(bytes@.take(i as int)) * 256
                + bytes@[i as int]);
            assert((be_value(q_old) * 256 + cur / 10) * 10 + cur % 10 == be_value(q_old) * 2560
                + (cur / 10) * 10 + cur % 10) by (nonlinear_arith);
            assert((cur / 10) * 10 + cur % 10 == cur);
            assert((be_value(q_old) * 10 + carry_old) * 256 == be_value(q_old) * 2560 + carry_old
                * 256) by (nonlinear_arith);
        }
        i = i + 1;
    }
    proof {
        assert(bytes@.take(bytes@.len() as int) =~= bytes@);
    }
    (q, (carry as u8))
}

/// The decimal digit characters of the values in `ds`, read in reverse.
spec fn rev_digit_chars(ds: Seq<u8>) -> Seq<char> {
    Seq::new(ds.len(), |i: int| hex_char_of_nibble(ds[ds.len() - 1 - i] as int))
}

/// The characters with the scalar values of the given bytes.
pub open spec fn ascii_chars_of(bytes: Seq<u8>) -> Seq<char> {
    Seq::new(bytes.len(), |i: int| (bytes[i] as u32) as char)
}

/// Relies on String::from_utf8: bytes below 128 are valid UTF-8 and decode to
/// the characters with the same scalar values.
#[verifier::external_body]
fn ascii_string(bytes: Vec<u8>) -> (r: String)
    requires
        forall|i: int| 0 <= i < bytes@.len() ==> bytes@[i] < 128,
    ensures
        r@ == ascii_chars_of(bytes@),
{
    String::from_utf8(bytes).unwrap_or_default()
}

/// Render a big-endian byte string as the decimal text of its value. Works
/// for any length, so 32-byte contract words are never truncated.
pub fn be_bytes_to_decimal(bytes: &Vec<u8>) -> (r: String)
    ensures
        r@ == dec_digits(be_value(bytes@)),
{
    let ghost v0 = be_value(bytes@);
    let mut cur: Vec<u8> = Vec::new();
    let mut i: usize = 0;
    while i < bytes.len()
        invariant
            i <= bytes@.len(),
            cur@ =~= bytes@.take(i as int),
        decreases bytes@.len() - i,
    {
        cur.push(bytes[i]);
        i = i + 1;
    }
    proof {
        assert(cur@ =~= bytes@);
    }
    if is_zero_bytes(&cur) {
        proof {
            reveal_strlit("0");
            assert('0' as u32 == 48);
            vstd::utf8::char_u32_cast('0', 48);
            assert(dec_digits(0) =~= "0"@);
        }
        return String::from_str("0");
    }
    let mut digits_rev: Vec<u8> = Vec::new();
    loop
        invariant_except_break
            be_value(cur@) > 0,
        invariant
            be_value(cur@) > 0 ==> dec_digits(v0) =~= dec_digits(be_value(cur@))
                + rev_digit_chars(digits_rev@),
            be_value(cur@) == 0 ==> dec_digits(v0) =~= rev_digit_chars(digits_rev@),
            forall|j: int| 0 <= j < digits_rev@.len() ==> digits_rev@[j] < 10,
        ensures
            dec_digits(v0) =~= rev_digit_chars(digits_rev@),
            forall|j: int| 0 <= j < digits_rev@.len() ==> digits_rev@[j] < 10,
        decreases be_value(cur@),
    {
        let ghost v = be_value(cur@);
        let ghost ds_old = digits_rev@;
        let (q, r) = div10(&cur);
        let ghost qv = be_value(q@);
        digits_rev.push(r);
        proof {
            assert(rev_digit_chars(ds_old.push(r)) =~= seq![hex_char_of_nibble(r as int)]
                + rev_digit_chars(ds_old));
            if qv == 0 {
                assert(v < 10);
                assert(dec_digits(v) =~= seq![hex_char_of_nibble(r as int)]);
            } else {
                assert(v >= 10) by (nonlinear_arith)
                    requires
                        v == qv * 10 + r,
                        qv >= 1,
                ;
                assert(v / 10 == qv && v % 10 == r) by (nonlinear_arith)
                    requires
                        v == qv * 10 + r,
                        0 <= r < 10,
                        qv >= 0,
                ;
                assert(dec_digits(v) == dec_digits(qv) + seq![hex_char_of_nibble(r as int)]);
                assert(dec_digits(qv) + (seq![hex_char_of_nibble(r as int)] + rev_digit_chars(
                    ds_old,
                )) =~= (dec_digits(qv) + seq![hex_char_of_nibble(r as int)]) + rev_digit_chars(
                    ds_old,
                ));
            }
            assert(qv < v) by (nonlinear_arith)
                requires
                    v == qv * 10 + r,
                    0 <= r < 10,
                    qv >= 0,
                    v > 0,
            ;
        }
        let done = is_zero_bytes(&q);
        cur = q;
        if done {
            break;
        }
    }
    let mut ascii: Vec<u8> = Vec::new();
    let mut k: usize = digits_rev.len();
    while k > 0
        invariant
            k <= digits_rev@.len(),
            forall|j: int| 0 <= j < digits_rev@.len() ==> digits_rev@[j] < 10,
            ascii@.len() == digits_rev@.len() - k,
            forall|j: int|
                0 <= j < ascii@.len() ==> ascii@[j] == 48 + digits_rev@[digits_rev@.len() - 1 - j],
        decreases k,
    {
        k = k - 1;
        ascii.push(48 + digits_rev[k]);
    }
    proof {
        assert(ascii_chars_of(ascii@) =~= rev_digit_chars(digits_rev@));
        assert(dec_digits(v0) =~= rev_digit_chars(digits_rev@));
    }
    ascii_string(ascii)
}

/// The value of a decimal digit string, most significant digit first.
pub open spec fn dec_value_of(s: Seq<char>) -> nat
    decreases s.len(),
{
    if s.len() == 0 {
        0
    } else {
        dec_value_of(s.drop_last()) * 10 + (if is_dec_digit(s.last()) {
            hex_digit_value(s.last()) as nat
        } else {
            0
        })
    }
}

/// Whether `c` is a decimal digit.
pub open spec fn is_dec_digit(c: char) -> bool {
    let v = c as u32;
    48 <= v && v <= 57
}

/// Whether `s` is text that reads back as a 64-bit unsigned integer: nonempty,
/// all decimal digits, value within range.
pub open spec fn parses_as_u64(s: Seq<char>) -> bool {
    &&& s.len() > 0
    &&& (forall|i: int| 0 <= i < s.len() ==> is_dec_digit(#[trigger] s[i]))
    &&& dec_value_of(s) <= u64::MAX
}

/// The ordering key read from a nonce string: its value when it reads back as
/// a 64-bit unsigned integer, and zero otherwise (the deliberate defensive
/// fallback for malformed nonce text).
pub open spec fn nonce_key_of(s: Seq<char>) -> u64 {
    if parses_as_u64(s) {
        dec_value_of(s) as u64
    } else {
        0
    }
}

/// A longer decimal digit string never has a smaller value than its prefix.
proof fn lemma_dec_value_prefix(s: Seq<char>, i: int)
    requires
        0 <= i <= s.len(),
    ensures
        dec_value_of(s.take(i)) <= dec_value_of(s),
    decreases s.len() - i,
{
    if i < s.len() {
        lemma_dec_value_prefix(s, i + 1);
        assert(s.take(i + 1).drop_last() =~= s.take(i));
        assert(dec_value_of(s.take(i + 1)) == dec_value_of(s.take(i)) * 10 + (if is_dec_digit(
            s.take(i + 1).last(),
        ) {
            hex_digit_value(s.take(i + 1).last()) as nat
        } else {
            0
        }));
        assert(dec_value_of(s.take(i)) <= dec_value_of(s.take(i)) * 10) by (nonlinear_arith)
            requires
                dec_value_of(s.take(i)) >= 0,
        ;
    } else {
        assert(s.take(i) =~= s);
    }
}

/// The sort key of a nonce string: its value as a 64-bit unsigned decimal, or
/// zero when the text does not read back as one.
pub fn nonce_sort_key(s: &str) -> (k: u64)
    ensures
        k == nonce_key_of(s@),
{
    let len: usize = s.unicode_len();
    if len == 0 {
        return 0;
    }
    let mut acc: u64 = 0;
    let mut i: usize = 0;
    while i < len
        invariant
            len == s@.len(),
            0 < len,
            i <= len,
            forall|j: int| 0 <= j < i ==> is_dec_digit(#[trigger] s@[j]),
            acc == dec_value_of(s@.take(i as int)),
        decreases len - i,
    {
        let c = s.get_char(i);
        let v: u32 = c as u32;
        if !(48 <= v && v <= 57) {
            return 0;
        }
        let d: u64 = (v - 48) as u64;
        let wide: u128 = acc as u128 * 10 + d as u128;
        proof {
            assert(s@.take(i + 1).drop_last() =~= s@.take(i as int));
            assert(dec_value_of(s@.take(i + 1)) == dec_value_of(s@.take(i as int)) * 10 + d);
        }
        if wide > u64::MAX as u128 {
            proof {
                lemma_dec_value_prefix(s@, i + 1);
            }
            return 0;
        }
        acc = wide as u64;
        i = i + 1;
    }
    proof {
        assert(s@.take(len as int) =~= s@);
    }
    acc
}

} // verus!
