//! Hex text: the canonical lowercase `0x`-prefixed encoding of byte strings,
//! and parsing of fixed-length hex text (addresses, transaction hashes).

use vstd::prelude::*;

verus! {

/// Whether `c` is a hex digit (either case).
pub open spec fn is_hex_digit(c: char) -> bool {
    let v = c as u32;
    (48 <= v && v <= 57) || (97 <= v && v <= 102) || (65 <= v && v <= 70)
}

/// Whether `c` is a lowercase (or decimal) hex digit.
pub open spec fn is_lower_hex_digit(c: char) -> bool {
    let v = c as u32;
    (48 <= v && v <= 57) || (97 <= v && v <= 102)
}

/// The numeric value of a hex digit.
pub open spec fn hex_digit_value(c: char) -> int
    recommends
        is_hex_digit(c),
{
    let v = c as u32;
    if 48 <= v && v <= 57 {
        v - 48
    } else if 97 <= v && v <= 102 {
        v - 97 + 10
    } else {
        v - 65 + 10
    }
}

/// The lowercase hex digit for a value below sixteen.
pub open spec fn hex_char_of_nibble(n: int) -> char
    recommends
        0 <= n < 16,
{
    if n < 10 {
        ((48 + n) as u32) as char
    } else {
        ((87 + n) as u32) as char
    }
}

/// The lowercase hex encoding of a byte string: two digits per byte, high
/// nibble first.
pub open spec fn hex_lower_of(bytes: Seq<u8>) -> Seq<char> {
    Seq::new(
        bytes.len() * 2,
        |i: int|
            if i % 2 == 0 {
                hex_char_of_nibble(bytes[i / 2] as int / 16)
            } else {
                hex_char_of_nibble(bytes[i / 2] as int % 16)
            },
    )
}

/// The canonical display form of a byte string: `0x` followed by its
/// lowercase hex encoding.
pub open spec fn hex_display(bytes: Seq<u8>) -> Seq<char> {
    "0x"@ + hex_lower_of(bytes)
}

/// `s` with a single leading `0x`, if present, removed.
pub open spec fn strip_hex_prefix(s: Seq<char>) -> Seq<char> {
    if s.len() >= 2 && s[0] == '0' && s[1] == 'x' {
        s.subrange(2, s.len() as int)
    } else {
        s
    }
}

/// Whether every character of `s` is a hex digit.
pub open spec fn all_hex_digits(s: Seq<char>) -> bool {
    forall|i: int| 0 <= i < s.len() ==> is_hex_digit(#[trigger] s[i])
}

/// Whether `s` spells exactly `n` bytes of hex, after an optional `0x`
/// prefix.
pub open spec fn valid_hex_text(s: Seq<char>, n: nat) -> bool {
    let d = strip_hex_prefix(s);
    d.len() == 2 * n && all_hex_digits(d)
}

/// The bytes spelled by an even-length string of hex digits.
pub open spec fn hex_bytes_of(d: Seq<char>) -> Seq<u8>
    recommends
        all_hex_digits(d),
{
    Seq::new(
        d.len() / 2,
        |i: int| (hex_digit_value(d[2 * i]) * 16 + hex_digit_value(d[2 * i + 1])) as u8,
    )
}

/// Relies on hex::encode: lowercase hex output, two digits per byte, high
/// nibble first.
#[verifier::external_body]
pub(crate) fn hex_encode(bytes: &Vec<u8>) -> (r: String)
    ensures
        r@ == hex_lower_of(bytes@),
{
    hex::encode(bytes)
}

/// Encode bytes as canonical `0x`-prefixed lowercase hex text.
pub fn format_hex(bytes: &Vec<u8>) -> (r: String)
    ensures
        r@ == hex_display(bytes@),
{
    let mut s = String::from_str("0x");
    let enc = hex_encode(bytes);
    s.append(enc.as_str());
    s
}

/// The numeric value of one hex digit character, or `None` if `c` is not a
/// hex digit.
fn hex_digit_value_exec(c: char) -> (r: Option<u8>)
    ensures
        r is Some <==> is_hex_digit(c),
        r is Some ==> r->Some_0 as int == hex_digit_value(c) && r->Some_0 < 16,
{
    let v: u32 = c as u32;
    if 48 <= v && v <= 57 {
        Some((v - 48) as u8)
    } else if 97 <= v && v <= 102 {
        Some((v - 97 + 10) as u8)
    } else if 65 <= v && v <= 70 {
        Some((v - 65 + 10) as u8)
    } else {
        None
    }
}

/// Parse hex text that must spell exactly `n` bytes, with an optional `0x`
/// prefix and digits of either case. Returns the bytes, or `None` when the
/// text is malformed.
pub fn parse_hex_fixed(s: &str, n: usize) -> (r: Option<Vec<u8>>)
    ensures
        r is Some <==> valid_hex_text(s@, n as nat),
        r is Some ==> r->Some_0@ == hex_bytes_of(strip_hex_prefix(s@)) && r->Some_0@.len() == n,
{
    let len: usize = s.unicode_len();
    let off: usize = if len >= 2 && s.get_char(0) == '0' && s.get_char(1) == 'x' {
        2
    } else {
        0
    };
    let dlen: usize = len - off;
    let ghost d: Seq<char> = strip_hex_prefix(s@);
    proof {
        assert(d =~= s@.subrange(off as int, len as int));
    }
    if dlen % 2 != 0 || dlen / 2 != n {
        return None;
    }
    let mut out: Vec<u8> = Vec::new();
    let mut i: usize = 0;
    while i < n
        invariant
            n <= usize::MAX / 2,
            dlen == 2 * n,
            off + dlen == len,
            len == s@.len(),
            d == s@.subrange(off as int, len as int),
            i <= n,
            out@.len() == i,
            forall|j: int| 0 <= j < 2 * i ==> is_hex_digit(#[trigger] d[j]),
            forall|j: int|
                0 <= j < i ==> out@[j] as int == hex_digit_value(d[2 * j]) * 16 + hex_digit_value(
                    d[2 * j + 1],
                ),
        decreases n - i,
    {
        let c1 = s.get_char(off + 2 * i);
        let c2 = s.get_char(off + 2 * i + 1);
        proof {
            assert(d[2 * (i as int)] == c1);
            assert(d[2 * (i as int) + 1] == c2);
        }
        let v1 = match hex_digit_value_exec(c1) {
            Some(v) => v,
            None => {
                return None;
            },
        };
        let v2 = match hex_digit_value_exec(c2) {
            Some(v) => v,
            None => {
                return None;
            },
        };
        out.push(v1 * 16 + v2);
        i = i + 1;
    }
    proof {
        assert(out@ =~= hex_bytes_of(d));
    }
    Some(out)
}

/// Parse a 20-byte account address from hex text.
pub fn parse_address(s: &str) -> (r: Option<Vec<u8>>)
    ensures
        r is Some <==> valid_hex_text(s@, 20),
        r is Some ==> r->Some_0@ == hex_bytes_of(strip_hex_prefix(s@)) && r->Some_0@.len() == 20,
{
    parse_hex_fixed(s, 20)
}

/// Parse a 32-byte transaction hash from hex text.
pub fn parse_hash(s: &str) -> (r: Option<Vec<u8>>)
    ensures
        r is Some <==> valid_hex_text(s@, 32),
        r is Some ==> r->Some_0@ == hex_bytes_of(strip_hex_prefix(s@)) && r->Some_0@.len() == 32,
{
    parse_hex_fixed(s, 32)
}

/// A lowercase hex digit character is recovered exactly from its value.
proof fn lemma_hex_char_round_trip(c: char)
    requires
        is_lower_hex_digit(c),
    ensures
        hex_char_of_nibble(hex_digit_value(c)) == c,
{
    vstd::utf8::char_u32_cast(c, c as u32);
}

/// Law: hex text that is already canonical — a `0x` prefix and exactly two
/// lowercase hex digits per byte — normalizes to itself: encoding the bytes
/// it spells gives back the identical string.
pub proof fn lemma_hex_round_trip(s: Seq<char>, n: nat)
    requires
        s.len() == 2 + 2 * n,
        s[0] == '0',
        s[1] == 'x',
        forall|i: int| 2 <= i < s.len() ==> is_lower_hex_digit(#[trigger] s[i]),
    ensures
        valid_hex_text(s, n),
        hex_display(hex_bytes_of(strip_hex_prefix(s))) == s,
{
    let d = strip_hex_prefix(s);
    assert(d =~= s.subrange(2, s.len() as int));
    assert forall|i: int| 0 <= i < d.len() implies is_hex_digit(#[trigger] d[i]) by {
        assert(d[i] == s[i + 2]);
        assert(is_lower_hex_digit(s[i + 2]));
    }
    let b = hex_bytes_of(d);
    assert forall|j: int| 0 <= j < hex_lower_of(b).len() implies #[trigger] hex_lower_of(b)[j]
        == d[j] by {
        let i = j / 2;
        let v1 = hex_digit_value(d[2 * i]);
        let v2 = hex_digit_value(d[2 * i + 1]);
        assert(0 <= v1 < 16 && 0 <= v2 < 16);
        assert(b[i] as int == v1 * 16 + v2);
        assert(b[i] / 16 == v1 && b[i] % 16 == v2) by (nonlinear_arith)
            requires
                b[i] as int == v1 * 16 + v2,
                0 <= v1 < 16,
                0 <= v2 < 16,
        ;
        if j % 2 == 0 {
            lemma_hex_char_round_trip(d[2 * i]);
        } else {
            assert(j == 2 * i + 1);
            lemma_hex_char_round_trip(d[2 * i + 1]);
        }
    }
    assert(hex_lower_of(b) =~= d);
    reveal_strlit("0x");
    assert(hex_display(b) =~= s);
}

} // verus!

