//! Hex encoding of venue-assigned order identifiers: the ack carries the
//! identifier as `0x` followed by its lowercase hex digits, and a cancel
//! decodes that string back into the raw identifier bytes.
use vstd::prelude::*;
use vstd::string::StringExecFns;
use crate::text::starts_with_spec;
use crate::text::strip_prefix_str;

verus! {

/// Length in bytes of a venue-assigned order identifier.
pub const DIGEST_LEN: usize = 32;

/// The lowercase hex character of a nibble.
pub open spec fn hex_digit_char(n: int) -> char {
    if n == 0 {
        '0'
    } else if n == 1 {
        '1'
    } else if n == 2 {
        '2'
    } else if n == 3 {
        '3'
    } else if n == 4 {
        '4'
    } else if n == 5 {
        '5'
    } else if n == 6 {
        '6'
    } else if n == 7 {
        '7'
    } else if n == 8 {
        '8'
    } else if n == 9 {
        '9'
    } else if n == 10 {
        'a'
    } else if n == 11 {
        'b'
    } else if n == 12 {
        'c'
    } else if n == 13 {
        'd'
    } else if n == 14 {
        'e'
    } else {
        'f'
    }
}

/// The value of a hex digit character of either case, or a negative number
/// when the character is no hex digit.
pub open spec fn hex_val(c: char) -> int {
    if c == '0' {
        0
    } else if c == '1' {
        1
    } else if c == '2' {
        2
    } else if c == '3' {
        3
    } else if c == '4' {
        4
    } else if c == '5' {
        5
    } else if c == '6' {
        6
    } else if c == '7' {
        7
    } else if c == '8' {
        8
    } else if c == '9' {
        9
    } else if c == 'a' || c == 'A' {
        10
    } else if c == 'b' || c == 'B' {
        11
    } else if c == 'c' || c == 'C' {
        12
    } else if c == 'd' || c == 'D' {
        13
    } else if c == 'e' || c == 'E' {
        14
    } else if c == 'f' || c == 'F' {
        15
    } else {
        -1
    }
}

pub open spec fn is_hex_digit(c: char) -> bool {
    hex_val(c) >= 0
}

/// The hex rendering of a byte string: two lowercase digits per byte, high
/// nibble first.
pub open spec fn hex_encode_seq(b: Seq<u8>) -> Seq<char>
    decreases b.len(),
{
    if b.len() == 0 {
        Seq::<char>::empty()
    } else {
        seq![
            hex_digit_char((b[0] as int) / 16),
            hex_digit_char((b[0] as int) % 16),
        ] + hex_encode_seq(b.skip(1))
    }
}

/// An even-length string of hex digits of either case.
pub open spec fn hex_valid(s: Seq<char>) -> bool {
    s.len() % 2 == 0 && forall|i: int| 0 <= i < s.len() ==> is_hex_digit(#[trigger] s[i])
}

/// The bytes a hex string denotes, one byte per digit pair.
pub open spec fn hex_decode_seq(s: Seq<char>) -> Seq<u8>
    decreases s.len(),
{
    if s.len() < 2 {
        Seq::<u8>::empty()
    } else {
        seq![(hex_val(s[0]) * 16 + hex_val(s[1])) as u8] + hex_decode_seq(s.skip(2))
    }
}

pub proof fn lemma_hex_decode_len(s: Seq<char>)
    ensures
        hex_decode_seq(s).len() == s.len() / 2,
    decreases s.len(),
{
    if s.len() >= 2 {
        lemma_hex_decode_len(s.skip(2));
    }
}

/// Relies on `hex::encode`: renders each byte as two lowercase hex digits,
/// high nibble first.
#[verifier::external_body]
pub fn hex_encode(data: &[u8]) -> (r: String)
    ensures
        r@ == hex_encode_seq(data@),
{
    hex::encode(data)
}

/// Relies on `hex::decode`: succeeds exactly on even-length strings of hex
/// digits of either case, and maps each digit pair to one byte, high nibble
/// first. The call reads the string's bytes; a string whose bytes are all
/// hex digits is ASCII, and a multi-byte character always carries a
/// non-hex byte, so this character-level statement coincides.
#[verifier::external_body]
pub fn hex_decode(s: &str) -> (r: Option<Vec<u8>>)
    ensures
        r is Some <==> hex_valid(s@),
        r matches Some(v) ==> v@ == hex_decode_seq(s@),
{
    hex::decode(s).ok()
}

/// The exchange order id of an ack: `0x` followed by the identifier's
/// lowercase hex digits.
pub open spec fn xoid_format_spec(digest: Seq<u8>) -> Seq<char> {
    "0x"@ + hex_encode_seq(digest)
}

/// The identifier bytes an exchange order id denotes: defined when the
/// string carries the `0x` marker followed by the hex digits of exactly
/// `DIGEST_LEN` bytes.
pub open spec fn xoid_decode_spec(s: Seq<char>) -> Option<Seq<u8>> {
    if starts_with_spec(s, "0x"@) && hex_valid(s.skip(2)) && hex_decode_seq(s.skip(2)).len()
        == DIGEST_LEN {
        Some(hex_decode_seq(s.skip(2)))
    } else {
        None
    }
}

/// Formats a venue-assigned identifier for an ack.
pub fn format_exchange_order_id(digest: &[u8]) -> (r: String)
    ensures
        r@ == xoid_format_spec(digest@),
{
    let h = hex_encode(digest);
    String::from_str("0x").concat(h.as_str())
}

/// Decodes an ack-formatted exchange order id back into the raw identifier
/// bytes; fails exactly when the marker is absent, a character is no hex
/// digit, or the length is not that of an identifier.
pub fn decode_exchange_order_id(s: &str) -> (r: Option<Vec<u8>>)
    ensures
        r is Some <==> xoid_decode_spec(s@) is Some,
        r matches Some(v) ==> xoid_decode_spec(s@) == Some(v@),
{
    proof {
        reveal_strlit("0x");
    }
    match strip_prefix_str(s, "0x") {
        Some(rest) => {
            proof {
                assert(rest@ =~= s@.skip(2));
            }
            match hex_decode(rest) {
                Some(v) => {
                    if v.len() == DIGEST_LEN {
                        Some(v)
                    } else {
                        None
                    }
                },
                None => None,
            }
        },
        None => None,
    }
}

/// Each nibble's hex character decodes back to the nibble.
proof fn lemma_hex_digit_char_val(n: int)
    requires
        0 <= n < 16,
    ensures
        hex_val(hex_digit_char(n)) == n,
{
}

/// The hex rendering of a byte string is valid hex, and decodes back to
/// exactly the bytes rendered.
pub proof fn lemma_hex_round_trip(b: Seq<u8>)
    ensures
        hex_valid(hex_encode_seq(b)),
        hex_encode_seq(b).len() == 2 * b.len(),
        hex_decode_seq(hex_encode_seq(b)) == b,
    decreases b.len(),
{
    if b.len() == 0 {
        assert(hex_decode_seq(hex_encode_seq(b)) =~= b);
    } else {
        lemma_hex_round_trip(b.skip(1));
        let s = hex_encode_seq(b);
        let hi = (b[0] as int) / 16;
        let lo = (b[0] as int) % 16;
        vstd::arithmetic::div_mod::lemma_fundamental_div_mod(b[0] as int, 16);
        lemma_hex_digit_char_val(hi);
        lemma_hex_digit_char_val(lo);
        assert(s.skip(2) =~= hex_encode_seq(b.skip(1)));
        assert forall|i: int| 0 <= i < s.len() implies is_hex_digit(#[trigger] s[i]) by {
            if i >= 2 {
                assert(s[i] == hex_encode_seq(b.skip(1))[i - 2]);
            }
        };
        assert(hex_decode_seq(s) =~= b) by {
            assert(hex_decode_seq(s)[0] == (hex_val(s[0]) * 16 + hex_val(s[1])) as u8);
            assert(hex_val(s[0]) * 16 + hex_val(s[1]) == b[0] as int);
            assert(hex_decode_seq(s).skip(1) =~= hex_decode_seq(s.skip(2)));
        };
    }
}

/// A venue-assigned identifier formatted into an ack's exchange order id
/// decodes back to exactly the identifier bytes returned by the venue.
pub proof fn lemma_exchange_order_id_round_trip(digest: Seq<u8>)
    requires
        digest.len() == DIGEST_LEN,
    ensures
        xoid_decode_spec(xoid_format_spec(digest)) == Some(digest),
{
    reveal_strlit("0x");
    lemma_hex_round_trip(digest);
    let s = xoid_format_spec(digest);
    assert(s.subrange(0, 2) =~= "0x"@);
    assert(s.skip(2) =~= hex_encode_seq(digest));
    lemma_hex_decode_len(hex_encode_seq(digest));
}

/// Element-wise equality of two byte strings.
pub fn bytes_eq(a: &Vec<u8>, b: &Vec<u8>) -> (r: bool)
    ensures
        r == (a@ == b@),
{
    if a.len() != b.len() {
        return false;
    }
    let mut i: usize = 0;
    while i < a.len()
        invariant
            a@.len() == b@.len(),
            i <= a@.len(),
            forall|j: int| 0 <= j < i ==> a@[j] == b@[j],
        decreases a@.len() - i,
    {
        if a[i] != b[i] {
            return false;
        }
        i = i + 1;
    }
    proof {
        assert(a@ =~= b@);
    }
    true
}

} // verus!
