//! Verified string helpers: equality, prefix and suffix stripping, and the
//! decimal rendering and parsing used for venue-native product identifiers.
use vstd::prelude::*;
use vstd::string::StrSliceExecFns;
use vstd::string::StringExecFns;

verus! {

/// Character-by-character equality of two string slices.
pub fn str_eq(a: &str, b: &str) -> (r: bool)
    ensures
        r == (a@ == b@),
{
    let alen = a.unicode_len();
    let blen = b.unicode_len();
    if alen != blen {
        return false;
    }
    let mut i: usize = 0;
    while i < alen
        invariant
            alen == a@.len(),
            blen == b@.len(),
            alen == blen,
            i <= alen,
            forall|j: int| 0 <= j < i ==> a@[j] == b@[j],
        decreases alen - i,
    {
        if a.get_char(i) != b.get_char(i) {
            return false;
        }
        i = i + 1;
    }
    proof {
        assert(a@ =~= b@);
    }
    true
}

/// The sequence `s` ends with the sequence `t`.
pub open spec fn ends_with_spec(s: Seq<char>, t: Seq<char>) -> bool {
    t.len() <= s.len() && s.subrange(s.len() - t.len(), s.len() as int) == t
}

/// The sequence `s` starts with the sequence `t`.
pub open spec fn starts_with_spec(s: Seq<char>, t: Seq<char>) -> bool {
    t.len() <= s.len() && s.subrange(0, t.len() as int) == t
}

pub fn str_ends_with(s: &str, t: &str) -> (r: bool)
    ensures
        r == ends_with_spec(s@, t@),
{
    let slen = s.unicode_len();
    let tlen = t.unicode_len();
    if tlen > slen {
        return false;
    }
    let off = slen - tlen;
    let mut i: usize = 0;
    while i < tlen
        invariant
            slen == s@.len(),
            tlen == t@.len(),
            tlen <= slen,
            off == slen - tlen,
            i <= tlen,
            forall|j: int| 0 <= j < i ==> s@[off + j] == t@[j],
        decreases tlen - i,
    {
        if s.get_char(off + i) != t.get_char(i) {
            proof {
                assert(s@.subrange(off as int, slen as int)[i as int] == s@[off + i]);
            }
            return false;
        }
        i = i + 1;
    }
    proof {
        assert(s@.subrange(off as int, slen as int) =~= t@);
    }
    true
}

pub fn str_starts_with(s: &str, t: &str) -> (r: bool)
    ensures
        r == starts_with_spec(s@, t@),
{
    let slen = s.unicode_len();
    let tlen = t.unicode_len();
    if tlen > slen {
        return false;
    }
    let mut i: usize = 0;
    while i < tlen
        invariant
            slen == s@.len(),
            tlen == t@.len(),
            tlen <= slen,
            i <= tlen,
            forall|j: int| 0 <= j < i ==> s@[j] == t@[j],
        decreases tlen - i,
    {
        if s.get_char(i) != t.get_char(i) {
            proof {
                assert(s@.subrange(0, tlen as int)[i as int] == s@[i as int]);
            }
            return false;
        }
        i = i + 1;
    }
    proof {
        assert(s@.subrange(0, tlen as int) =~= t@);
    }
    true
}

/// Removes the suffix `t` from `s`; fails exactly when `s` does not end
/// with `t`.
pub fn strip_suffix_str<'a>(s: &'a str, t: &str) -> (r: Option<&'a str>)
    ensures
        r is Some <==> ends_with_spec(s@, t@),
        r matches Some(rest) ==> rest@ == s@.subrange(0, s@.len() - t@.len()),
{
    if str_ends_with(s, t) {
        let slen = s.unicode_len();
        let tlen = t.unicode_len();
        Some(s.substring_char(0, slen - tlen))
    } else {
        None
    }
}

/// Removes the prefix `t` from `s`; fails exactly when `s` does not start
/// with `t`.
pub fn strip_prefix_str<'a>(s: &'a str, t: &str) -> (r: Option<&'a str>)
    ensures
        r is Some <==> starts_with_spec(s@, t@),
        r matches Some(rest) ==> rest@ == s@.subrange(t@.len() as int, s@.len() as int),
{
    if str_starts_with(s, t) {
        let slen = s.unicode_len();
        let tlen = t.unicode_len();
        Some(s.substring_char(tlen, slen))
    } else {
        None
    }
}

/// The character that renders a single decimal digit.
pub open spec fn digit_char(d: int) -> char {
    if d == 0 {
        '0'
    } else if d == 1 {
        '1'
    } else if d == 2 {
        '2'
    } else if d == 3 {
        '3'
    } else if d == 4 {
        '4'
    } else if d == 5 {
        '5'
    } else if d == 6 {
        '6'
    } else if d == 7 {
        '7'
    } else if d == 8 {
        '8'
    } else {
        '9'
    }
}

/// The decimal rendering of a natural number, most significant digit first.
pub open spec fn dec_str(n: nat) -> Seq<char>
    decreases n,
{
    if n < 10 {
        seq![digit_char(n as int)]
    } else {
        dec_str(n / 10) + seq![digit_char((n % 10) as int)]
    }
}

fn digit_str(d: u32) -> (r: &'static str)
    requires
        d < 10,
    ensures
        r@ == seq![digit_char(d as int)],
{
    let r: &'static str = if d == 0 {
        "0"
    } else if d == 1 {
        "1"
    } else if d == 2 {
        "2"
    } else if d == 3 {
        "3"
    } else if d == 4 {
        "4"
    } else if d == 5 {
        "5"
    } else if d == 6 {
        "6"
    } else if d == 7 {
        "7"
    } else if d == 8 {
        "8"
    } else {
        "9"
    };
    proof {
        reveal_strlit("0");
        reveal_strlit("1");
        reveal_strlit("2");
        reveal_strlit("3");
        reveal_strlit("4");
        reveal_strlit("5");
        reveal_strlit("6");
        reveal_strlit("7");
        reveal_strlit("8");
        reveal_strlit("9");
        assert(r@ =~= seq![digit_char(d as int)]);
    }
    r
}

/// Renders a venue product identifier as its decimal string.
pub fn u32_to_string(n: u32) -> (r: String)
    ensures
        r@ == dec_str(n as nat),
    decreases n,
{
    if n < 10 {
        String::from_str(digit_str(n))
    } else {
        let prefix = u32_to_string(n / 10);
        let r = prefix.concat(digit_str(n % 10));
        proof {
            assert(r@ =~= dec_str(n as nat));
        }
        r
    }
}

/// The value of a decimal digit character, or a negative number when the
/// character is no digit.
pub open spec fn digit_val(c: char) -> int {
    if c == '0' {
        0
    } else if c == '1' {
        1
    } else if c == '2' {
        2
    } else if c == '3' {
        3
    } else if c == '4' {
        4
    } else if c == '5' {
        5
    } else if c == '6' {
        6
    } else if c == '7' {
        7
    } else if c == '8' {
        8
    } else if c == '9' {
        9
    } else {
        -1
    }
}

/// Folds digits into a value from the left, failing on a non-digit or on
/// overflow past `u32::MAX`.
pub open spec fn parse_digits(s: Seq<char>, acc: u32) -> Option<u32>
    decreases s.len(),
{
    if s.len() == 0 {
        Some(acc)
    } else {
        let d = digit_val(s[0]);
        if d < 0 {
            None
        } else if acc * 10 + d > u32::MAX {
            None
        } else {
            parse_digits(s.skip(1), (acc * 10 + d) as u32)
        }
    }
}

/// The number a decimal string denotes: defined on non-empty all-digit
/// strings whose value fits in a `u32`.
pub open spec fn parse_u32_spec(s: Seq<char>) -> Option<u32> {
    if s.len() == 0 {
        None
    } else {
        parse_digits(s, 0)
    }
}

/// Digit folding distributes over concatenation: the right part is folded
/// from wherever the left part ended.
pub proof fn lemma_parse_digits_concat(s: Seq<char>, t: Seq<char>, acc: u32)
    ensures
        parse_digits(s + t, acc) == (match parse_digits(s, acc) {
            Some(v) => parse_digits(t, v),
            None => None::<u32>,
        }),
    decreases s.len(),
{
    if s.len() == 0 {
        assert(s + t =~= t);
    } else {
        assert((s + t)[0] == s[0]);
        let d = digit_val(s[0]);
        if d >= 0 && acc * 10 + d <= u32::MAX {
            lemma_parse_digits_concat(s.skip(1), t, (acc * 10 + d) as u32);
            assert((s + t).skip(1) =~= s.skip(1) + t);
        }
    }
}

/// The decimal rendering of a number parses back to exactly that number.
pub proof fn lemma_parse_dec_str(n: u32)
    ensures
        parse_u32_spec(dec_str(n as nat)) == Some(n),
    decreases n,
{
    reveal_with_fuel(parse_digits, 3);
    if n < 10 {
        let s = dec_str(n as nat);
        assert(s =~= seq![digit_char(n as int)]);
        assert(digit_val(s[0]) == n as int);
        assert(s.skip(1) =~= Seq::<char>::empty());
    } else {
        vstd::arithmetic::div_mod::lemma_fundamental_div_mod(n as int, 10);
        let q: u32 = (n / 10) as u32;
        let hi = dec_str(q as nat);
        let lo = seq![digit_char((n % 10) as int)];
        assert(dec_str(n as nat) == hi + lo);
        lemma_parse_dec_str(q);
        lemma_parse_digits_concat(hi, lo, 0);
        assert(parse_digits(hi, 0) == Some(q));
        assert(digit_val(lo[0]) == (n % 10) as int);
        assert(lo.skip(1) =~= Seq::<char>::empty());
        assert(q * 10 + (n % 10) as int == n as int);
        assert(dec_str(n as nat).len() > 0);
    }
}

/// Parses a venue product identifier from its decimal string.
pub fn parse_u32(s: &str) -> (r: Option<u32>)
    ensures
        r == parse_u32_spec(s@),
{
    let len = s.unicode_len();
    if len == 0 {
        return None;
    }
    let mut acc: u32 = 0;
    let mut i: usize = 0;
    proof {
        assert(s@.skip(0) =~= s@);
    }
    while i < len
        invariant
            len == s@.len(),
            0 < len,
            i <= len,
            parse_digits(s@.skip(i as int), acc) == parse_u32_spec(s@),
        decreases len - i,
    {
        let c = s.get_char(i);
        proof {
            assert(s@.skip(i as int)[0] == s@[i as int]);
        }
        let d: u32 = match c {
            '0' => 0,
            '1' => 1,
            '2' => 2,
            '3' => 3,
            '4' => 4,
            '5' => 5,
            '6' => 6,
            '7' => 7,
            '8' => 8,
            '9' => 9,
            _ => {
                return None;
            },
        };
        proof {
            assert(digit_val(s@[i as int]) == d as int);
        }
        let next = match acc.checked_mul(10) {
            Some(m) => m.checked_add(d),
            None => None,
        };
        match next {
            Some(v) => {
                acc = v;
            },
            None => {
                return None;
            },
        }
        proof {
            assert(s@.skip(i as int).skip(1) =~= s@.skip(i + 1));
        }
        i = i + 1;
    }
    proof {
        assert(s@.skip(len as int) =~= Seq::<char>::empty());
    }
    Some(acc)
}

} // verus!
