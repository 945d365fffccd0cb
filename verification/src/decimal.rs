//! Plain-value model of the canonical protocol's decimal quantities: a
//! 96-bit mantissa together with a scale of at most 28 fractional digits,
//! and exact conversions to and from the venue's 18-digit fixed point.
use vstd::prelude::*;

verus! {

/// Greatest mantissa magnitude a decimal can carry: `2^96 - 1`.
pub const MAX_MANTISSA: i128 = 79228162514264337593543950335;

/// Fractional digits of the venue's fixed-point integers.
pub const X18_SCALE: u32 = 18;

/// Greatest scale a decimal may carry.
pub const MAX_SCALE: u32 = 28;

/// A decimal number `mantissa / 10^scale`.
#[derive(Clone, Copy, Debug, PartialEq, Eq, Structural)]
pub struct Dec {
    pub mantissa: i128,
    pub scale: u32,
}

pub open spec fn pow10(e: nat) -> int
    decreases e,
{
    if e == 0 {
        1
    } else {
        10 * pow10((e - 1) as nat)
    }
}

pub proof fn lemma_pow10_pos(e: nat)
    ensures
        pow10(e) >= 1,
    decreases e,
{
    if e > 0 {
        lemma_pow10_pos((e - 1) as nat);
    }
}

pub proof fn lemma_pow10_monotone(a: nat, b: nat)
    requires
        a <= b,
    ensures
        pow10(a) <= pow10(b),
    decreases b,
{
    if a < b {
        lemma_pow10_monotone(a, (b - 1) as nat);
        lemma_pow10_pos((b - 1) as nat);
    }
}

pub proof fn lemma_pow10_28()
    ensures
        pow10(28) == 10000000000000000000000000000int,
{
    reveal_with_fuel(pow10, 29);
}

pub proof fn lemma_pow10_add(a: nat, b: nat)
    ensures
        pow10(a + b) == pow10(a) * pow10(b),
    decreases a,
{
    if a == 0 {
    } else {
        lemma_pow10_add((a - 1) as nat, b);
        assert(pow10(a + b) == 10 * pow10((a - 1) as nat + b));
        assert(10 * (pow10((a - 1) as nat) * pow10(b)) == (10 * pow10((a - 1) as nat)) * pow10(b))
            by (nonlinear_arith);
    }
}

/// `10^e`, for exponents up to the greatest scale.
pub fn pow10_u128(e: u32) -> (r: u128)
    requires
        e <= MAX_SCALE,
    ensures
        r == pow10(e as nat),
{
    let mut i: u32 = 0;
    let mut r: u128 = 1;
    while i < e
        invariant
            i <= e,
            e <= MAX_SCALE,
            r == pow10(i as nat),
        decreases e - i,
    {
        proof {
            lemma_pow10_monotone(i as nat, 27);
            lemma_pow10_28();
        }
        r = r * 10;
        i = i + 1;
    }
    r
}

/// Strips factors of ten from a magnitude while the scale allows it.
pub open spec fn norm_mag(mag: u128, s: u32) -> (u128, u32)
    decreases s,
{
    if s == 0 || mag % 10 != 0 {
        (mag, s)
    } else {
        norm_mag(mag / 10, (s - 1) as u32)
    }
}

pub proof fn lemma_norm_mag_props(mag: u128, s: u32)
    ensures
        norm_mag(mag, s).1 <= s,
        norm_mag(mag, s).0 <= mag,
        norm_mag(mag, s).1 > 0 ==> norm_mag(mag, s).0 % 10 != 0,
        norm_mag(mag, s).0 * pow10((s - norm_mag(mag, s).1) as nat) == mag,
        norm_mag(mag, s).0 > 0 <==> mag > 0,
    decreases s,
{
    if s == 0 || mag % 10 != 0 {
    } else {
        lemma_norm_mag_props(mag / 10, (s - 1) as u32);
        let (m2, s2) = norm_mag(mag / 10, (s - 1) as u32);
        assert(mag / 10 * 10 == mag);
        assert(m2 * pow10((s - s2) as nat) == m2 * (10 * pow10((s - 1 - s2) as nat)))
            by {
            assert(pow10((s - s2) as nat) == 10 * pow10((s - 1 - s2) as nat));
        };
        assert(m2 * (10 * pow10((s - 1 - s2) as nat)) == (m2 * pow10(
            (s - 1 - s2) as nat,
        )) * 10) by (nonlinear_arith);
    }
}

impl Dec {
    /// Validity: the mantissa fits in 96 bits and the scale is in range.
    pub open spec fn wf(self) -> bool {
        &&& self.scale <= MAX_SCALE
        &&& -MAX_MANTISSA <= self.mantissa <= MAX_MANTISSA
    }

    /// No trailing zero digit is left under a positive scale.
    pub open spec fn is_normalized(self) -> bool {
        self.scale > 0 ==> self.mantissa % 10 != 0
    }

    /// The number's value as an integer scaled by `10^MAX_SCALE`.
    pub open spec fn scaled(self) -> int
        recommends
            self.scale <= MAX_SCALE,
    {
        self.mantissa * pow10((MAX_SCALE - self.scale) as nat)
    }

    /// Whether the value is strictly positive.
    pub fn is_strictly_positive(&self) -> (b: bool)
        ensures
            b == (self.mantissa > 0),
    {
        self.mantissa > 0
    }
}

/// The decimal that an 18-digit fixed-point integer denotes, normalized;
/// `None` when the magnitude does not fit in 96 bits.
pub open spec fn from_x18_spec(raw: i128) -> Option<Dec> {
    if raw < -MAX_MANTISSA || raw > MAX_MANTISSA {
        None
    } else {
        let mag: u128 = if raw < 0 {
            (-raw) as u128
        } else {
            raw as u128
        };
        let (m, s) = norm_mag(mag, X18_SCALE);
        Some(
            Dec {
                mantissa: if raw < 0 {
                    (-(m as i128)) as i128
                } else {
                    m as i128
                },
                scale: s,
            },
        )
    }
}

/// Converts a fixed-point amount at 18 fractional digits into a normalized
/// decimal; fails exactly when the magnitude exceeds 96 bits.
pub fn dec_from_x18(raw: i128) -> (r: Option<Dec>)
    ensures
        r == from_x18_spec(raw),
        r is Some <==> -MAX_MANTISSA <= raw <= MAX_MANTISSA,
        r matches Some(d) ==> d.wf() && d.is_normalized() && (d.mantissa > 0 <==> raw > 0),
{
    if raw < -MAX_MANTISSA || raw > MAX_MANTISSA {
        None
    } else {
        let neg = raw < 0;
        let mag0: u128 = if neg {
            (-raw) as u128
        } else {
            raw as u128
        };
        let mut mag: u128 = mag0;
        let mut s: u32 = X18_SCALE;
        while s > 0 && mag % 10 == 0
            invariant
                s <= X18_SCALE,
                mag <= mag0,
                mag0 <= MAX_MANTISSA as u128,
                norm_mag(mag, s) == norm_mag(mag0, X18_SCALE),
            decreases s,
        {
            mag = mag / 10;
            s = s - 1;
        }
        let m: i128 = if neg {
            -(mag as i128)
        } else {
            mag as i128
        };
        proof {
            lemma_norm_mag_props(mag0, X18_SCALE);
        }
        Some(Dec { mantissa: m, scale: s })
    }
}

/// Conversion from fixed point preserves the value exactly: the resulting
/// decimal denotes `raw / 10^18`, stated over values scaled by
/// `10^MAX_SCALE`.
pub proof fn lemma_from_x18_value(raw: i128)
    requires
        from_x18_spec(raw) is Some,
    ensures
        from_x18_spec(raw) matches Some(d) && d.scaled() == raw * pow10(10),
{
    let mag0: u128 = if raw < 0 {
        (-raw) as u128
    } else {
        raw as u128
    };
    lemma_norm_mag_props(mag0, X18_SCALE);
    let (m2, s2) = norm_mag(mag0, X18_SCALE);
    lemma_pow10_add(10, (X18_SCALE - s2) as nat);
    let p = pow10((X18_SCALE - s2) as nat);
    match from_x18_spec(raw) {
        Some(d) => {
            assert(d.scale == s2 && (d.mantissa as int == if raw < 0 {
                -(m2 as int)
            } else {
                m2 as int
            }));
            assert(pow10((MAX_SCALE - s2) as nat) == pow10(10) * p);
            assert((m2 as int) * p == mag0 as int);
            assert((d.mantissa as int) * (pow10(10) * p) == ((d.mantissa as int) * p) * pow10(10))
                by (nonlinear_arith);
            assert((-(m2 as int)) * p == -((m2 as int) * p)) by (nonlinear_arith);
        },
        None => {},
    }
}

/// A decimal derived from a fixed-point integer converts losslessly: it
/// converts back to exactly the integer it came from.
pub proof fn lemma_x18_round_trip(raw: i128)
    requires
        from_x18_spec(raw) is Some,
    ensures
        from_x18_spec(raw) matches Some(d) && to_x18_spec(d) == Some(raw),
{
    let mag0: u128 = if raw < 0 {
        (-raw) as u128
    } else {
        raw as u128
    };
    lemma_norm_mag_props(mag0, X18_SCALE);
    let (m2, s2) = norm_mag(mag0, X18_SCALE);
    let p = pow10((X18_SCALE - s2) as nat);
    match from_x18_spec(raw) {
        Some(d) => {
            assert(d.scale == s2 && (d.mantissa as int == if raw < 0 {
                -(m2 as int)
            } else {
                m2 as int
            }));
            assert((m2 as int) * p == mag0 as int);
            assert((-(m2 as int)) * p == -((m2 as int) * p)) by (nonlinear_arith);
            assert((d.mantissa as int) * p == raw as int);
        },
        None => {},
    }
}

/// The 18-digit fixed-point integer a decimal denotes exactly; `None` when
/// the value is not an integer multiple of `10^-18` or does not fit.
pub open spec fn to_x18_spec(d: Dec) -> Option<i128>
    recommends
        d.wf(),
{
    if d.scale <= X18_SCALE {
        let v = d.mantissa * pow10((X18_SCALE - d.scale) as nat);
        if v < i128::MIN || v > i128::MAX {
            None
        } else {
            Some(v as i128)
        }
    } else {
        let p = pow10((d.scale - X18_SCALE) as nat);
        if (d.mantissa as int) % p == 0 {
            Some(((d.mantissa as int) / p) as i128)
        } else {
            None
        }
    }
}

/// Converts a decimal exactly into the venue's fixed-point representation.
pub fn dec_to_x18(d: &Dec) -> (r: Option<i128>)
    requires
        d.wf(),
    ensures
        r == to_x18_spec(*d),
{
    if d.scale <= X18_SCALE {
        let p = pow10_u128(X18_SCALE - d.scale);
        proof {
            lemma_pow10_monotone((X18_SCALE - d.scale) as nat, 18);
            reveal_with_fuel(pow10, 19);
        }
        d.mantissa.checked_mul(p as i128)
    } else {
        let p = pow10_u128(d.scale - X18_SCALE);
        proof {
            lemma_pow10_pos((d.scale - X18_SCALE) as nat);
            lemma_pow10_monotone((d.scale - X18_SCALE) as nat, 10);
            reveal_with_fuel(pow10, 11);
        }
        let neg = d.mantissa < 0;
        let mag: u128 = if neg {
            (-d.mantissa) as u128
        } else {
            d.mantissa as u128
        };
        let ghost m: int = d.mantissa as int;
        let ghost pi: int = p as int;
        if mag % p == 0 {
            let q = mag / p;
            proof {
                let k = (mag as int) / pi;
                vstd::arithmetic::div_mod::lemma_fundamental_div_mod(mag as int, pi);
                if neg {
                    assert(m == pi * (-k)) by (nonlinear_arith)
                        requires
                            m == -(mag as int),
                            mag as int == pi * k,
                    ;
                    vstd::arithmetic::div_mod::lemma_mod_multiples_basic(-k, pi);
                    vstd::arithmetic::div_mod::lemma_div_multiples_vanish(-k, pi);
                } else {
                    vstd::arithmetic::div_mod::lemma_mod_multiples_basic(k, pi);
                    vstd::arithmetic::div_mod::lemma_div_multiples_vanish(k, pi);
                }
            }
            if neg {
                Some(-(q as i128))
            } else {
                Some(q as i128)
            }
        } else {
            proof {
                if m % pi == 0 {
                    let k = m / pi;
                    vstd::arithmetic::div_mod::lemma_fundamental_div_mod(m, pi);
                    assert(mag as int == pi * (if neg {
                        -k
                    } else {
                        k
                    })) by (nonlinear_arith)
                        requires
                            m == pi * k,
                            mag as int == if neg {
                                -m
                            } else {
                                m
                            },
                    ;
                    if neg {
                        vstd::arithmetic::div_mod::lemma_mod_multiples_basic(-k, pi);
                    } else {
                        vstd::arithmetic::div_mod::lemma_mod_multiples_basic(k, pi);
                    }
                }
            }
            None
        }
    }
}

} // verus!
