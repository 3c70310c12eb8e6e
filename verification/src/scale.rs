//! Exact linear scaling between coordinate ranges.
//!
//! The graph maps data coordinates onto viewport coordinates with a linear
//! map that clamps outside its domain and may run inverted (a codomain
//! given high-to-low).  To keep the map exact, inputs are signed decimals
//! ([`Dec`]) within a fixed range, and the result is an exact rational
//! ([`Rat`]).

use vstd::prelude::*;

use crate::num::{lemma_pow10_mono, pow10, Num};

verus! {

/// Largest fraction-digit count a scaling input may carry.
pub const DEC_MAX_SCALE: u32 = 9;

/// Largest mantissa magnitude a scaling input may carry.
pub const DEC_MAX_MANTISSA: i64 = 1_000_000_000;

/// A signed exact decimal: the value `mantissa / 10^scale`.
#[derive(Clone, Copy, Debug, PartialEq, Eq, Structural)]
pub struct Dec {
    pub mantissa: i64,
    pub scale: u32,
}

/// An exact rational with a positive denominator.
#[derive(Clone, Copy, Debug, PartialEq, Eq, Structural)]
pub struct Rat {
    pub num: i128,
    pub den: i128,
}

/// A decimal the scaling arithmetic can hold exactly.
pub open spec fn dec_ok(d: Dec) -> bool {
    d.scale <= DEC_MAX_SCALE && -DEC_MAX_MANTISSA <= d.mantissa <= DEC_MAX_MANTISSA
}

/// The mantissa of `d` brought to nine fraction digits.
pub open spec fn dec_up(d: Dec) -> int {
    d.mantissa * pow10((DEC_MAX_SCALE - d.scale) as nat)
}

/// Value order on scaling decimals.
pub open spec fn dec_le(a: Dec, b: Dec) -> bool {
    dec_up(a) <= dec_up(b)
}

/// Strict value order on scaling decimals.
pub open spec fn dec_lt(a: Dec, b: Dec) -> bool {
    dec_up(a) < dec_up(b)
}

/// The rational a decimal denotes.
pub open spec fn rat_of_dec(d: Dec) -> Rat {
    Rat { num: d.mantissa as i128, den: pow10(d.scale as nat) as i128 }
}

/// Facts about small powers of ten, for the scaling range.
proof fn lemma_pow10_nine()
    ensures
        pow10(9) == 1_000_000_000,
        forall|e: nat| e <= 9 ==> #[trigger] pow10(e) <= 1_000_000_000,
        forall|e: nat| #[trigger] pow10(e) >= 1,
{
    assert(pow10(9) == 1_000_000_000) by {
        reveal_with_fuel(pow10, 10);
    }
    assert forall|e: nat| e <= 9 implies #[trigger] pow10(e) <= 1_000_000_000 by {
        lemma_pow10_mono(e, 9);
    }
    assert forall|e: nat| #[trigger] pow10(e) >= 1 by {
        crate::num::lemma_pow10_pos(e);
    }
}

/// `10^e` for the scaling range.
fn pow10_i128(e: u32) -> (r: i128)
    requires
        e <= DEC_MAX_SCALE,
    ensures
        r == pow10(e as nat),
        1 <= r <= 1_000_000_000,
{
    proof {
        lemma_pow10_nine();
    }
    let mut r: i128 = 1;
    let mut i: u32 = 0;
    while i < e
        invariant
            i <= e <= DEC_MAX_SCALE,
            r == pow10(i as nat),
            1 <= r <= 1_000_000_000,
        decreases e - i,
    {
        proof {
            lemma_pow10_nine();
        }
        r = r * 10;
        i = i + 1;
    }
    r
}

/// Brings a decimal's mantissa to nine fraction digits.
fn up(d: Dec) -> (r: i128)
    requires
        dec_ok(d),
    ensures
        r == dec_up(d),
        -1_000_000_000_000_000_000 <= r <= 1_000_000_000_000_000_000,
{
    let p = pow10_i128(DEC_MAX_SCALE - d.scale);
    let m = d.mantissa as i128;
    proof {
        assert(m * p <= 1_000_000_000_000_000_000 && m * p >= -1_000_000_000_000_000_000)
            by (nonlinear_arith)
            requires
                -1_000_000_000 <= m <= 1_000_000_000,
                1 <= p <= 1_000_000_000,
        ;
    }
    m * p
}

/// The exact linear map: clamp outside the domain, otherwise interpolate;
/// a codomain given high-to-low runs inverted.
///
/// In the interpolating case the result is exactly
/// `omin + (omax - omin) * (input - imin) / (imax - imin)` (mirrored when
/// inverted), written over the nine-digit mantissas.
pub open spec fn spec_scale(domain: (Dec, Dec), codomain: (Dec, Dec), input: Dec) -> Rat {
    let inverted = dec_lt(codomain.1, codomain.0);
    let omin = if inverted {
        codomain.1
    } else {
        codomain.0
    };
    let omax = if inverted {
        codomain.0
    } else {
        codomain.1
    };
    if dec_le(input, domain.0) {
        if inverted {
            rat_of_dec(omax)
        } else {
            rat_of_dec(omin)
        }
    } else if dec_le(domain.1, input) {
        if inverted {
            rat_of_dec(omin)
        } else {
            rat_of_dec(omax)
        }
    } else {
        let a0 = dec_up(domain.0);
        let a1 = dec_up(domain.1);
        let ai = dec_up(input);
        let b0 = dec_up(omin);
        let b1 = dec_up(omax);
        if inverted {
            Rat {
                num: (b1 * (a1 - a0) - (b1 - b0) * (ai - a0)) as i128,
                den: ((a1 - a0) * pow10(DEC_MAX_SCALE as nat)) as i128,
            }
        } else {
            Rat {
                num: (b0 * (a1 - a0) + (b1 - b0) * (ai - a0)) as i128,
                den: ((a1 - a0) * pow10(DEC_MAX_SCALE as nat)) as i128,
            }
        }
    }
}

/// Maps `input` from `domain` onto `codomain` linearly and exactly.
///
/// Inputs at or outside the domain's ends clamp to the codomain's ends; an
/// inverted codomain mirrors the map.  Returns exactly [`spec_scale`], a
/// rational with a positive denominator.
pub fn scale(domain: (Dec, Dec), codomain: (Dec, Dec), input: Dec) -> (r: Rat)
    requires
        dec_ok(domain.0) && dec_ok(domain.1),
        dec_ok(codomain.0) && dec_ok(codomain.1),
        dec_ok(input),
        dec_le(domain.0, domain.1),
    ensures
        r == spec_scale(domain, codomain, input),
        r.den > 0,
{
    proof {
        lemma_pow10_nine();
    }
    let c0 = up(codomain.0);
    let c1 = up(codomain.1);
    let inverted = c1 < c0;
    let (omin, omax) = if inverted {
        (codomain.1, codomain.0)
    } else {
        (codomain.0, codomain.1)
    };
    let a0 = up(domain.0);
    let a1 = up(domain.1);
    let ai = up(input);
    if ai <= a0 {
        let d = if inverted {
            omax
        } else {
            omin
        };
        return Rat { num: d.mantissa as i128, den: pow10_i128(d.scale) };
    }
    if a1 <= ai {
        let d = if inverted {
            omin
        } else {
            omax
        };
        return Rat { num: d.mantissa as i128, den: pow10_i128(d.scale) };
    }
    let b0 = up(omin);
    let b1 = up(omax);
    let da = a1 - a0;
    let di = ai - a0;
    let db = b1 - b0;
    proof {
        let big: int = 2_000_000_000_000_000_000;
        assert(b0 * da <= big * big && b0 * da >= -(big * big) && b1 * da <= big * big && b1 * da
            >= -(big * big) && db * di <= big * big && db * di >= -(big * big))
            by (nonlinear_arith)
            requires
                -big <= b0 <= big,
                -big <= b1 <= big,
                -big <= db <= big,
                0 < da <= big,
                0 < di <= big,
        ;
        assert(da * 1_000_000_000 <= big * 1_000_000_000) by (nonlinear_arith)
            requires
                0 < da <= big,
        ;
        assert(da * 1_000_000_000 > 0) by (nonlinear_arith)
            requires
                da > 0,
        ;
    }
    let den = da * 1_000_000_000i128;
    if inverted {
        Rat { num: b1 * da - db * di, den }
    } else {
        Rat { num: b0 * da + db * di, den }
    }
}

/// Converts an unsigned parsed number into a scaling decimal; values too
/// fine or too large for the scaling range are refused.
pub fn dec_of_num(n: Num) -> (r: Result<Dec, crate::Error>)
    ensures
        match r {
            Ok(d) => spec_dec_of_num(n) == Some(d),
            Err(e) => spec_dec_of_num(n) is None && e == crate::Error::MalformedValue,
        },
{
    if n.scale <= DEC_MAX_SCALE && n.mantissa <= DEC_MAX_MANTISSA as u64 {
        Ok(Dec { mantissa: n.mantissa as i64, scale: n.scale })
    } else {
        Err(crate::Error::MalformedValue)
    }
}

/// The scaling decimal an unsigned parsed number denotes, when it fits the
/// scaling range.
pub open spec fn spec_dec_of_num(n: Num) -> Option<Dec> {
    if n.scale <= DEC_MAX_SCALE && n.mantissa <= DEC_MAX_MANTISSA {
        Some(Dec { mantissa: n.mantissa as i64, scale: n.scale })
    } else {
        None
    }
}

} // verus!
