//! Exact decimal numbers.
//!
//! A [`Num`] holds the value `mantissa / 10^scale`.  The parser only ever
//! builds values whose scale is at most [`MAX_SCALE`]; addition keeps that
//! bound.  Two `Num`s may denote the same value under different scales
//! (`8.0` and `8.`); [`num_val_num`] / [`num_val_den`] give the value as an
//! exact fraction for value-level reasoning.

use vstd::prelude::*;

verus! {

/// Largest fraction-digit count the library represents exactly.
pub const MAX_SCALE: u32 = 19;

/// An exact unsigned decimal: the value `mantissa / 10^scale`.
#[derive(Clone, Copy, Debug, PartialEq, Eq, Structural)]
pub struct Num {
    pub mantissa: u64,
    pub scale: u32,
}

/// `10^e` as a mathematical integer.
pub open spec fn pow10(e: nat) -> nat
    decreases e,
{
    if e == 0 {
        1
    } else {
        10 * pow10((e - 1) as nat)
    }
}

/// Numerator of the value of `n` as an exact fraction.
pub open spec fn num_val_num(n: Num) -> int {
    n.mantissa as int
}

/// Denominator of the value of `n` as an exact fraction.
pub open spec fn num_val_den(n: Num) -> int {
    pow10(n.scale as nat) as int
}

/// A `Num` the library itself builds: its scale is within the exact range.
pub open spec fn num_wf(n: Num) -> bool {
    n.scale <= MAX_SCALE
}

pub proof fn lemma_pow10_pos(e: nat)
    ensures
        pow10(e) >= 1,
    decreases e,
{
    if e > 0 {
        lemma_pow10_pos((e - 1) as nat);
    }
}

pub proof fn lemma_pow10_add(a: nat, b: nat)
    ensures
        pow10(a + b) == pow10(a) * pow10(b),
    decreases a,
{
    if a == 0 {
        assert(pow10(a + b) == pow10(b));
        assert(pow10(a) * pow10(b) == 1 * pow10(b));
        assert(1 * pow10(b) == pow10(b)) by (nonlinear_arith);
    } else {
        lemma_pow10_add((a - 1) as nat, b);
        let x = pow10((a - 1) as nat) as int;
        let y = pow10(b) as int;
        assert(pow10(((a - 1) + b) as nat) == x * y);
        assert(pow10(a + b) == 10 * pow10(((a - 1) + b) as nat));
        assert(pow10(a) == 10 * x);
        assert(pow10(a + b) == pow10(a) * pow10(b)) by (nonlinear_arith)
            requires
                pow10(a + b) == 10 * (x * y),
                pow10(a) == 10 * x,
                pow10(b) == y,
        ;
    }
}

pub proof fn lemma_pow10_mono(a: nat, b: nat)
    ensures
        a <= b ==> pow10(a) <= pow10(b),
    decreases b,
{
    if b > 0 && a <= b - 1 {
        lemma_pow10_mono(a, (b - 1) as nat);
        lemma_pow10_pos((b - 1) as nat);
    }
}

/// `10^19` fits in a `u64`.
pub proof fn lemma_pow10_max_scale()
    ensures
        pow10(MAX_SCALE as nat) == 10_000_000_000_000_000_000,
{
    assert(pow10(19) == 10_000_000_000_000_000_000) by {
        reveal_with_fuel(pow10, 20);
    }
}

/// The result of adding `a` and `b` exactly, aligned to the larger scale;
/// `None` when the sum cannot be held in a well-formed `Num`.
pub open spec fn spec_num_add(a: Num, b: Num) -> Option<Num> {
    if !num_wf(a) || !num_wf(b) {
        None
    } else {
        let s = if a.scale >= b.scale {
            a.scale
        } else {
            b.scale
        };
        let am = a.mantissa * pow10((s - a.scale) as nat);
        let bm = b.mantissa * pow10((s - b.scale) as nat);
        if am + bm <= u64::MAX {
            Some(Num { mantissa: (am + bm) as u64, scale: s })
        } else {
            None
        }
    }
}

/// The aligned sum denotes the exact sum of the two values.
pub proof fn lemma_num_add_exact(a: Num, b: Num, r: Num)
    requires
        spec_num_add(a, b) == Some(r),
    ensures
        num_val_num(r) * (num_val_den(a) * num_val_den(b)) == (num_val_num(a) * num_val_den(b)
            + num_val_num(b) * num_val_den(a)) * num_val_den(r),
{
    let s: u32 = if a.scale >= b.scale {
        a.scale
    } else {
        b.scale
    };
    let da = (s - a.scale) as nat;
    let db = (s - b.scale) as nat;
    lemma_pow10_add(a.scale as nat, da);
    lemma_pow10_add(b.scale as nat, db);
    // pow10(s) == pow10(a.scale) * pow10(da) == pow10(b.scale) * pow10(db)
    let pa = pow10(a.scale as nat) as int;
    let pb = pow10(b.scale as nat) as int;
    let ps = pow10(s as nat) as int;
    let ma = a.mantissa as int;
    let mb = b.mantissa as int;
    assert(r.mantissa == ma * pow10(da) + mb * pow10(db));
    assert(ps == pa * pow10(da) && ps == pb * pow10(db));
    assert((ma * pow10(da) + mb * pow10(db)) * (pa * pb) == (ma * pb + mb * pa) * ps) by {
        assert((ma * pow10(da)) * (pa * pb) == (ma * pb) * (pa * pow10(da)))
            by (nonlinear_arith);
        assert((mb * pow10(db)) * (pa * pb) == (mb * pa) * (pb * pow10(db)))
            by (nonlinear_arith);
        assert((ma * pow10(da) + mb * pow10(db)) * (pa * pb) == (ma * pow10(da)) * (pa * pb) + (mb
            * pow10(db)) * (pa * pb)) by (nonlinear_arith);
        assert((ma * pb + mb * pa) * ps == (ma * pb) * ps + (mb * pa) * ps) by (nonlinear_arith);
    }
}

impl Num {
    /// Exact decimal addition; fails when the exact sum does not fit.
    ///
    /// Aligns both mantissas to the larger scale and adds them; the result
    /// denotes exactly the sum of the two values.
    pub fn add(self, other: Num) -> (r: Result<Num, crate::Error>)
        ensures
            match r {
                Ok(n) => spec_num_add(self, other) == Some(n),
                Err(e) => spec_num_add(self, other) is None && e == crate::Error::MalformedValue,
            },
    {
        if self.scale > MAX_SCALE || other.scale > MAX_SCALE {
            return Err(crate::Error::MalformedValue);
        }
        let (lo, hi) = if self.scale >= other.scale {
            (other, self)
        } else {
            (self, other)
        };
        let diff = hi.scale - lo.scale;
        let p = pow10_u64(diff);
        proof {
            lemma_pow10_max_scale();
            lemma_pow10_mono(diff as nat, MAX_SCALE as nat);
            let s: u32 = if self.scale >= other.scale {
                self.scale
            } else {
                other.scale
            };
            assert(hi.scale == s && lo.scale + diff == s);
            assert(pow10((s - hi.scale) as nat) == 1);
            assert(hi.mantissa * pow10((s - hi.scale) as nat) == hi.mantissa)
                by (nonlinear_arith)
                requires
                    pow10((s - hi.scale) as nat) == 1,
            ;
        }
        match lo.mantissa.checked_mul(p) {
            Some(alo) => match alo.checked_add(hi.mantissa) {
                Some(sum) => Ok(Num { mantissa: sum, scale: hi.scale }),
                None => Err(crate::Error::MalformedValue),
            },
            None => Err(crate::Error::MalformedValue),
        }
    }
}

/// `10^e` as a `u64`, for exponents within the exact range.
pub fn pow10_u64(e: u32) -> (r: u64)
    requires
        e <= MAX_SCALE,
    ensures
        r == pow10(e as nat),
{
    proof {
        lemma_pow10_max_scale();
        lemma_pow10_mono(e as nat, MAX_SCALE as nat);
    }
    let mut r: u64 = 1;
    let mut i: u32 = 0;
    while i < e
        invariant
            i <= e <= MAX_SCALE,
            r == pow10(i as nat),
        decreases e - i,
    {
        proof {
            lemma_pow10_max_scale();
            lemma_pow10_mono((i + 1) as nat, MAX_SCALE as nat);
        }
        r = r * 10;
        i = i + 1;
    }
    r
}

} // verus!
