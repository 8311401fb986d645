//! Unsigned 256-bit token amounts, held as two 128-bit limbs.

use vstd::prelude::*;

verus! {

/// Two to the power 128: the weight of the high limb.
pub open spec fn limb_base() -> nat {
    0x1_0000_0000_0000_0000_0000_0000_0000_0000nat
}

/// An unsigned 256-bit amount. Its value is `hi * 2^128 + lo`.
#[derive(Clone, Copy, Debug, PartialEq, Eq, Structural)]
pub struct Amount {
    pub hi: u128,
    pub lo: u128,
}

impl Amount {
    /// The number this amount stands for.
    pub open spec fn value(self) -> nat {
        self.hi as nat * limb_base() + self.lo as nat
    }

    /// The amount zero.
    pub fn zero() -> (r: Amount)
        ensures
            r.value() == 0,
            r == (Amount { hi: 0, lo: 0 }),
    {
        Amount { hi: 0, lo: 0 }
    }

    /// The amount with the given value below 2^128.
    pub fn from_u128(v: u128) -> (r: Amount)
        ensures
            r.value() == v,
            r == (Amount { hi: 0, lo: v }),
    {
        Amount { hi: 0, lo: v }
    }

    /// Whether the amount is zero.
    pub fn is_zero(&self) -> (r: bool)
        ensures
            r == (self.value() == 0),
    {
        proof {
            lemma_value_bounds(*self);
        }
        self.hi == 0 && self.lo == 0
    }

    /// The value as a `u64`, where it fits.
    pub fn to_u64(&self) -> (r: Option<u64>)
        ensures
            match r {
                Some(v) => v as nat == self.value(),
                None => self.value() > u64::MAX as nat,
            },
    {
        proof {
            lemma_value_bounds(*self);
        }
        if self.hi == 0 && self.lo <= 0xffff_ffff_ffff_ffffu128 {
            Some(self.lo as u64)
        } else {
            None
        }
    }

    /// The sum of two amounts, or `None` where it does not fit in 256 bits.
    pub fn checked_add(&self, other: &Amount) -> (r: Option<Amount>)
        ensures
            match r {
                Some(s) => s.value() == self.value() + other.value(),
                None => self.value() + other.value() >= limb_base() * limb_base(),
            },
    {
        let max: u128 = u128::MAX;
        let carry: bool = self.lo > max - other.lo;
        let lo: u128 = if carry {
            self.lo - (max - other.lo) - 1
        } else {
            self.lo + other.lo
        };
        if self.hi > max - other.hi {
            proof {
                lemma_sum_overflows(*self, *other);
            }
            return None;
        }
        let hi: u128 = self.hi + other.hi;
        if carry {
            if hi == max {
                proof {
                    lemma_sum_overflows_with_carry(*self, *other);
                }
                return None;
            }
            let r = Amount { hi: hi + 1, lo };
            proof {
                lemma_sum_with_carry(*self, *other, r);
            }
            Some(r)
        } else {
            let r = Amount { hi, lo };
            proof {
                lemma_sum_without_carry(*self, *other, r);
            }
            Some(r)
        }
    }
}

/// Two amounts with the same value are the same amount.
pub proof fn lemma_value_injective(a: Amount, b: Amount)
    ensures
        (a.value() == b.value()) == (a == b),
{
    lemma_value_bounds(a);
    lemma_value_bounds(b);
    if a.value() == b.value() {
        let base = limb_base() as int;
        assert(a.hi == b.hi) by (nonlinear_arith)
            requires
                a.hi as int * base + a.lo as int == b.hi as int * base + b.lo as int,
                0 <= a.lo < base,
                0 <= b.lo < base,
                base > 0,
        ;
    }
}

proof fn lemma_value_bounds(a: Amount)
    ensures
        a.lo < limb_base(),
        a.hi < limb_base(),
        a.value() == 0 <==> (a.hi == 0 && a.lo == 0),
        a.hi == 0 ==> a.value() == a.lo,
        a.hi > 0 ==> a.value() >= limb_base(),
        a.value() < limb_base() * limb_base(),
{
    let base = limb_base() as int;
    assert(a.hi as int * base >= base || a.hi == 0) by (nonlinear_arith)
        requires
            base > 0,
            a.hi >= 0,
    ;
    assert(a.hi as int * base + (a.lo as int) < base * base) by (nonlinear_arith)
        requires
            0 <= a.hi < base,
            0 <= a.lo < base,
    ;
}

proof fn lemma_sum_overflows(a: Amount, b: Amount)
    requires
        a.hi + b.hi > u128::MAX,
    ensures
        a.value() + b.value() >= limb_base() * limb_base(),
{
    let base = limb_base() as int;
    assert(a.hi as int * base + b.hi as int * base >= base * base) by (nonlinear_arith)
        requires
            a.hi + b.hi >= base,
            base > 0,
    ;
}

proof fn lemma_sum_overflows_with_carry(a: Amount, b: Amount)
    requires
        a.hi + b.hi == u128::MAX,
        a.lo + b.lo > u128::MAX,
    ensures
        a.value() + b.value() >= limb_base() * limb_base(),
{
    let base = limb_base() as int;
    assert(a.hi as int * base + b.hi as int * base == (base - 1) * base) by (nonlinear_arith)
        requires
            a.hi + b.hi == base - 1,
    ;
    assert((base - 1) * base + base == base * base) by (nonlinear_arith);
}

proof fn lemma_sum_with_carry(a: Amount, b: Amount, r: Amount)
    requires
        r.hi == a.hi + b.hi + 1,
        r.lo == a.lo + b.lo - limb_base(),
    ensures
        r.value() == a.value() + b.value(),
{
    let base = limb_base() as int;
    assert((a.hi as int + b.hi as int + 1) * base == a.hi as int * base + b.hi as int * base + base)
        by (nonlinear_arith);
}

proof fn lemma_sum_without_carry(a: Amount, b: Amount, r: Amount)
    requires
        r.hi == a.hi + b.hi,
        r.lo == a.lo + b.lo,
    ensures
        r.value() == a.value() + b.value(),
{
    let base = limb_base() as int;
    assert((a.hi as int + b.hi as int) * base == a.hi as int * base + b.hi as int * base)
        by (nonlinear_arith);
}

} // verus!
