//! The prime field the circuit cells live in.
//!
//! Elements are kept in canonical (fully reduced) form; the arithmetic is
//! ordinary modular arithmetic with `u128` intermediates, so no operation
//! can overflow.

use vstd::prelude::*;

verus! {

/// The prime modulus of the field: 2^64 - 2^32 + 1.
pub const MODULUS: u64 = 18446744069414584321;

/// An element of the prime field of order `MODULUS`.
#[derive(Clone, Copy, Debug, PartialEq, Eq, Structural, Hash)]
pub struct Fp {
    /// The canonical representative; every constructor of this module keeps
    /// it below `MODULUS`.
    pub v: u64,
}

/// The canonical representative of `a + b` modulo `MODULUS`.
pub open spec fn spec_add(a: Fp, b: Fp) -> Fp {
    Fp { v: ((a.v + b.v) % (MODULUS as int)) as u64 }
}

/// The canonical representative of `a - b` modulo `MODULUS`.  Both operands
/// are reduced first so that the difference is computed over non-negative
/// integers even for a non-canonical operand.
pub open spec fn spec_sub(a: Fp, b: Fp) -> Fp {
    Fp { v: (((a.v as int) % (MODULUS as int) + (MODULUS as int) - (b.v as int) % (MODULUS as int)) % (MODULUS as int)) as u64 }
}

/// The canonical representative of `a * b` modulo `MODULUS`.
pub open spec fn spec_mul(a: Fp, b: Fp) -> Fp {
    Fp { v: ((a.v * b.v) % (MODULUS as int)) as u64 }
}

impl Fp {
    /// The integer this element stands for.
    pub open spec fn value(self) -> int {
        self.v as int
    }

    /// The element is in canonical form.
    pub open spec fn wf(self) -> bool {
        self.v < MODULUS
    }

    /// The element standing for `x`, reduced modulo `MODULUS`.
    pub fn from_u64(x: u64) -> (r: Fp)
        ensures
            r.value() == x % MODULUS,
            r.wf(),
    {
        Fp { v: x % MODULUS }
    }

    /// The additive identity.
    pub fn zero() -> (r: Fp)
        ensures
            r.value() == 0,
            r.wf(),
    {
        Fp { v: 0 }
    }

    /// The multiplicative identity.
    pub fn one() -> (r: Fp)
        ensures
            r.value() == 1,
            r.wf(),
    {
        Fp { v: 1 }
    }

    /// The canonical representative as a machine integer.
    pub fn as_u64(self) -> (r: u64)
        ensures
            r == self.value(),
    {
        self.v
    }

    /// Whether this element is zero.
    pub fn is_zero(self) -> (r: bool)
        ensures
            r == (self.value() == 0),
    {
        self.v == 0
    }

    /// Field addition.
    pub fn add(self, o: Fp) -> (r: Fp)
        ensures
            r == spec_add(self, o),
            r.wf(),
    {
        let s: u128 = self.v as u128 + o.v as u128;
        let m: u128 = s % (MODULUS as u128);
        Fp { v: m as u64 }
    }

    /// Field subtraction.
    pub fn sub(self, o: Fp) -> (r: Fp)
        ensures
            r == spec_sub(self, o),
            r.wf(),
    {
        let a: u128 = (self.v % MODULUS) as u128;
        let b: u128 = (o.v % MODULUS) as u128;
        let d: u128 = (a + MODULUS as u128 - b) % (MODULUS as u128);
        Fp { v: d as u64 }
    }

    /// Field multiplication.
    pub fn mul(self, o: Fp) -> (r: Fp)
        ensures
            r == spec_mul(self, o),
            r.wf(),
    {
        proof {
            assert((self.v as int) * (o.v as int) <= (u64::MAX as int) * (u64::MAX as int))
                by (nonlinear_arith)
                requires
                    self.v <= u64::MAX,
                    o.v <= u64::MAX,
            ;
        }
        let p: u128 = self.v as u128 * o.v as u128;
        let m: u128 = p % (MODULUS as u128);
        Fp { v: m as u64 }
    }
}

} // verus!
