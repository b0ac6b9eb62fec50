//! Unsigned 256-bit quantities.
//!
//! An [`Amount`] holds four 64-bit words, least significant first, and stands
//! for the natural number they spell. Sums, differences, products, quotients
//! and square roots are computed by `casper_types::U256`; what is stated of
//! them here is believed, not proved. Comparisons are proved on the words.

use vstd::prelude::*;

verus! {

/// Two to the power 64.
pub open spec fn radix() -> nat {
    0x1_0000_0000_0000_0000nat
}

/// Two to the power 256: one more than the largest amount.
pub open spec fn modulus() -> nat {
    0x1_0000_0000_0000_0000_0000_0000_0000_0000_0000_0000_0000_0000_0000_0000_0000_0000nat
}

/// An unsigned 256-bit quantity of tokens, of shares or of time.
#[derive(Clone, Copy, Debug, PartialEq, Eq, Structural)]
pub struct Amount {
    pub w0: u64,
    pub w1: u64,
    pub w2: u64,
    pub w3: u64,
}

impl View for Amount {
    type V = nat;

    /// The number that the four words spell.
    open spec fn view(&self) -> nat {
        (self.w0 as nat) + (self.w1 as nat) * 0x1_0000_0000_0000_0000nat + (self.w2 as nat)
            * 0x1_0000_0000_0000_0000_0000_0000_0000_0000nat + (self.w3 as nat)
            * 0x1_0000_0000_0000_0000_0000_0000_0000_0000_0000_0000_0000_0000nat
    }
}

/// Two amounts that spell the same number are the same amount.
pub proof fn lemma_amount_injective(a: Amount, b: Amount)
    ensures
        a@ == b@ <==> a == b,
{
    if a.w3 != b.w3 {
        assert(a@ != b@);
    } else if a.w2 != b.w2 {
        assert(a@ != b@);
    } else if a.w1 != b.w1 {
        assert(a@ != b@);
    } else if a.w0 != b.w0 {
        assert(a@ != b@);
    }
}

/// The square root of a natural number, rounded down.
pub open spec fn sqrt_floor(n: nat) -> nat
    decreases n,
{
    if n == 0 {
        0
    } else {
        let r = sqrt_floor((n - 1) as nat);
        if (r + 1) * (r + 1) <= n {
            r + 1
        } else {
            r
        }
    }
}

/// The rounded-down square root is the largest number whose square does not
/// exceed `n`.
pub proof fn lemma_sqrt_floor(n: nat)
    ensures
        sqrt_floor(n) * sqrt_floor(n) <= n < (sqrt_floor(n) + 1) * (sqrt_floor(n) + 1),
    decreases n,
{
    if n > 0 {
        lemma_sqrt_floor((n - 1) as nat);
        let r = sqrt_floor((n - 1) as nat);
        let s = sqrt_floor(n);
        if (r + 1) * (r + 1) <= n {
            assert(s == r + 1);
            assert(s * s <= n && n < (s + 1) * (s + 1)) by (nonlinear_arith)
                requires
                    s == r + 1,
                    (r + 1) * (r + 1) <= n,
                    n - 1 < (r + 1) * (r + 1),
            ;
        } else {
            assert(s == r);
            assert(s * s <= n && n < (s + 1) * (s + 1)) by (nonlinear_arith)
                requires
                    s == r,
                    r * r <= n - 1,
                    n < (r + 1) * (r + 1),
            ;
        }
    } else {
        assert(sqrt_floor(n) == 0);
        assert(0 * 0 <= n && n < (0 + 1) * (0 + 1)) by (nonlinear_arith)
            requires
                n == 0,
        ;
    }
}

/// Only one number has its square at or below `n` and its successor's
/// square above.
pub proof fn lemma_sqrt_unique(n: nat, r: nat)
    requires
        r * r <= n < (r + 1) * (r + 1),
    ensures
        r == sqrt_floor(n),
{
    lemma_sqrt_floor(n);
    let s = sqrt_floor(n);
    if r < s {
        assert((r + 1) * (r + 1) <= s * s) by (nonlinear_arith)
            requires
                r + 1 <= s,
        ;
    } else if s < r {
        assert((s + 1) * (s + 1) <= r * r) by (nonlinear_arith)
            requires
                s + 1 <= r,
        ;
    }
}

impl Amount {
    /// The amount zero.
    pub fn zero() -> (r: Amount)
        ensures
            r@ == 0,
    {
        Amount { w0: 0, w1: 0, w2: 0, w3: 0 }
    }

    /// The amount that a 64-bit number stands for.
    pub fn from_u64(x: u64) -> (r: Amount)
        ensures
            r@ == x,
    {
        Amount { w0: x, w1: 0, w2: 0, w3: 0 }
    }

    /// The largest amount.
    pub fn max_value() -> (r: Amount)
        ensures
            r@ == modulus() - 1,
    {
        Amount {
            w0: 0xffff_ffff_ffff_ffff,
            w1: 0xffff_ffff_ffff_ffff,
            w2: 0xffff_ffff_ffff_ffff,
            w3: 0xffff_ffff_ffff_ffff,
        }
    }

    /// The amount as a 64-bit number, where it fits in one.
    pub fn to_u64(&self) -> (r: Option<u64>)
        ensures
            self@ < radix() ==> r == Some(self@ as u64),
            self@ >= radix() ==> r is None,
    {
        if self.w1 == 0 && self.w2 == 0 && self.w3 == 0 {
            Some(self.w0)
        } else {
            None
        }
    }

    /// Whether the amount is zero.
    pub fn is_zero(&self) -> (r: bool)
        ensures
            r == (self@ == 0),
    {
        self.w0 == 0 && self.w1 == 0 && self.w2 == 0 && self.w3 == 0
    }

    /// Whether this amount is smaller than the other.
    pub fn lt(&self, other: &Amount) -> (r: bool)
        ensures
            r == (self@ < other@),
    {
        if self.w3 != other.w3 {
            self.w3 < other.w3
        } else if self.w2 != other.w2 {
            self.w2 < other.w2
        } else if self.w1 != other.w1 {
            self.w1 < other.w1
        } else {
            self.w0 < other.w0
        }
    }

    /// Whether this amount is at most the other.
    pub fn le(&self, other: &Amount) -> (r: bool)
        ensures
            r == (self@ <= other@),
    {
        !other.lt(self)
    }

    /// The smaller of two amounts.
    pub fn min(self, other: Amount) -> (r: Amount)
        ensures
            r@ == if self@ <= other@ { self@ } else { other@ },
    {
        if self.le(&other) {
            self
        } else {
            other
        }
    }

    /// The larger of two amounts.
    pub fn max(self, other: Amount) -> (r: Amount)
        ensures
            r@ == if self@ >= other@ { self@ } else { other@ },
    {
        if other.le(&self) {
            self
        } else {
            other
        }
    }

    /// The square root, rounded down.
    pub fn sqrt(self) -> (r: Amount)
        ensures
            r@ == sqrt_floor(self@),
    {
        let r = self.integer_sqrt();
        proof {
            lemma_sqrt_unique(self@, r@);
        }
        r
    }

    /// The sum, where it fits in 256 bits.
    ///
    /// Calls `U256::checked_add`, which gives the sum unless it overflows.
    #[verifier::external_body]
    pub(crate) fn checked_add(self, other: Amount) -> (r: Option<Amount>)
        ensures
            match r {
                Some(s) => s@ == self@ + other@,
                None => self@ + other@ >= modulus(),
            },
    {
        let x = casper_types::U256([self.w0, self.w1, self.w2, self.w3]);
        let y = casper_types::U256([other.w0, other.w1, other.w2, other.w3]);
        match x.checked_add(y) {
            Some(s) => Some(Amount { w0: s.0[0], w1: s.0[1], w2: s.0[2], w3: s.0[3] }),
            None => None,
        }
    }

    /// The difference, where the other amount is not the larger.
    ///
    /// Calls `U256::checked_sub`, which gives the difference unless it would
    /// fall below zero.
    #[verifier::external_body]
    pub(crate) fn checked_sub(self, other: Amount) -> (r: Option<Amount>)
        ensures
            match r {
                Some(s) => s@ == self@ - other@,
                None => self@ < other@,
            },
    {
        let x = casper_types::U256([self.w0, self.w1, self.w2, self.w3]);
        let y = casper_types::U256([other.w0, other.w1, other.w2, other.w3]);
        match x.checked_sub(y) {
            Some(s) => Some(Amount { w0: s.0[0], w1: s.0[1], w2: s.0[2], w3: s.0[3] }),
            None => None,
        }
    }

    /// The product, where it fits in 256 bits.
    ///
    /// Calls `U256::checked_mul`, which gives the product unless it
    /// overflows.
    #[verifier::external_body]
    pub(crate) fn checked_mul(self, other: Amount) -> (r: Option<Amount>)
        ensures
            match r {
                Some(s) => s@ == self@ * other@,
                None => self@ * other@ >= modulus(),
            },
    {
        let x = casper_types::U256([self.w0, self.w1, self.w2, self.w3]);
        let y = casper_types::U256([other.w0, other.w1, other.w2, other.w3]);
        match x.checked_mul(y) {
            Some(s) => Some(Amount { w0: s.0[0], w1: s.0[1], w2: s.0[2], w3: s.0[3] }),
            None => None,
        }
    }

    /// The quotient, rounded down, where the divisor is not zero.
    ///
    /// Calls `U256::checked_div`, which gives the floor of the quotient
    /// unless the divisor is zero.
    #[verifier::external_body]
    pub(crate) fn checked_div(self, other: Amount) -> (r: Option<Amount>)
        ensures
            match r {
                Some(s) => other@ != 0 && s@ == self@ / other@,
                None => other@ == 0,
            },
    {
        let x = casper_types::U256([self.w0, self.w1, self.w2, self.w3]);
        let y = casper_types::U256([other.w0, other.w1, other.w2, other.w3]);
        match x.checked_div(y) {
            Some(s) => Some(Amount { w0: s.0[0], w1: s.0[1], w2: s.0[2], w3: s.0[3] }),
            None => None,
        }
    }

    /// The square root, rounded down.
    ///
    /// Calls `U256::integer_sqrt`, which gives the largest number whose
    /// square does not exceed this amount.
    #[verifier::external_body]
    pub(crate) fn integer_sqrt(self) -> (r: Amount)
        ensures
            r@ * r@ <= self@ < (r@ + 1) * (r@ + 1),
    {
        let x = casper_types::U256([self.w0, self.w1, self.w2, self.w3]);
        let s = x.integer_sqrt();
        Amount { w0: s.0[0], w1: s.0[1], w2: s.0[2], w3: s.0[3] }
    }
}

} // verus!
