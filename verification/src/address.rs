//! Identities of tokens and accounts.

use vstd::prelude::*;

verus! {

/// A 256-bit identity: four 64-bit words, most significant first. Read as one
/// number it gives the identity's rank, by which identities are ordered; the
/// identity of rank zero is the null identity and names nobody.
#[derive(Clone, Copy, Debug, PartialEq, Eq, Structural)]
pub struct Address {
    pub h0: u64,
    pub h1: u64,
    pub h2: u64,
    pub h3: u64,
}

impl View for Address {
    type V = nat;

    /// The identity's rank.
    open spec fn view(&self) -> nat {
        (self.h3 as nat) + (self.h2 as nat) * 0x1_0000_0000_0000_0000nat + (self.h1 as nat)
            * 0x1_0000_0000_0000_0000_0000_0000_0000_0000nat + (self.h0 as nat)
            * 0x1_0000_0000_0000_0000_0000_0000_0000_0000_0000_0000_0000_0000nat
    }
}

/// Two identities of the same rank are the same identity.
pub proof fn lemma_address_injective(a: Address, b: Address)
    ensures
        a@ == b@ <==> a == b,
{
    if a.h0 != b.h0 {
        assert(a@ != b@);
    } else if a.h1 != b.h1 {
        assert(a@ != b@);
    } else if a.h2 != b.h2 {
        assert(a@ != b@);
    } else if a.h3 != b.h3 {
        assert(a@ != b@);
    }
}

impl Address {
    /// The null identity.
    pub fn zero() -> (r: Address)
        ensures
            r@ == 0,
    {
        Address { h0: 0, h1: 0, h2: 0, h3: 0 }
    }

    /// The identity whose rank is the given 64-bit number.
    pub fn from_u64(x: u64) -> (r: Address)
        ensures
            r@ == x,
    {
        Address { h0: 0, h1: 0, h2: 0, h3: x }
    }

    /// Whether this is the null identity.
    pub fn is_zero(&self) -> (r: bool)
        ensures
            r == (self@ == 0),
    {
        self.h0 == 0 && self.h1 == 0 && self.h2 == 0 && self.h3 == 0
    }

    /// Whether this identity ranks below the other.
    pub fn lt(&self, other: &Address) -> (r: bool)
        ensures
            r == (self@ < other@),
    {
        if self.h0 != other.h0 {
            self.h0 < other.h0
        } else if self.h1 != other.h1 {
            self.h1 < other.h1
        } else if self.h2 != other.h2 {
            self.h2 < other.h2
        } else {
            self.h3 < other.h3
        }
    }

    /// Whether the two identities are the same.
    pub fn same(&self, other: &Address) -> (r: bool)
        ensures
            r == (*self == *other),
            r == (self@ == other@),
    {
        self.h0 == other.h0 && self.h1 == other.h1 && self.h2 == other.h2 && self.h3 == other.h3
    }
}

} // verus!
