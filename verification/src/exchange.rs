//! The exchange: the bank and the register of pools, and what a pool does
//! on them when it takes a deposit, redeems shares or settles a trade.
//!
//! A call either does all of its work or none: it works on a copy of the
//! exchange, which takes its place once the work is done. While a call
//! works it holds the exchange alone: no second call can reach a pool
//! before the first has settled it.

use crate::address::Address;
use crate::amount::Amount;
use crate::bank::{Bank, BankState};
use crate::error::Error;
use crate::factory::{same_pools, Factory};
use crate::pair::{pair_burned, pair_minted, pair_swapped, PairState};
use vstd::prelude::*;

verus! {

/// The exchange as mathematics.
pub struct ExchangeState {
    pub bank: BankState,
    pub pairs: Seq<PairState>,
}

/// The pool number `i` takes a deposit for `to`. Gives the exchange and
/// the shares earned.
pub open spec fn pool_minted(s: ExchangeState, i: int, to: Address, now: u128) -> Result<
    (ExchangeState, nat),
    Error,
> {
    if i < 0 || i >= s.pairs.len() {
        Err(Error::PairNotFound)
    } else {
        match pair_minted(s.pairs[i], s.bank, to, now) {
            Err(e) => Err(e),
            Ok((p, b, liquidity)) => Ok(
                (ExchangeState { bank: b, pairs: s.pairs.update(i, p) }, liquidity),
            ),
        }
    }
}

/// The pool number `i` redeems the shares that it holds, and pays `to`.
/// Gives the exchange and the two amounts paid.
pub open spec fn pool_burned(s: ExchangeState, i: int, to: Address, now: u128) -> Result<
    (ExchangeState, nat, nat),
    Error,
> {
    if i < 0 || i >= s.pairs.len() {
        Err(Error::PairNotFound)
    } else {
        match pair_burned(s.pairs[i], s.bank, to, now) {
            Err(e) => Err(e),
            Ok((p, b, amount0, amount1)) => Ok(
                (ExchangeState { bank: b, pairs: s.pairs.update(i, p) }, amount0, amount1),
            ),
        }
    }
}

/// The pool number `i` settles a trade that pays `amount0_out` and
/// `amount1_out` to `to`.
pub open spec fn pool_swapped(
    s: ExchangeState,
    i: int,
    amount0_out: nat,
    amount1_out: nat,
    to: Address,
    now: u128,
) -> Result<ExchangeState, Error> {
    if i < 0 || i >= s.pairs.len() {
        Err(Error::PairNotFound)
    } else {
        match pair_swapped(s.pairs[i], s.bank, amount0_out, amount1_out, to, now) {
            Err(e) => Err(e),
            Ok((p, b)) => Ok(ExchangeState { bank: b, pairs: s.pairs.update(i, p) }),
        }
    }
}

/// What a pool does changes its reserves and the bank, and nothing else of
/// the register: the pools stay, each under its identity and with its
/// tokens.
pub proof fn lemma_pool_keeps_register(
    s: ExchangeState,
    i: int,
    amount0_out: nat,
    amount1_out: nat,
    to: Address,
    now: u128,
)
    ensures
        match pool_minted(s, i, to, now) {
            Ok((t, _)) => same_pools(s.pairs, t.pairs),
            Err(_) => true,
        },
        match pool_burned(s, i, to, now) {
            Ok((t, _, _)) => same_pools(s.pairs, t.pairs),
            Err(_) => true,
        },
        match pool_swapped(s, i, amount0_out, amount1_out, to, now) {
            Ok(t) => same_pools(s.pairs, t.pairs),
            Err(_) => true,
        },
{
    reveal(pair_minted);
    reveal(pair_burned);
    reveal(pair_swapped);
}

/// The exchange.
#[derive(Debug)]
pub struct Exchange {
    pub bank: Bank,
    pub factory: Factory,
}

impl View for Exchange {
    type V = ExchangeState;

    open spec fn view(&self) -> ExchangeState {
        ExchangeState { bank: self.bank@, pairs: self.factory@ }
    }
}

impl Exchange {
    /// An exchange without pools, in which nobody holds anything.
    pub fn new() -> (r: Exchange)
        ensures
            r@ == (ExchangeState {
                bank: crate::bank::empty_bank(),
                pairs: Seq::<PairState>::empty(),
            }),
    {
        Exchange { bank: Bank::new(), factory: Factory::new() }
    }

    /// A second exchange in the same state.
    pub fn duplicate(&self) -> (r: Exchange)
        ensures
            r@ == self@,
    {
        Exchange { bank: self.bank.duplicate(), factory: self.factory.duplicate() }
    }

    /// The pool number `i` takes a deposit, as [`pool_minted`] says. Where
    /// it fails, part of the work may have been done: it is for use on a
    /// copy.
    pub(crate) fn mint_step(&mut self, i: usize, to: Address, now: u128) -> (r: Result<
        Amount,
        Error,
    >)
        ensures
            match pool_minted(old(self)@, i as int, to, now) {
                Ok((s, liquidity)) => r is Ok && r->Ok_0@ == liquidity && final(self)@ == s,
                Err(e) => r is Err && r->Err_0 == e,
            },
    {
        if i >= self.factory.pairs.len() {
            return Err(Error::PairNotFound);
        }
        let mut p = self.factory.pairs[i];
        proof {
            assert(self.factory@[i as int] == p@);
        }
        let r = p.mint_step(&mut self.bank, to, now);
        self.factory.pairs[i] = p;
        proof {
            assert(self.factory@ =~= old(self).factory@.update(i as int, p@));
        }
        r
    }

    /// The pool number `i` redeems its shares, as [`pool_burned`] says.
    /// Where it fails, part of the work may have been done: it is for use
    /// on a copy.
    pub(crate) fn burn_step(&mut self, i: usize, to: Address, now: u128) -> (r: Result<
        (Amount, Amount),
        Error,
    >)
        ensures
            match pool_burned(old(self)@, i as int, to, now) {
                Ok((s, amount0, amount1)) => r is Ok && r->Ok_0.0@ == amount0 && r->Ok_0.1@
                    == amount1 && final(self)@ == s,
                Err(e) => r is Err && r->Err_0 == e,
            },
    {
        if i >= self.factory.pairs.len() {
            return Err(Error::PairNotFound);
        }
        let mut p = self.factory.pairs[i];
        proof {
            assert(self.factory@[i as int] == p@);
        }
        let r = p.burn_step(&mut self.bank, to, now);
        self.factory.pairs[i] = p;
        proof {
            assert(self.factory@ =~= old(self).factory@.update(i as int, p@));
        }
        r
    }

    /// The pool number `i` settles a trade, as [`pool_swapped`] says. Where
    /// it fails, part of the work may have been done: it is for use on a
    /// copy.
    pub(crate) fn swap_step(
        &mut self,
        i: usize,
        amount0_out: Amount,
        amount1_out: Amount,
        to: Address,
        now: u128,
    ) -> (r: Result<(), Error>)
        ensures
            match pool_swapped(old(self)@, i as int, amount0_out@, amount1_out@, to, now) {
                Ok(s) => r is Ok && final(self)@ == s,
                Err(e) => r is Err && r->Err_0 == e,
            },
    {
        if i >= self.factory.pairs.len() {
            return Err(Error::PairNotFound);
        }
        let mut p = self.factory.pairs[i];
        proof {
            assert(self.factory@[i as int] == p@);
        }
        let r = p.swap_step(&mut self.bank, amount0_out, amount1_out, to, now);
        self.factory.pairs[i] = p;
        proof {
            assert(self.factory@ =~= old(self).factory@.update(i as int, p@));
        }
        r
    }

    /// The pool number `i` takes what it holds beyond its reserves as a
    /// deposit, and issues shares for it to `to`.
    pub fn mint(&mut self, i: usize, to: Address, now: u128) -> (r: Result<Amount, Error>)
        ensures
            match pool_minted(old(self)@, i as int, to, now) {
                Ok((s, liquidity)) => r is Ok && r->Ok_0@ == liquidity && final(self)@ == s,
                Err(e) => r is Err && r->Err_0 == e && *final(self) == *old(self),
            },
    {
        let mut work = self.duplicate();
        match work.mint_step(i, to, now) {
            Ok(liquidity) => {
                *self = work;
                Ok(liquidity)
            },
            Err(e) => Err(e),
        }
    }

    /// The pool number `i` redeems the shares that it holds, and pays
    /// their part of each token to `to`.
    pub fn burn(&mut self, i: usize, to: Address, now: u128) -> (r: Result<(Amount, Amount), Error>)
        ensures
            match pool_burned(old(self)@, i as int, to, now) {
                Ok((s, amount0, amount1)) => r is Ok && r->Ok_0.0@ == amount0 && r->Ok_0.1@
                    == amount1 && final(self)@ == s,
                Err(e) => r is Err && r->Err_0 == e && *final(self) == *old(self),
            },
    {
        let mut work = self.duplicate();
        match work.burn_step(i, to, now) {
            Ok(amounts) => {
                *self = work;
                Ok(amounts)
            },
            Err(e) => Err(e),
        }
    }

    /// The pool number `i` pays `amount0_out` and `amount1_out` to `to`,
    /// for what has come in since it last settled.
    pub fn swap(
        &mut self,
        i: usize,
        amount0_out: Amount,
        amount1_out: Amount,
        to: Address,
        now: u128,
    ) -> (r: Result<(), Error>)
        ensures
            match pool_swapped(old(self)@, i as int, amount0_out@, amount1_out@, to, now) {
                Ok(s) => r is Ok && final(self)@ == s,
                Err(e) => r is Err && r->Err_0 == e && *final(self) == *old(self),
            },
    {
        let mut work = self.duplicate();
        match work.swap_step(i, amount0_out, amount1_out, to, now) {
            Ok(_) => {
                *self = work;
                Ok(())
            },
            Err(e) => Err(e),
        }
    }
}

} // verus!
