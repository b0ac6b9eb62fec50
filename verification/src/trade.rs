//! Trading along a path of pools: what each swap call of the router does
//! to the exchange, stated as mathematics, and the steps that do it.
//!
//! What a trade pays out of one pool goes straight into the next: the
//! router holds nothing between two hops.

use crate::address::Address;
use crate::amount::Amount;
use crate::bank::{null, transferred, transferred_from, unwrapped, wrapped};
use crate::error::Error;
use crate::exchange::{pool_swapped, Exchange, ExchangeState};
use crate::factory::{lemma_same_pools_chain, pair_for, same_pools};
use crate::library::{
    amounts_in_outcome, amounts_out_outcome, get_amounts_in, get_amounts_out, values,
};
use crate::pair::PairState;
use crate::router::Router;
use vstd::prelude::*;

verus! {

/// Who receives what hop number `k` of a path pays out: the pool of the
/// next hop, or, after the last hop, `to`.
pub open spec fn recipient(pairs: Seq<PairState>, path: Seq<Address>, k: int, to: Address)
    -> Result<Address, Error> {
    if k < path.len() - 2 {
        match pair_for(pairs, path[k + 1], path[k + 2]) {
            Err(e) => Err(e),
            Ok(j) => Ok(pairs[j].address),
        }
    } else {
        Ok(to)
    }
}

/// Hop number `k` of a path: the pool of the tokens number `k` and `k + 1`
/// pays out the amount number `k + 1`, of the second of them.
#[verifier::opaque]
pub open spec fn hop(
    s: ExchangeState,
    path: Seq<Address>,
    amounts: Seq<nat>,
    k: int,
    to: Address,
    now: u128,
) -> Result<ExchangeState, Error> {
    match pair_for(s.pairs, path[k], path[k + 1]) {
        Err(e) => Err(e),
        Ok(i) => match recipient(s.pairs, path, k, to) {
            Err(e) => Err(e),
            Ok(receiver) => if path[k] == s.pairs[i].token0 {
                pool_swapped(s, i, 0, amounts[k + 1], receiver, now)
            } else {
                pool_swapped(s, i, amounts[k + 1], 0, receiver, now)
            },
        },
    }
}

/// The first `hops` hops of a path, one after the other.
#[verifier::opaque]
pub open spec fn swapped_along(
    s: ExchangeState,
    path: Seq<Address>,
    amounts: Seq<nat>,
    to: Address,
    now: u128,
    hops: nat,
) -> Result<ExchangeState, Error>
    decreases hops,
{
    if hops == 0 {
        Ok(s)
    } else {
        match swapped_along(s, path, amounts, to, now, (hops - 1) as nat) {
            Err(e) => Err(e),
            Ok(t) => hop(t, path, amounts, hops - 1, to, now),
        }
    }
}

/// A hop that fails makes every longer stretch of the path fail in the
/// same way.
pub proof fn lemma_swapped_along_fail(
    s: ExchangeState,
    path: Seq<Address>,
    amounts: Seq<nat>,
    to: Address,
    now: u128,
    failed: nat,
    hops: nat,
)
    requires
        failed <= hops,
        swapped_along(s, path, amounts, to, now, failed) is Err,
    ensures
        swapped_along(s, path, amounts, to, now, hops) == swapped_along(
            s,
            path,
            amounts,
            to,
            now,
            failed,
        ),
    decreases hops,
{
    reveal_with_fuel(swapped_along, 2);
    if failed < hops {
        lemma_swapped_along_fail(s, path, amounts, to, now, failed, (hops - 1) as nat);
    }
}

/// No hop leaves the exchange as it is.
pub proof fn lemma_swapped_along_none(
    s: ExchangeState,
    path: Seq<Address>,
    amounts: Seq<nat>,
    to: Address,
    now: u128,
)
    ensures
        swapped_along(s, path, amounts, to, now, 0) == Ok::<ExchangeState, Error>(s),
{
    reveal_with_fuel(swapped_along, 2);
}

/// One more hop is the hop itself, done on what the hops before it left.
pub proof fn lemma_swapped_along_next(
    s: ExchangeState,
    path: Seq<Address>,
    amounts: Seq<nat>,
    to: Address,
    now: u128,
    hops: nat,
)
    requires
        swapped_along(s, path, amounts, to, now, hops) is Ok,
    ensures
        swapped_along(s, path, amounts, to, now, hops + 1) == hop(
            swapped_along(s, path, amounts, to, now, hops)->Ok_0,
            path,
            amounts,
            hops as int,
            to,
            now,
        ),
{
    reveal_with_fuel(swapped_along, 2);
}

/// The hops of a path change reserves and the bank, and nothing else of
/// the register.
pub proof fn lemma_hops_keep_register(
    s: ExchangeState,
    path: Seq<Address>,
    amounts: Seq<nat>,
    to: Address,
    now: u128,
    hops: nat,
)
    ensures
        match swapped_along(s, path, amounts, to, now, hops) {
            Ok(t) => same_pools(s.pairs, t.pairs),
            Err(_) => true,
        },
    decreases hops,
{
    reveal_with_fuel(swapped_along, 2);
    reveal(hop);
    reveal(crate::pair::pair_swapped);
    if hops > 0 {
        lemma_hops_keep_register(s, path, amounts, to, now, (hops - 1) as nat);
        match swapped_along(s, path, amounts, to, now, (hops - 1) as nat) {
            Ok(mid) => match hop(mid, path, amounts, hops - 1, to, now) {
                Ok(t) => {
                    assert(same_pools(mid.pairs, t.pairs));
                    lemma_same_pools_chain(s.pairs, mid.pairs, t.pairs);
                },
                Err(_) => {},
            },
            Err(_) => {},
        }
    }
}

/// A trade paid for in a token: the first amount moves from the caller
/// into the first pool, on the allowance that the caller granted the
/// router, and the hops follow.
#[verifier::opaque]
pub open spec fn traded(
    s: ExchangeState,
    router: Router,
    caller: Address,
    path: Seq<Address>,
    amounts: Seq<nat>,
    to: Address,
    now: u128,
) -> Result<ExchangeState, Error> {
    match pair_for(s.pairs, path[0], path[1]) {
        Err(e) => Err(e),
        Ok(i) => match transferred_from(
            s.bank,
            path[0],
            router.address,
            caller,
            s.pairs[i].address,
            amounts[0],
        ) {
            Err(e) => Err(e),
            Ok(b) => swapped_along(
                ExchangeState { bank: b, pairs: s.pairs },
                path,
                amounts,
                to,
                now,
                (path.len() - 1) as nat,
            ),
        },
    }
}

/// A trade paid for in native coin: the caller's payment of `attached`
/// reaches the router, which wraps the first amount straight into the
/// first pool; the hops follow; and the router pays the rest back.
#[verifier::opaque]
pub open spec fn traded_for_coin(
    s: ExchangeState,
    router: Router,
    caller: Address,
    attached: nat,
    path: Seq<Address>,
    amounts: Seq<nat>,
    to: Address,
    now: u128,
) -> Result<ExchangeState, Error> {
    match transferred(s.bank, null(), caller, router.address, attached) {
        Err(e) => Err(e),
        Ok(b0) => match pair_for(s.pairs, path[0], path[1]) {
            Err(e) => Err(e),
            Ok(i) => match wrapped(b0, router.wcspr, router.address, s.pairs[i].address, amounts[0]) {
                Err(e) => Err(e),
                Ok(b1) => match swapped_along(
                    ExchangeState { bank: b1, pairs: s.pairs },
                    path,
                    amounts,
                    to,
                    now,
                    (path.len() - 1) as nat,
                ) {
                    Err(e) => Err(e),
                    Ok(s1) => match transferred(
                        s1.bank,
                        null(),
                        router.address,
                        caller,
                        (attached - amounts[0]) as nat,
                    ) {
                        Err(e) => Err(e),
                        Ok(b2) => Ok(ExchangeState { bank: b2, pairs: s1.pairs }),
                    },
                },
            },
        },
    }
}

/// A trade paid out in native coin: the last pool pays the router, which
/// unwraps what it received and passes the coin on to `to`.
#[verifier::opaque]
pub open spec fn traded_to_coin(
    s: ExchangeState,
    router: Router,
    caller: Address,
    path: Seq<Address>,
    amounts: Seq<nat>,
    to: Address,
    now: u128,
) -> Result<ExchangeState, Error> {
    match traded(s, router, caller, path, amounts, router.address, now) {
        Err(e) => Err(e),
        Ok(s1) => match unwrapped(s1.bank, router.wcspr, router.address, to, amounts.last()) {
            Err(e) => Err(e),
            Ok(b) => Ok(ExchangeState { bank: b, pairs: s1.pairs }),
        },
    }
}

/// A given input is traded along a path for as much as it buys, which
/// must not fall below `amount_out_min`. Gives the exchange and the
/// amounts along the path.
pub open spec fn swapped_exact_tokens_for_tokens(
    s: ExchangeState,
    router: Router,
    caller: Address,
    amount_in: nat,
    amount_out_min: nat,
    path: Seq<Address>,
    to: Address,
    deadline: u128,
    now: u128,
) -> Result<(ExchangeState, Seq<nat>), Error> {
    if deadline < now {
        Err(Error::Expired)
    } else {
        match amounts_out_outcome(s.pairs, amount_in, path) {
            Err(e) => Err(e),
            Ok(amounts) => if amounts.last() < amount_out_min {
                Err(Error::InsufficientOutputAmount)
            } else {
                match traded(s, router, caller, path, amounts, to, now) {
                    Err(e) => Err(e),
                    Ok(s1) => Ok((s1, amounts)),
                }
            },
        }
    }
}

/// A given output is bought along a path for as much as it costs, which
/// must not exceed `amount_in_max`. Gives the exchange and the amounts
/// along the path.
pub open spec fn swapped_tokens_for_exact_tokens(
    s: ExchangeState,
    router: Router,
    caller: Address,
    amount_out: nat,
    amount_in_max: nat,
    path: Seq<Address>,
    to: Address,
    deadline: u128,
    now: u128,
) -> Result<(ExchangeState, Seq<nat>), Error> {
    if deadline < now {
        Err(Error::Expired)
    } else {
        match amounts_in_outcome(s.pairs, amount_out, path) {
            Err(e) => Err(e),
            Ok(amounts) => if amounts[0] > amount_in_max {
                Err(Error::ExcessiveInputAmount)
            } else {
                match traded(s, router, caller, path, amounts, to, now) {
                    Err(e) => Err(e),
                    Ok(s1) => Ok((s1, amounts)),
                }
            },
        }
    }
}

/// A payment of native coin is traded, all of it, along a path that
/// starts at the wrapped coin.
pub open spec fn swapped_exact_cspr_for_tokens(
    s: ExchangeState,
    router: Router,
    caller: Address,
    amount_out_min: nat,
    amount_in: nat,
    path: Seq<Address>,
    to: Address,
    deadline: u128,
    now: u128,
) -> Result<(ExchangeState, Seq<nat>), Error> {
    if deadline < now {
        Err(Error::Expired)
    } else if path.len() < 2 || path[0] != router.wcspr {
        Err(Error::InvalidPath)
    } else {
        match amounts_out_outcome(s.pairs, amount_in, path) {
            Err(e) => Err(e),
            Ok(amounts) => if amounts.last() < amount_out_min {
                Err(Error::InsufficientOutputAmount)
            } else {
                match traded_for_coin(s, router, caller, amount_in, path, amounts, to, now) {
                    Err(e) => Err(e),
                    Ok(s1) => Ok((s1, amounts)),
                }
            },
        }
    }
}

/// A given amount of native coin is bought along a path that ends at the
/// wrapped coin.
pub open spec fn swapped_tokens_for_exact_cspr(
    s: ExchangeState,
    router: Router,
    caller: Address,
    amount_out: nat,
    amount_in_max: nat,
    path: Seq<Address>,
    to: Address,
    deadline: u128,
    now: u128,
) -> Result<(ExchangeState, Seq<nat>), Error> {
    if deadline < now {
        Err(Error::Expired)
    } else if path.len() < 2 || path.last() != router.wcspr {
        Err(Error::InvalidPath)
    } else {
        match amounts_in_outcome(s.pairs, amount_out, path) {
            Err(e) => Err(e),
            Ok(amounts) => if amounts[0] > amount_in_max {
                Err(Error::ExcessiveInputAmount)
            } else {
                match traded_to_coin(s, router, caller, path, amounts, to, now) {
                    Err(e) => Err(e),
                    Ok(s1) => Ok((s1, amounts)),
                }
            },
        }
    }
}

/// A given input is traded for native coin along a path that ends at the
/// wrapped coin.
pub open spec fn swapped_exact_tokens_for_cspr(
    s: ExchangeState,
    router: Router,
    caller: Address,
    amount_in: nat,
    amount_out_min: nat,
    path: Seq<Address>,
    to: Address,
    deadline: u128,
    now: u128,
) -> Result<(ExchangeState, Seq<nat>), Error> {
    if deadline < now {
        Err(Error::Expired)
    } else if path.len() < 2 || path.last() != router.wcspr {
        Err(Error::InvalidPath)
    } else {
        match amounts_out_outcome(s.pairs, amount_in, path) {
            Err(e) => Err(e),
            Ok(amounts) => if amounts.last() < amount_out_min {
                Err(Error::InsufficientOutputAmount)
            } else {
                match traded_to_coin(s, router, caller, path, amounts, to, now) {
                    Err(e) => Err(e),
                    Ok(s1) => Ok((s1, amounts)),
                }
            },
        }
    }
}

/// A given output is bought with native coin along a path that starts at
/// the wrapped coin; what the payment exceeds the cost by is paid back.
pub open spec fn swapped_cspr_for_exact_tokens(
    s: ExchangeState,
    router: Router,
    caller: Address,
    amount_out: nat,
    amount_in_max: nat,
    path: Seq<Address>,
    to: Address,
    deadline: u128,
    now: u128,
) -> Result<(ExchangeState, Seq<nat>), Error> {
    if deadline < now {
        Err(Error::Expired)
    } else if path.len() < 2 || path[0] != router.wcspr {
        Err(Error::InvalidPath)
    } else {
        match amounts_in_outcome(s.pairs, amount_out, path) {
            Err(e) => Err(e),
            Ok(amounts) => if amounts[0] > amount_in_max {
                Err(Error::ExcessiveInputAmount)
            } else {
                match traded_for_coin(s, router, caller, amount_in_max, path, amounts, to, now) {
                    Err(e) => Err(e),
                    Ok(s1) => Ok((s1, amounts)),
                }
            },
        }
    }
}

/// A trade through the router changes reserves and the bank, and nothing
/// else of the register.
pub proof fn lemma_trades_keep_register(
    s: ExchangeState,
    router: Router,
    caller: Address,
    x: nat,
    y: nat,
    path: Seq<Address>,
    to: Address,
    deadline: u128,
    now: u128,
)
    ensures
        match swapped_exact_tokens_for_tokens(s, router, caller, x, y, path, to, deadline, now) {
            Ok((t, _)) => same_pools(s.pairs, t.pairs),
            Err(_) => true,
        },
        match swapped_tokens_for_exact_tokens(s, router, caller, x, y, path, to, deadline, now) {
            Ok((t, _)) => same_pools(s.pairs, t.pairs),
            Err(_) => true,
        },
        match swapped_exact_cspr_for_tokens(s, router, caller, x, y, path, to, deadline, now) {
            Ok((t, _)) => same_pools(s.pairs, t.pairs),
            Err(_) => true,
        },
        match swapped_tokens_for_exact_cspr(s, router, caller, x, y, path, to, deadline, now) {
            Ok((t, _)) => same_pools(s.pairs, t.pairs),
            Err(_) => true,
        },
        match swapped_exact_tokens_for_cspr(s, router, caller, x, y, path, to, deadline, now) {
            Ok((t, _)) => same_pools(s.pairs, t.pairs),
            Err(_) => true,
        },
        match swapped_cspr_for_exact_tokens(s, router, caller, x, y, path, to, deadline, now) {
            Ok((t, _)) => same_pools(s.pairs, t.pairs),
            Err(_) => true,
        },
{
    reveal(traded);
    reveal(traded_for_coin);
    reveal(traded_to_coin);
    assert forall|t: ExchangeState, amounts: Seq<nat>, receiver: Address|
        match #[trigger] swapped_along(t, path, amounts, receiver, now, (path.len() - 1) as nat) {
            Ok(u) => same_pools(t.pairs, u.pairs),
            Err(_) => true,
        } by {
        lemma_hops_keep_register(t, path, amounts, receiver, now, (path.len() - 1) as nat);
    }
}

/// Whether a swap step returned the amounts of the stated outcome and
/// left the exchange in its state, or returned its error.
pub open spec fn swap_advances(
    after: Exchange,
    r: Result<Vec<Amount>, Error>,
    o: Result<(ExchangeState, Seq<nat>), Error>,
) -> bool {
    match o {
        Ok((s, amounts)) => r is Ok && values(r->Ok_0@) == amounts && after@ == s,
        Err(e) => r is Err && r->Err_0 == e,
    }
}

impl Exchange {
    /// Does hop number `k` of a path, as [`hop`] says.
    pub(crate) fn hop_step(
        &mut self,
        path: &Vec<Address>,
        amounts: &Vec<Amount>,
        k: usize,
        to: Address,
        now: u128,
    ) -> (r: Result<(), Error>)
        requires
            k + 1 < path@.len(),
            amounts@.len() == path@.len(),
        ensures
            match hop(old(self)@, path@, values(amounts@), k as int, to, now) {
                Ok(s) => r is Ok && final(self)@ == s,
                Err(e) => r is Err && r->Err_0 == e,
            },
    {
        reveal(hop);
        let n = path.len();
        let i = match self.factory.pair_for(path[k], path[k + 1]) {
            Ok(i) => i,
            Err(e) => { return Err(e); },
        };
        let p = self.factory.pairs[i];
        proof {
            assert(self.factory@[i as int] == p@);
        }
        let receiver = if k + 2 < n {
            match self.factory.pair_for(path[k + 1], path[k + 2]) {
                Ok(j) => {
                    proof {
                        assert(self.factory@[j as int] == self.factory.pairs@[j as int]@);
                    }
                    self.factory.pairs[j].address
                },
                Err(e) => { return Err(e); },
            }
        } else {
            to
        };
        let out = amounts[k + 1];
        if path[k].same(&p.token0) {
            self.swap_step(i, Amount::zero(), out, receiver, now)
        } else {
            self.swap_step(i, out, Amount::zero(), receiver, now)
        }
    }

    /// Does all the hops of a path, as [`swapped_along`] says.
    pub(crate) fn swap_along_step(
        &mut self,
        path: &Vec<Address>,
        amounts: &Vec<Amount>,
        to: Address,
        now: u128,
    ) -> (r: Result<(), Error>)
        requires
            path@.len() >= 2,
            amounts@.len() == path@.len(),
        ensures
            match swapped_along(
                old(self)@,
                path@,
                values(amounts@),
                to,
                now,
                (path@.len() - 1) as nat,
            ) {
                Ok(s) => r is Ok && final(self)@ == s,
                Err(e) => r is Err && r->Err_0 == e,
            },
    {
        let ghost start = self@;
        let n = path.len();
        let mut k: usize = 0;
        proof {
            lemma_swapped_along_none(start, path@, values(amounts@), to, now);
        }
        while k < n - 1
            invariant
                n == path@.len(),
                n >= 2,
                amounts@.len() == n,
                k <= n - 1,
                start == old(self)@,
                swapped_along(start, path@, values(amounts@), to, now, k as nat) == Ok::<
                    ExchangeState,
                    Error,
                >(self@),
            decreases n - k,
        {
            proof {
                lemma_swapped_along_next(start, path@, values(amounts@), to, now, k as nat);
            }
            match self.hop_step(path, amounts, k, to, now) {
                Ok(_) => {},
                Err(e) => {
                    proof {
                        lemma_swapped_along_fail(
                            start,
                            path@,
                            values(amounts@),
                            to,
                            now,
                            (k + 1) as nat,
                            (n - 1) as nat,
                        );
                    }
                    return Err(e);
                },
            }
            k = k + 1;
        }
        Ok(())
    }

    /// Pays for a trade in a token and does the hops, as [`traded`] says.
    pub(crate) fn trade_step(
        &mut self,
        router: Router,
        caller: Address,
        path: &Vec<Address>,
        amounts: &Vec<Amount>,
        to: Address,
        now: u128,
    ) -> (r: Result<(), Error>)
        requires
            path@.len() >= 2,
            amounts@.len() == path@.len(),
        ensures
            match traded(old(self)@, router, caller, path@, values(amounts@), to, now) {
                Ok(s) => r is Ok && final(self)@ == s,
                Err(e) => r is Err && r->Err_0 == e,
            },
    {
        reveal(traded);
        let i = match self.factory.pair_for(path[0], path[1]) {
            Ok(i) => i,
            Err(e) => { return Err(e); },
        };
        let pool = self.factory.pairs[i].address;
        proof {
            assert(self.factory@[i as int] == self.factory.pairs@[i as int]@);
        }
        match self.bank.transfer_from(path[0], router.address, caller, pool, amounts[0]) {
            Ok(_) => {},
            Err(e) => { return Err(e); },
        }
        self.swap_along_step(path, amounts, to, now)
    }

    /// Pays for a trade in native coin and does the hops, as
    /// [`traded_for_coin`] says.
    pub(crate) fn trade_for_coin_step(
        &mut self,
        router: Router,
        caller: Address,
        attached: Amount,
        path: &Vec<Address>,
        amounts: &Vec<Amount>,
        to: Address,
        now: u128,
    ) -> (r: Result<(), Error>)
        requires
            path@.len() >= 2,
            amounts@.len() == path@.len(),
            amounts@[0]@ <= attached@,
        ensures
            match traded_for_coin(
                old(self)@,
                router,
                caller,
                attached@,
                path@,
                values(amounts@),
                to,
                now,
            ) {
                Ok(s) => r is Ok && final(self)@ == s,
                Err(e) => r is Err && r->Err_0 == e,
            },
    {
        reveal(traded_for_coin);
        match self.bank.transfer(Address::zero(), caller, router.address, attached) {
            Ok(_) => {},
            Err(e) => { return Err(e); },
        }
        let i = match self.factory.pair_for(path[0], path[1]) {
            Ok(i) => i,
            Err(e) => { return Err(e); },
        };
        let pool = self.factory.pairs[i].address;
        proof {
            assert(self.factory@[i as int] == self.factory.pairs@[i as int]@);
        }
        match self.bank.wrap_step(router.wcspr, router.address, pool, amounts[0]) {
            Ok(_) => {},
            Err(e) => { return Err(e); },
        }
        match self.swap_along_step(path, amounts, to, now) {
            Ok(_) => {},
            Err(e) => { return Err(e); },
        }
        let rest = match attached.checked_sub(amounts[0]) {
            Some(x) => x,
            None => Amount::zero(),
        };
        self.bank.transfer(Address::zero(), router.address, caller, rest)
    }

    /// Pays for a trade in a token, does the hops and pays out native
    /// coin, as [`traded_to_coin`] says.
    pub(crate) fn trade_to_coin_step(
        &mut self,
        router: Router,
        caller: Address,
        path: &Vec<Address>,
        amounts: &Vec<Amount>,
        to: Address,
        now: u128,
    ) -> (r: Result<(), Error>)
        requires
            path@.len() >= 2,
            amounts@.len() == path@.len(),
        ensures
            match traded_to_coin(old(self)@, router, caller, path@, values(amounts@), to, now) {
                Ok(s) => r is Ok && final(self)@ == s,
                Err(e) => r is Err && r->Err_0 == e,
            },
    {
        reveal(traded_to_coin);
        match self.trade_step(router, caller, path, amounts, router.address, now) {
            Ok(_) => {},
            Err(e) => { return Err(e); },
        }
        let last = amounts[amounts.len() - 1];
        self.bank.unwrap_step(router.wcspr, router.address, to, last)
    }

    /// Trades a given input, as [`swapped_exact_tokens_for_tokens`] says.
    pub(crate) fn swap_exact_tokens_for_tokens_step(
        &mut self,
        router: Router,
        caller: Address,
        amount_in: Amount,
        amount_out_min: Amount,
        path: &Vec<Address>,
        to: Address,
        deadline: u128,
        now: u128,
    ) -> (r: Result<Vec<Amount>, Error>)
        ensures
            swap_advances(
                *final(self),
                r,
                swapped_exact_tokens_for_tokens(
                    old(self)@,
                    router,
                    caller,
                    amount_in@,
                    amount_out_min@,
                    path@,
                    to,
                    deadline,
                    now,
                ),
            ),
    {
        if deadline < now {
            return Err(Error::Expired);
        }
        let amounts = match get_amounts_out(&self.factory, amount_in, path) {
            Ok(x) => x,
            Err(e) => { return Err(e); },
        };
        if amounts[amounts.len() - 1].lt(&amount_out_min) {
            return Err(Error::InsufficientOutputAmount);
        }
        match self.trade_step(router, caller, path, &amounts, to, now) {
            Ok(_) => Ok(amounts),
            Err(e) => Err(e),
        }
    }

    /// Buys a given output, as [`swapped_tokens_for_exact_tokens`] says.
    pub(crate) fn swap_tokens_for_exact_tokens_step(
        &mut self,
        router: Router,
        caller: Address,
        amount_out: Amount,
        amount_in_max: Amount,
        path: &Vec<Address>,
        to: Address,
        deadline: u128,
        now: u128,
    ) -> (r: Result<Vec<Amount>, Error>)
        ensures
            swap_advances(
                *final(self),
                r,
                swapped_tokens_for_exact_tokens(
                    old(self)@,
                    router,
                    caller,
                    amount_out@,
                    amount_in_max@,
                    path@,
                    to,
                    deadline,
                    now,
                ),
            ),
    {
        if deadline < now {
            return Err(Error::Expired);
        }
        let amounts = match get_amounts_in(&self.factory, amount_out, path) {
            Ok(x) => x,
            Err(e) => { return Err(e); },
        };
        if amount_in_max.lt(&amounts[0]) {
            return Err(Error::ExcessiveInputAmount);
        }
        match self.trade_step(router, caller, path, &amounts, to, now) {
            Ok(_) => Ok(amounts),
            Err(e) => Err(e),
        }
    }

    /// Trades a payment of native coin, as
    /// [`swapped_exact_cspr_for_tokens`] says.
    pub(crate) fn swap_exact_cspr_for_tokens_step(
        &mut self,
        router: Router,
        caller: Address,
        amount_out_min: Amount,
        amount_in: Amount,
        path: &Vec<Address>,
        to: Address,
        deadline: u128,
        now: u128,
    ) -> (r: Result<Vec<Amount>, Error>)
        ensures
            swap_advances(
                *final(self),
                r,
                swapped_exact_cspr_for_tokens(
                    old(self)@,
                    router,
                    caller,
                    amount_out_min@,
                    amount_in@,
                    path@,
                    to,
                    deadline,
                    now,
                ),
            ),
    {
        if deadline < now {
            return Err(Error::Expired);
        }
        if path.len() < 2 || !path[0].same(&router.wcspr) {
            return Err(Error::InvalidPath);
        }
        let amounts = match get_amounts_out(&self.factory, amount_in, path) {
            Ok(x) => x,
            Err(e) => { return Err(e); },
        };
        proof {
            crate::library::lemma_amounts_out_len(
                self.factory@,
                amount_in@,
                path@,
                (path@.len() - 1) as nat,
            );
        }
        if amounts[amounts.len() - 1].lt(&amount_out_min) {
            return Err(Error::InsufficientOutputAmount);
        }
        match self.trade_for_coin_step(router, caller, amount_in, path, &amounts, to, now) {
            Ok(_) => Ok(amounts),
            Err(e) => Err(e),
        }
    }

    /// Buys a given amount of native coin, as
    /// [`swapped_tokens_for_exact_cspr`] says.
    pub(crate) fn swap_tokens_for_exact_cspr_step(
        &mut self,
        router: Router,
        caller: Address,
        amount_out: Amount,
        amount_in_max: Amount,
        path: &Vec<Address>,
        to: Address,
        deadline: u128,
        now: u128,
    ) -> (r: Result<Vec<Amount>, Error>)
        ensures
            swap_advances(
                *final(self),
                r,
                swapped_tokens_for_exact_cspr(
                    old(self)@,
                    router,
                    caller,
                    amount_out@,
                    amount_in_max@,
                    path@,
                    to,
                    deadline,
                    now,
                ),
            ),
    {
        if deadline < now {
            return Err(Error::Expired);
        }
        if path.len() < 2 || !path[path.len() - 1].same(&router.wcspr) {
            return Err(Error::InvalidPath);
        }
        let amounts = match get_amounts_in(&self.factory, amount_out, path) {
            Ok(x) => x,
            Err(e) => { return Err(e); },
        };
        if amount_in_max.lt(&amounts[0]) {
            return Err(Error::ExcessiveInputAmount);
        }
        match self.trade_to_coin_step(router, caller, path, &amounts, to, now) {
            Ok(_) => Ok(amounts),
            Err(e) => Err(e),
        }
    }

    /// Trades a given input for native coin, as
    /// [`swapped_exact_tokens_for_cspr`] says.
    pub(crate) fn swap_exact_tokens_for_cspr_step(
        &mut self,
        router: Router,
        caller: Address,
        amount_in: Amount,
        amount_out_min: Amount,
        path: &Vec<Address>,
        to: Address,
        deadline: u128,
        now: u128,
    ) -> (r: Result<Vec<Amount>, Error>)
        ensures
            swap_advances(
                *final(self),
                r,
                swapped_exact_tokens_for_cspr(
                    old(self)@,
                    router,
                    caller,
                    amount_in@,
                    amount_out_min@,
                    path@,
                    to,
                    deadline,
                    now,
                ),
            ),
    {
        if deadline < now {
            return Err(Error::Expired);
        }
        if path.len() < 2 || !path[path.len() - 1].same(&router.wcspr) {
            return Err(Error::InvalidPath);
        }
        let amounts = match get_amounts_out(&self.factory, amount_in, path) {
            Ok(x) => x,
            Err(e) => { return Err(e); },
        };
        if amounts[amounts.len() - 1].lt(&amount_out_min) {
            return Err(Error::InsufficientOutputAmount);
        }
        match self.trade_to_coin_step(router, caller, path, &amounts, to, now) {
            Ok(_) => Ok(amounts),
            Err(e) => Err(e),
        }
    }

    /// Buys a given output with native coin, as
    /// [`swapped_cspr_for_exact_tokens`] says.
    pub(crate) fn swap_cspr_for_exact_tokens_step(
        &mut self,
        router: Router,
        caller: Address,
        amount_out: Amount,
        amount_in_max: Amount,
        path: &Vec<Address>,
        to: Address,
        deadline: u128,
        now: u128,
    ) -> (r: Result<Vec<Amount>, Error>)
        ensures
            swap_advances(
                *final(self),
                r,
                swapped_cspr_for_exact_tokens(
                    old(self)@,
                    router,
                    caller,
                    amount_out@,
                    amount_in_max@,
                    path@,
                    to,
                    deadline,
                    now,
                ),
            ),
    {
        if deadline < now {
            return Err(Error::Expired);
        }
        if path.len() < 2 || !path[0].same(&router.wcspr) {
            return Err(Error::InvalidPath);
        }
        let amounts = match get_amounts_in(&self.factory, amount_out, path) {
            Ok(x) => x,
            Err(e) => { return Err(e); },
        };
        if amount_in_max.lt(&amounts[0]) {
            return Err(Error::ExcessiveInputAmount);
        }
        match self.trade_for_coin_step(router, caller, amount_in_max, path, &amounts, to, now) {
            Ok(_) => Ok(amounts),
            Err(e) => Err(e),
        }
    }
}

} // verus!
