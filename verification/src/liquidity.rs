//! Adding and removing liquidity: what each call of the router does to the
//! exchange, stated as mathematics, and the steps that do it.

use crate::address::Address;
use crate::amount::Amount;
use crate::bank::{
    null, permitted, transferred, transferred_from, unwrapped, wrapped, BankState, Permit,
};
use crate::error::Error;
use crate::exchange::{Exchange, ExchangeState};
use crate::factory::{
    lemma_created_in_order, lemma_pair_for_found, lemma_same_pools_in_order, pair_created, pair_for, register_wf,
    same_pools,
};
use crate::library::{
    lemma_floor_times_divisor, lemma_quotient_bounds, quote, quote_outcome, reserves_for,
};
use crate::pair::{
    amounts_burned, liquidity_minted, minimum_liquidity, pair_burned, pair_minted, PairState,
};
use crate::router::Router;
use vstd::prelude::*;

verus! {

/// Two quantities of a pool, that of `token_a` first.
pub open spec fn oriented(p: PairState, token_a: Address, x0: nat, x1: nat) -> (nat, nat) {
    if token_a == p.token0 {
        (x0, x1)
    } else {
        (x1, x0)
    }
}

/// The amounts that a deposit takes. An empty pool takes what is offered.
/// Otherwise the deposit keeps the pool's ratio: all of the first token
/// that is offered with as much of the second as that is worth, or, where
/// that is more than is offered, all of the second with as much of the
/// first as that is worth. What is scaled down must not fall below its
/// minimum.
pub open spec fn liquidity_amounts(
    reserve_a: nat,
    reserve_b: nat,
    amount_a_desired: nat,
    amount_b_desired: nat,
    amount_a_min: nat,
    amount_b_min: nat,
) -> Result<(nat, nat), Error> {
    if reserve_a == 0 && reserve_b == 0 {
        Ok((amount_a_desired, amount_b_desired))
    } else {
        match quote_outcome(amount_a_desired, reserve_a, reserve_b) {
            Err(e) => Err(e),
            Ok(amount_b_optimal) => if amount_b_optimal <= amount_b_desired {
                if amount_b_optimal < amount_b_min {
                    Err(Error::InsufficientBAmount)
                } else {
                    Ok((amount_a_desired, amount_b_optimal))
                }
            } else {
                match quote_outcome(amount_b_desired, reserve_b, reserve_a) {
                    Err(e) => Err(e),
                    Ok(amount_a_optimal) => if amount_a_optimal < amount_a_min {
                        Err(Error::InsufficientAAmount)
                    } else {
                        Ok((amount_a_optimal, amount_b_desired))
                    },
                }
            },
        }
    }
}

/// The pool of two tokens is found or made, and the amounts of a deposit
/// are set against its reserves. Gives the register, the pool's number and
/// the two amounts.
#[verifier::opaque]
pub open spec fn liquidity_planned(
    pairs: Seq<PairState>,
    token_a: Address,
    token_b: Address,
    amount_a_desired: nat,
    amount_b_desired: nat,
    amount_a_min: nat,
    amount_b_min: nat,
) -> Result<(Seq<PairState>, int, nat, nat), Error> {
    match pair_created(pairs, token_a, token_b) {
        Err(e) => Err(e),
        Ok((made, i)) => {
            let (reserve_a, reserve_b) = oriented(
                made[i],
                token_a,
                made[i].reserve0,
                made[i].reserve1,
            );
            match liquidity_amounts(
                reserve_a,
                reserve_b,
                amount_a_desired,
                amount_b_desired,
                amount_a_min,
                amount_b_min,
            ) {
                Err(e) => Err(e),
                Ok((amount_a, amount_b)) => Ok((made, i, amount_a, amount_b)),
            }
        },
    }
}

/// Liquidity is added: the amounts move from the caller into the pool, on
/// the allowances that the caller granted the router, and the pool issues
/// shares to `to`. Gives the exchange, the two amounts and the shares.
pub open spec fn liquidity_added(
    s: ExchangeState,
    router: Router,
    caller: Address,
    token_a: Address,
    token_b: Address,
    amount_a_desired: nat,
    amount_b_desired: nat,
    amount_a_min: nat,
    amount_b_min: nat,
    to: Address,
    deadline: u128,
    now: u128,
) -> Result<(ExchangeState, nat, nat, nat), Error> {
    if deadline < now {
        Err(Error::Expired)
    } else {
        match liquidity_planned(
            s.pairs,
            token_a,
            token_b,
            amount_a_desired,
            amount_b_desired,
            amount_a_min,
            amount_b_min,
        ) {
            Err(e) => Err(e),
            Ok((made, i, amount_a, amount_b)) => match transferred_from(
                s.bank,
                token_a,
                router.address,
                caller,
                made[i].address,
                amount_a,
            ) {
                Err(e) => Err(e),
                Ok(b1) => match transferred_from(
                    b1,
                    token_b,
                    router.address,
                    caller,
                    made[i].address,
                    amount_b,
                ) {
                    Err(e) => Err(e),
                    Ok(b2) => match pair_minted(made[i], b2, to, now) {
                        Err(e) => Err(e),
                        Ok((p, b3, liquidity)) => Ok(
                            (
                                ExchangeState { bank: b3, pairs: made.update(i, p) },
                                amount_a,
                                amount_b,
                                liquidity,
                            ),
                        ),
                    },
                },
            },
        }
    }
}

/// Liquidity is added with native coin for one side: the caller's payment
/// of `amount_cspr_desired` reaches the router, which wraps as much of it
/// as the deposit takes, straight into the pool, and pays the rest back.
/// Gives the exchange, the amount of the token, the amount of coin and the
/// shares.
pub open spec fn liquidity_added_cspr(
    s: ExchangeState,
    router: Router,
    caller: Address,
    token: Address,
    amount_token_desired: nat,
    amount_cspr_desired: nat,
    amount_token_min: nat,
    amount_cspr_min: nat,
    to: Address,
    deadline: u128,
    now: u128,
) -> Result<(ExchangeState, nat, nat, nat), Error> {
    if deadline < now {
        Err(Error::Expired)
    } else {
        match transferred(s.bank, null(), caller, router.address, amount_cspr_desired) {
            Err(e) => Err(e),
            Ok(b0) => match liquidity_planned(
                s.pairs,
                token,
                router.wcspr,
                amount_token_desired,
                amount_cspr_desired,
                amount_token_min,
                amount_cspr_min,
            ) {
                Err(e) => Err(e),
                Ok((made, i, amount_token, amount_cspr)) => match transferred_from(
                    b0,
                    token,
                    router.address,
                    caller,
                    made[i].address,
                    amount_token,
                ) {
                    Err(e) => Err(e),
                    Ok(b1) => match wrapped(
                        b1,
                        router.wcspr,
                        router.address,
                        made[i].address,
                        amount_cspr,
                    ) {
                        Err(e) => Err(e),
                        Ok(b2) => match pair_minted(made[i], b2, to, now) {
                            Err(e) => Err(e),
                            Ok((p, b3, liquidity)) => match transferred(
                                b3,
                                null(),
                                router.address,
                                caller,
                                (amount_cspr_desired - amount_cspr) as nat,
                            ) {
                                Err(e) => Err(e),
                                Ok(b4) => Ok(
                                    (
                                        ExchangeState { bank: b4, pairs: made.update(i, p) },
                                        amount_token,
                                        amount_cspr,
                                        liquidity,
                                    ),
                                ),
                            },
                        },
                    },
                },
            },
        }
    }
}

/// Liquidity is removed: the caller's shares move into the pool, on the
/// allowance that the caller granted the router; the pool redeems them and
/// pays `to`; and what it paid must not fall below the minimums. Gives the
/// exchange and the two amounts, that of `token_a` first.
pub open spec fn liquidity_removed(
    s: ExchangeState,
    router: Router,
    caller: Address,
    token_a: Address,
    token_b: Address,
    liquidity: nat,
    amount_a_min: nat,
    amount_b_min: nat,
    to: Address,
    deadline: u128,
    now: u128,
) -> Result<(ExchangeState, nat, nat), Error> {
    if deadline < now {
        Err(Error::Expired)
    } else {
        match pair_for(s.pairs, token_a, token_b) {
            Err(e) => Err(e),
            Ok(i) => match transferred_from(
                s.bank,
                s.pairs[i].address,
                router.address,
                caller,
                s.pairs[i].address,
                liquidity,
            ) {
                Err(e) => Err(e),
                Ok(b1) => match pair_burned(s.pairs[i], b1, to, now) {
                    Err(e) => Err(e),
                    Ok((p, b2, amount0, amount1)) => {
                        let (amount_a, amount_b) = oriented(s.pairs[i], token_a, amount0, amount1);
                        if amount_a < amount_a_min {
                            Err(Error::InsufficientAAmount)
                        } else if amount_b < amount_b_min {
                            Err(Error::InsufficientBAmount)
                        } else {
                            Ok(
                                (
                                    ExchangeState { bank: b2, pairs: s.pairs.update(i, p) },
                                    amount_a,
                                    amount_b,
                                ),
                            )
                        }
                    },
                },
            },
        }
    }
}

/// Liquidity is removed from a pool with the wrapped coin for one side:
/// the pool pays the router, which passes the token on to `to`, unwraps
/// the coin and passes that on too. Gives the exchange, the amount of the
/// token and the amount of coin.
pub open spec fn liquidity_removed_cspr(
    s: ExchangeState,
    router: Router,
    caller: Address,
    token: Address,
    liquidity: nat,
    amount_token_min: nat,
    amount_cspr_min: nat,
    to: Address,
    deadline: u128,
    now: u128,
) -> Result<(ExchangeState, nat, nat), Error> {
    match liquidity_removed(
        s,
        router,
        caller,
        token,
        router.wcspr,
        liquidity,
        amount_token_min,
        amount_cspr_min,
        router.address,
        deadline,
        now,
    ) {
        Err(e) => Err(e),
        Ok((s1, amount_token, amount_cspr)) => match transferred(
            s1.bank,
            token,
            router.address,
            to,
            amount_token,
        ) {
            Err(e) => Err(e),
            Ok(b1) => match unwrapped(b1, router.wcspr, router.address, to, amount_cspr) {
                Err(e) => Err(e),
                Ok(b2) => Ok((ExchangeState { bank: b2, pairs: s1.pairs }, amount_token, amount_cspr)),
            },
        },
    }
}

/// The largest amount: as an allowance it stands for no limit.
pub open spec fn unlimited() -> Amount {
    Amount {
        w0: 0xffff_ffff_ffff_ffff,
        w1: 0xffff_ffff_ffff_ffff,
        w2: 0xffff_ffff_ffff_ffff,
        w3: 0xffff_ffff_ffff_ffff,
    }
}

/// The authorisation that comes with a call to remove liquidity: by the
/// caller, to the router, over the pool's shares, for the shares to be
/// removed or without limit.
pub open spec fn permit_for(
    router: Router,
    caller: Address,
    shares: Address,
    liquidity: Amount,
    deadline: u128,
    approve_max: bool,
    nonce: Amount,
    signer: Address,
) -> Permit {
    Permit {
        token: shares,
        owner: caller,
        spender: router.address,
        value: if approve_max {
            unlimited()
        } else {
            liquidity
        },
        deadline,
        nonce,
        signer,
    }
}

/// The bank takes the authorisation that comes with a call to remove
/// liquidity from the pool of two tokens. Gives the exchange.
#[verifier::opaque]
pub open spec fn removal_permitted(
    s: ExchangeState,
    router: Router,
    caller: Address,
    token_a: Address,
    token_b: Address,
    liquidity: Amount,
    deadline: u128,
    approve_max: bool,
    nonce: Amount,
    signer: Address,
    now: u128,
) -> Result<ExchangeState, Error> {
    if deadline < now {
        Err(Error::Expired)
    } else {
        match pair_for(s.pairs, token_a, token_b) {
            Err(e) => Err(e),
            Ok(i) => match permitted(
                s.bank,
                permit_for(
                    router,
                    caller,
                    s.pairs[i].address,
                    liquidity,
                    deadline,
                    approve_max,
                    nonce,
                    signer,
                ),
                now,
            ) {
                Err(e) => Err(e),
                Ok(b) => Ok(ExchangeState { bank: b, pairs: s.pairs }),
            },
        }
    }
}

/// Liquidity is removed on a signed authorisation in place of an
/// allowance granted beforehand.
pub open spec fn liquidity_removed_with_permit(
    s: ExchangeState,
    router: Router,
    caller: Address,
    token_a: Address,
    token_b: Address,
    liquidity: Amount,
    amount_a_min: nat,
    amount_b_min: nat,
    to: Address,
    deadline: u128,
    approve_max: bool,
    nonce: Amount,
    signer: Address,
    now: u128,
) -> Result<(ExchangeState, nat, nat), Error> {
    match removal_permitted(
        s,
        router,
        caller,
        token_a,
        token_b,
        liquidity,
        deadline,
        approve_max,
        nonce,
        signer,
        now,
    ) {
        Err(e) => Err(e),
        Ok(s1) => liquidity_removed(
            s1,
            router,
            caller,
            token_a,
            token_b,
            liquidity@,
            amount_a_min,
            amount_b_min,
            to,
            deadline,
            now,
        ),
    }
}

/// Liquidity is removed from a pool with the wrapped coin for one side, on
/// a signed authorisation in place of an allowance granted beforehand.
pub open spec fn liquidity_removed_cspr_with_permit(
    s: ExchangeState,
    router: Router,
    caller: Address,
    token: Address,
    liquidity: Amount,
    amount_token_min: nat,
    amount_cspr_min: nat,
    to: Address,
    deadline: u128,
    approve_max: bool,
    nonce: Amount,
    signer: Address,
    now: u128,
) -> Result<(ExchangeState, nat, nat), Error> {
    match removal_permitted(
        s,
        router,
        caller,
        token,
        router.wcspr,
        liquidity,
        deadline,
        approve_max,
        nonce,
        signer,
        now,
    ) {
        Err(e) => Err(e),
        Ok(s1) => liquidity_removed_cspr(
            s1,
            router,
            caller,
            token,
            liquidity@,
            amount_token_min,
            amount_cspr_min,
            to,
            deadline,
            now,
        ),
    }
}

/// All the shares of a pool once a deposit has earned `liquidity`: those
/// that there were, those that the deposit earned and, after the first
/// deposit, those that it locked.
pub open spec fn supply_after(supply: nat, liquidity: nat) -> nat {
    if supply == 0 {
        minimum_liquidity() + liquidity
    } else {
        supply + liquidity
    }
}

/// A deposit never takes more than is offered.
pub proof fn lemma_liquidity_within_offer(
    reserve_a: nat,
    reserve_b: nat,
    amount_a_desired: nat,
    amount_b_desired: nat,
    amount_a_min: nat,
    amount_b_min: nat,
)
    ensures
        match liquidity_amounts(
            reserve_a,
            reserve_b,
            amount_a_desired,
            amount_b_desired,
            amount_a_min,
            amount_b_min,
        ) {
            Ok((a, b)) => a <= amount_a_desired && b <= amount_b_desired,
            Err(_) => true,
        },
{
    if !(reserve_a == 0 && reserve_b == 0) {
        match quote_outcome(amount_a_desired, reserve_a, reserve_b) {
            Ok(amount_b_optimal) => {
                if amount_b_optimal > amount_b_desired {
                    match quote_outcome(amount_b_desired, reserve_b, reserve_a) {
                        Ok(amount_a_optimal) => {
                            lemma_floor_times_divisor(amount_a_desired * reserve_b, reserve_a);
                            assert(amount_b_desired * reserve_a < (amount_a_desired + 1)
                                * reserve_b) by (nonlinear_arith)
                                requires
                                    amount_b_optimal * reserve_a <= amount_a_desired * reserve_b,
                                    amount_b_desired < amount_b_optimal,
                                    reserve_a > 0,
                                    reserve_b > 0,
                            ;
                            lemma_quotient_bounds(
                                amount_a_desired,
                                amount_b_desired * reserve_a,
                                reserve_b,
                            );
                        },
                        Err(_) => {},
                    }
                }
            },
            Err(_) => {},
        }
    }
}

/// The heart of the round trip. Of a deposit to a pool with shares, let
/// `b` be `a` at the pool's ratio, rounded down. Then the deposit earns its
/// shares by `a`, and these shares, redeemed at once, pay back no more than
/// `a` and no more than `b`.
pub proof fn lemma_round_trip_at_ratio(ra: nat, rb: nat, supply: nat, a: nat, b: nat)
    requires
        ra > 0,
        rb > 0,
        supply > 0,
        b * ra <= a * rb,
        a * rb < (b + 1) * ra,
    ensures
        b * supply / rb <= a * supply / ra,
        (a * supply / ra) * (ra + a) / (supply + a * supply / ra) <= a,
        (a * supply / ra) * (rb + b) / (supply + a * supply / ra) <= b,
{
    let la = a * supply / ra;
    let lb = b * supply / rb;
    lemma_floor_times_divisor(a * supply, ra);
    lemma_floor_times_divisor(b * supply, rb);
    assert(la * ra <= a * supply);
    assert(lb * rb <= b * supply);
    assert(lb * ra <= a * supply) by (nonlinear_arith)
        requires
            lb * rb <= b * supply,
            b * ra <= a * rb,
            rb > 0,
            ra > 0,
            supply > 0,
    {
        assert(lb * rb * ra <= b * supply * ra);
        assert(b * ra * supply <= a * rb * supply);
        assert(lb * ra * rb <= a * supply * rb);
    }
    lemma_quotient_bounds(lb, a * supply, ra);
    let all = supply + la;
    assert(la * (ra + a) < (a + 1) * all) by (nonlinear_arith)
        requires
            la * ra <= a * supply,
            all == supply + la,
            supply > 0,
    ;
    lemma_quotient_bounds(a, la * (ra + a), all);
    assert(la * rb < (b + 1) * supply) by (nonlinear_arith)
        requires
            la * ra <= a * supply,
            a * rb < (b + 1) * ra,
            ra > 0,
            rb > 0,
            supply > 0,
    {
        assert(la * ra * rb <= a * supply * rb);
        assert(a * rb * supply < (b + 1) * ra * supply);
        assert(la * rb * ra < (b + 1) * supply * ra);
    }
    assert(la * (rb + b) < (b + 1) * all) by (nonlinear_arith)
        requires
            la * rb < (b + 1) * supply,
            all == supply + la,
    ;
    lemma_quotient_bounds(b, la * (rb + b), all);
}

/// Liquidity that is added and removed at once gives back no more than
/// was put in. The pool is one that holds what its reserves say and, where
/// it has no shares, nothing.
pub proof fn lemma_liquidity_round_trip(
    reserve_a: nat,
    reserve_b: nat,
    supply: nat,
    amount_a_desired: nat,
    amount_b_desired: nat,
    amount_a_min: nat,
    amount_b_min: nat,
)
    requires
        supply == 0 ==> reserve_a == 0 && reserve_b == 0,
    ensures
        match liquidity_amounts(
            reserve_a,
            reserve_b,
            amount_a_desired,
            amount_b_desired,
            amount_a_min,
            amount_b_min,
        ) {
            Ok((a, b)) => match liquidity_minted(a, b, reserve_a, reserve_b, supply) {
                Ok(liquidity) => match amounts_burned(
                    liquidity,
                    reserve_a + a,
                    reserve_b + b,
                    supply_after(supply, liquidity),
                ) {
                    Ok((back_a, back_b)) => back_a <= a && back_b <= b,
                    Err(_) => true,
                },
                Err(_) => true,
            },
            Err(_) => true,
        },
{
    match liquidity_amounts(
        reserve_a,
        reserve_b,
        amount_a_desired,
        amount_b_desired,
        amount_a_min,
        amount_b_min,
    ) {
        Ok((a, b)) => match liquidity_minted(a, b, reserve_a, reserve_b, supply) {
            Ok(liquidity) => {
                let all = supply_after(supply, liquidity);
                if supply == 0 {
                    assert(liquidity * a < (a + 1) * all) by (nonlinear_arith)
                        requires
                            liquidity <= all,
                            all > 0,
                    ;
                    lemma_quotient_bounds(a, liquidity * a, all);
                    assert(liquidity * b < (b + 1) * all) by (nonlinear_arith)
                        requires
                            liquidity <= all,
                            all > 0,
                    ;
                    lemma_quotient_bounds(b, liquidity * b, all);
                } else {
                    let b_optimal = amount_a_desired * reserve_b / reserve_a;
                    if b_optimal <= amount_b_desired {
                        lemma_floor_times_divisor(a * reserve_b, reserve_a);
                        lemma_round_trip_at_ratio(reserve_a, reserve_b, supply, a, b);
                    } else {
                        lemma_floor_times_divisor(b * reserve_a, reserve_b);
                        lemma_round_trip_at_ratio(reserve_b, reserve_a, supply, b, a);
                    }
                }
            },
            Err(_) => {},
        },
        Err(_) => {},
    }
}

/// The shares that a deposit earns, and what shares redeem, do not depend
/// on the order in which the two tokens are named.
pub proof fn lemma_pool_sides(
    amount0: nat,
    amount1: nat,
    reserve0: nat,
    reserve1: nat,
    supply: nat,
    liquidity: nat,
)
    ensures
        liquidity_minted(amount0, amount1, reserve0, reserve1, supply) == liquidity_minted(
            amount1,
            amount0,
            reserve1,
            reserve0,
            supply,
        ),
        match amounts_burned(liquidity, reserve0, reserve1, supply) {
            Ok((back0, back1)) => amounts_burned(liquidity, reserve1, reserve0, supply) == Ok::<
                (nat, nat),
                Error,
            >((back1, back0)),
            Err(_) => true,
        },
{
    assert(amount0 * amount1 == amount1 * amount0) by (nonlinear_arith);
}

/// Liquidity that is added to a pool and removed at once gives back no
/// more than was put in, whatever the bank holds besides. The pool is
/// somebody, its shares are not one of its tokens, it holds none of its
/// own shares and, where it has issued none, it has no reserves; what it
/// holds beyond its reserves is a deposit as the router sets it, with
/// either token named first; `holder` earns the shares and hands them all
/// back to the pool, which redeems them.
pub proof fn lemma_pool_round_trip(
    p: PairState,
    b: BankState,
    holder: Address,
    to: Address,
    now: u128,
    later: u128,
    first_is_token0: bool,
    amount_a_desired: nat,
    amount_b_desired: nat,
    amount_a_min: nat,
    amount_b_min: nat,
)
    requires
        p.address != null(),
        p.address != p.token0,
        p.address != p.token1,
        holder != p.address,
        b.balances[(p.address, p.address)] == 0,
        b.supplies[p.address] == 0 ==> p.reserve0 == 0 && p.reserve1 == 0,
        b.balances[(p.token0, p.address)] >= p.reserve0,
        b.balances[(p.token1, p.address)] >= p.reserve1,
        first_is_token0 ==> liquidity_amounts(
            p.reserve0,
            p.reserve1,
            amount_a_desired,
            amount_b_desired,
            amount_a_min,
            amount_b_min,
        ) == Ok::<(nat, nat), Error>(
            (
                (b.balances[(p.token0, p.address)] - p.reserve0) as nat,
                (b.balances[(p.token1, p.address)] - p.reserve1) as nat,
            ),
        ),
        !first_is_token0 ==> liquidity_amounts(
            p.reserve1,
            p.reserve0,
            amount_a_desired,
            amount_b_desired,
            amount_a_min,
            amount_b_min,
        ) == Ok::<(nat, nat), Error>(
            (
                (b.balances[(p.token1, p.address)] - p.reserve1) as nat,
                (b.balances[(p.token0, p.address)] - p.reserve0) as nat,
            ),
        ),
    ensures
        match pair_minted(p, b, holder, now) {
            Ok((p1, b1, liquidity)) => match transferred(
                b1,
                p.address,
                holder,
                p.address,
                liquidity,
            ) {
                Ok(b2) => match pair_burned(p1, b2, to, later) {
                    Ok((_, _, back0, back1)) => back0 <= b.balances[(p.token0, p.address)]
                        - p.reserve0 && back1 <= b.balances[(p.token1, p.address)] - p.reserve1,
                    Err(_) => true,
                },
                Err(_) => true,
            },
            Err(_) => true,
        },
{
    reveal(pair_minted);
    reveal(pair_burned);
    let supply = b.supplies[p.address];
    let balance0 = b.balances[(p.token0, p.address)];
    let balance1 = b.balances[(p.token1, p.address)];
    let amount0 = (balance0 - p.reserve0) as nat;
    let amount1 = (balance1 - p.reserve1) as nat;
    if first_is_token0 {
        lemma_liquidity_round_trip(
            p.reserve0,
            p.reserve1,
            supply,
            amount_a_desired,
            amount_b_desired,
            amount_a_min,
            amount_b_min,
        );
    } else {
        lemma_liquidity_round_trip(
            p.reserve1,
            p.reserve0,
            supply,
            amount_a_desired,
            amount_b_desired,
            amount_a_min,
            amount_b_min,
        );
    }
    match pair_minted(p, b, holder, now) {
        Ok((p1, b1, liquidity)) => {
            lemma_pool_sides(amount0, amount1, p.reserve0, p.reserve1, supply, liquidity);
            lemma_pool_sides(
                0,
                0,
                balance0,
                balance1,
                supply_after(supply, liquidity),
                liquidity,
            );
            assert(b1.supplies[p.address] == supply_after(supply, liquidity));
            assert(b1.balances[(p.token0, p.address)] == balance0);
            assert(b1.balances[(p.token1, p.address)] == balance1);
            match transferred(b1, p.address, holder, p.address, liquidity) {
                Ok(b2) => {
                    assert(b2.balances[(p.address, p.address)] == liquidity);
                    assert(b2.balances[(p.token0, p.address)] == balance0);
                    assert(b2.balances[(p.token1, p.address)] == balance1);
                    assert(b2.supplies[p.address] == supply_after(supply, liquidity));
                },
                Err(_) => {},
            }
        },
        Err(_) => {},
    }
}

/// A minimum for the second token above what the first is worth stops the
/// deposit: where the pool has reserves, the whole offer of the first
/// token is worth no more of the second than is offered, and less than
/// the minimum, adding liquidity fails for want of the second token.
pub proof fn lemma_slippage_stops_deposit(
    s: ExchangeState,
    router: Router,
    caller: Address,
    token_a: Address,
    token_b: Address,
    amount_a_desired: nat,
    amount_b_desired: nat,
    amount_a_min: nat,
    amount_b_min: nat,
    to: Address,
    deadline: u128,
    now: u128,
)
    requires
        deadline >= now,
        match reserves_for(s.pairs, token_a, token_b) {
            Ok((reserve_a, reserve_b)) => match quote_outcome(
                amount_a_desired,
                reserve_a,
                reserve_b,
            ) {
                Ok(amount_b_optimal) => amount_b_optimal <= amount_b_desired && amount_b_optimal
                    < amount_b_min,
                Err(_) => false,
            },
            Err(_) => false,
        },
    ensures
        liquidity_added(
            s,
            router,
            caller,
            token_a,
            token_b,
            amount_a_desired,
            amount_b_desired,
            amount_a_min,
            amount_b_min,
            to,
            deadline,
            now,
        ) == Err::<(ExchangeState, nat, nat, nat), Error>(Error::InsufficientBAmount),
{
    reveal(liquidity_planned);
}

/// Adding liquidity keeps the register in order: it changes the reserves
/// of one pool, which it may have made, and no pool's identity or tokens.
pub proof fn lemma_adding_keeps_register(
    s: ExchangeState,
    router: Router,
    caller: Address,
    token_a: Address,
    token_b: Address,
    x: nat,
    y: nat,
    x_min: nat,
    y_min: nat,
    to: Address,
    deadline: u128,
    now: u128,
)
    requires
        register_wf(s.pairs),
    ensures
        match liquidity_added(s, router, caller, token_a, token_b, x, y, x_min, y_min, to, deadline, now) {
            Ok((t, _, _, _)) => register_wf(t.pairs),
            Err(_) => true,
        },
        match liquidity_added_cspr(s, router, caller, token_a, x, y, x_min, y_min, to, deadline, now) {
            Ok((t, _, _, _)) => register_wf(t.pairs),
            Err(_) => true,
        },
{
    reveal(liquidity_planned);
    reveal(pair_minted);
    lemma_created_in_order(s.pairs, token_a, token_b);
    lemma_created_in_order(s.pairs, token_a, router.wcspr);
    match liquidity_added(s, router, caller, token_a, token_b, x, y, x_min, y_min, to, deadline, now) {
        Ok((t, _, _, _)) => {
            let made = pair_created(s.pairs, token_a, token_b)->Ok_0.0;
            assert(same_pools(made, t.pairs));
            lemma_same_pools_in_order(made, t.pairs);
        },
        Err(_) => {},
    }
    match liquidity_added_cspr(s, router, caller, token_a, x, y, x_min, y_min, to, deadline, now) {
        Ok((t, _, _, _)) => {
            let made = pair_created(s.pairs, token_a, router.wcspr)->Ok_0.0;
            assert(same_pools(made, t.pairs));
            lemma_same_pools_in_order(made, t.pairs);
        },
        Err(_) => {},
    }
}

/// Removing liquidity changes the reserves of one pool and the bank, and
/// nothing else of the register.
pub proof fn lemma_removing_keeps_register(
    s: ExchangeState,
    router: Router,
    caller: Address,
    token_a: Address,
    token_b: Address,
    liquidity: nat,
    x_min: nat,
    y_min: nat,
    to: Address,
    deadline: u128,
    now: u128,
)
    ensures
        match liquidity_removed(s, router, caller, token_a, token_b, liquidity, x_min, y_min, to, deadline, now) {
            Ok((t, _, _)) => same_pools(s.pairs, t.pairs),
            Err(_) => true,
        },
        match liquidity_removed_cspr(s, router, caller, token_a, liquidity, x_min, y_min, to, deadline, now) {
            Ok((t, _, _)) => same_pools(s.pairs, t.pairs),
            Err(_) => true,
        },
{
    reveal(pair_burned);
    lemma_pair_for_found(s.pairs, token_a, token_b);
    lemma_pair_for_found(s.pairs, token_a, router.wcspr);
    if deadline >= now {
        match pair_for(s.pairs, token_a, token_b) {
            Ok(i) => match transferred_from(
                s.bank,
                s.pairs[i].address,
                router.address,
                caller,
                s.pairs[i].address,
                liquidity,
            ) {
                Ok(b1) => match pair_burned(s.pairs[i], b1, to, now) {
                    Ok((p, _, _, _)) => {
                        assert(same_pools(s.pairs, s.pairs.update(i, p)));
                    },
                    Err(_) => {},
                },
                Err(_) => {},
            },
            Err(_) => {},
        }
        match pair_for(s.pairs, token_a, router.wcspr) {
            Ok(i) => match transferred_from(
                s.bank,
                s.pairs[i].address,
                router.address,
                caller,
                s.pairs[i].address,
                liquidity,
            ) {
                Ok(b1) => match pair_burned(s.pairs[i], b1, router.address, now) {
                    Ok((p, _, _, _)) => {
                        assert(same_pools(s.pairs, s.pairs.update(i, p)));
                    },
                    Err(_) => {},
                },
                Err(_) => {},
            },
            Err(_) => {},
        }
    }
}

/// Removing liquidity on a signed authorisation changes the reserves of
/// one pool and the bank, and nothing else of the register.
pub proof fn lemma_permitted_removing_keeps_register(
    s: ExchangeState,
    router: Router,
    caller: Address,
    token_a: Address,
    token_b: Address,
    liquidity: Amount,
    x_min: nat,
    y_min: nat,
    to: Address,
    deadline: u128,
    approve_max: bool,
    nonce: Amount,
    signer: Address,
    now: u128,
)
    ensures
        match liquidity_removed_with_permit(
            s,
            router,
            caller,
            token_a,
            token_b,
            liquidity,
            x_min,
            y_min,
            to,
            deadline,
            approve_max,
            nonce,
            signer,
            now,
        ) {
            Ok((t, _, _)) => same_pools(s.pairs, t.pairs),
            Err(_) => true,
        },
        match liquidity_removed_cspr_with_permit(
            s,
            router,
            caller,
            token_a,
            liquidity,
            x_min,
            y_min,
            to,
            deadline,
            approve_max,
            nonce,
            signer,
            now,
        ) {
            Ok((t, _, _)) => same_pools(s.pairs, t.pairs),
            Err(_) => true,
        },
{
    reveal(removal_permitted);
    match removal_permitted(
        s,
        router,
        caller,
        token_a,
        token_b,
        liquidity,
        deadline,
        approve_max,
        nonce,
        signer,
        now,
    ) {
        Ok(s1) => {
            assert(s1.pairs == s.pairs);
            lemma_removing_keeps_register(
                s1,
                router,
                caller,
                token_a,
                token_b,
                liquidity@,
                x_min,
                y_min,
                to,
                deadline,
                now,
            );
        },
        Err(_) => {},
    }
    match removal_permitted(
        s,
        router,
        caller,
        token_a,
        router.wcspr,
        liquidity,
        deadline,
        approve_max,
        nonce,
        signer,
        now,
    ) {
        Ok(s1) => {
            assert(s1.pairs == s.pairs);
            lemma_removing_keeps_register(
                s1,
                router,
                caller,
                token_a,
                token_a,
                liquidity@,
                x_min,
                y_min,
                to,
                deadline,
                now,
            );
        },
        Err(_) => {},
    }
}

/// Sets the amounts of a deposit against a pool's reserves.
pub fn add_liquidity_amounts(
    reserve_a: Amount,
    reserve_b: Amount,
    amount_a_desired: Amount,
    amount_b_desired: Amount,
    amount_a_min: Amount,
    amount_b_min: Amount,
) -> (r: Result<(Amount, Amount), Error>)
    ensures
        match liquidity_amounts(
            reserve_a@,
            reserve_b@,
            amount_a_desired@,
            amount_b_desired@,
            amount_a_min@,
            amount_b_min@,
        ) {
            Ok((a, b)) => r is Ok && r->Ok_0.0@ == a && r->Ok_0.1@ == b,
            Err(e) => r is Err && r->Err_0 == e,
        },
{
    if reserve_a.is_zero() && reserve_b.is_zero() {
        return Ok((amount_a_desired, amount_b_desired));
    }
    let amount_b_optimal = match quote(amount_a_desired, reserve_a, reserve_b) {
        Ok(x) => x,
        Err(e) => { return Err(e); },
    };
    if amount_b_optimal.le(&amount_b_desired) {
        if amount_b_optimal.lt(&amount_b_min) {
            Err(Error::InsufficientBAmount)
        } else {
            Ok((amount_a_desired, amount_b_optimal))
        }
    } else {
        let amount_a_optimal = match quote(amount_b_desired, reserve_b, reserve_a) {
            Ok(x) => x,
            Err(e) => { return Err(e); },
        };
        if amount_a_optimal.lt(&amount_a_min) {
            Err(Error::InsufficientAAmount)
        } else {
            Ok((amount_a_optimal, amount_b_desired))
        }
    }
}

impl Exchange {
    /// Finds or makes the pool of two tokens and sets the amounts of a
    /// deposit, as [`liquidity_planned`] says. Where it fails, the pool may
    /// have been made: it is for use on a copy.
    pub(crate) fn plan_liquidity(
        &mut self,
        token_a: Address,
        token_b: Address,
        amount_a_desired: Amount,
        amount_b_desired: Amount,
        amount_a_min: Amount,
        amount_b_min: Amount,
    ) -> (r: Result<(usize, Amount, Amount), Error>)
        ensures
            match liquidity_planned(
                old(self)@.pairs,
                token_a,
                token_b,
                amount_a_desired@,
                amount_b_desired@,
                amount_a_min@,
                amount_b_min@,
            ) {
                Ok((made, i, a, b)) => r is Ok && r->Ok_0.0 == i && r->Ok_0.1@ == a && r->Ok_0.2@
                    == b && final(self)@.pairs == made && 0 <= i < made.len() && final(self)@.bank
                    == old(self)@.bank && a <= amount_a_desired@ && b <= amount_b_desired@,
                Err(e) => r is Err && r->Err_0 == e,
            },
    {
        reveal(liquidity_planned);
        let i = match self.factory.create_pair(token_a, token_b) {
            Ok(i) => i,
            Err(e) => { return Err(e); },
        };
        let p = self.factory.pairs[i];
        proof {
            assert(self.factory@[i as int] == p@);
        }
        let (reserve_a, reserve_b) = if token_a.same(&p.token0) {
            (p.reserve0, p.reserve1)
        } else {
            (p.reserve1, p.reserve0)
        };
        proof {
            lemma_liquidity_within_offer(
                reserve_a@,
                reserve_b@,
                amount_a_desired@,
                amount_b_desired@,
                amount_a_min@,
                amount_b_min@,
            );
        }
        match add_liquidity_amounts(
            reserve_a,
            reserve_b,
            amount_a_desired,
            amount_b_desired,
            amount_a_min,
            amount_b_min,
        ) {
            Ok((a, b)) => Ok((i, a, b)),
            Err(e) => Err(e),
        }
    }

    /// Adds liquidity, as [`liquidity_added`] says. Where it fails, part of
    /// the work may have been done: it is for use on a copy.
    pub(crate) fn add_liquidity_step(
        &mut self,
        router: Router,
        caller: Address,
        token_a: Address,
        token_b: Address,
        amount_a_desired: Amount,
        amount_b_desired: Amount,
        amount_a_min: Amount,
        amount_b_min: Amount,
        to: Address,
        deadline: u128,
        now: u128,
    ) -> (r: Result<(Amount, Amount, Amount), Error>)
        ensures
            match liquidity_added(
                old(self)@,
                router,
                caller,
                token_a,
                token_b,
                amount_a_desired@,
                amount_b_desired@,
                amount_a_min@,
                amount_b_min@,
                to,
                deadline,
                now,
            ) {
                Ok((s, a, b, l)) => r is Ok && r->Ok_0.0@ == a && r->Ok_0.1@ == b && r->Ok_0.2@
                    == l && final(self)@ == s,
                Err(e) => r is Err && r->Err_0 == e,
            },
    {
        if deadline < now {
            return Err(Error::Expired);
        }
        let (i, amount_a, amount_b) = match self.plan_liquidity(
            token_a,
            token_b,
            amount_a_desired,
            amount_b_desired,
            amount_a_min,
            amount_b_min,
        ) {
            Ok(x) => x,
            Err(e) => { return Err(e); },
        };
        let pool = self.factory.pairs[i].address;
        proof {
            assert(self.factory@[i as int] == self.factory.pairs@[i as int]@);
        }
        match self.bank.transfer_from(token_a, router.address, caller, pool, amount_a) {
            Ok(_) => {},
            Err(e) => { return Err(e); },
        }
        match self.bank.transfer_from(token_b, router.address, caller, pool, amount_b) {
            Ok(_) => {},
            Err(e) => { return Err(e); },
        }
        match self.mint_step(i, to, now) {
            Ok(liquidity) => Ok((amount_a, amount_b, liquidity)),
            Err(e) => Err(e),
        }
    }

    /// Adds liquidity with native coin for one side, as
    /// [`liquidity_added_cspr`] says. Where it fails, part of the work may
    /// have been done: it is for use on a copy.
    pub(crate) fn add_liquidity_cspr_step(
        &mut self,
        router: Router,
        caller: Address,
        token: Address,
        amount_token_desired: Amount,
        amount_cspr_desired: Amount,
        amount_token_min: Amount,
        amount_cspr_min: Amount,
        to: Address,
        deadline: u128,
        now: u128,
    ) -> (r: Result<(Amount, Amount, Amount), Error>)
        ensures
            match liquidity_added_cspr(
                old(self)@,
                router,
                caller,
                token,
                amount_token_desired@,
                amount_cspr_desired@,
                amount_token_min@,
                amount_cspr_min@,
                to,
                deadline,
                now,
            ) {
                Ok((s, a, b, l)) => r is Ok && r->Ok_0.0@ == a && r->Ok_0.1@ == b && r->Ok_0.2@
                    == l && final(self)@ == s,
                Err(e) => r is Err && r->Err_0 == e,
            },
    {
        if deadline < now {
            return Err(Error::Expired);
        }
        match self.bank.transfer(Address::zero(), caller, router.address, amount_cspr_desired) {
            Ok(_) => {},
            Err(e) => { return Err(e); },
        }
        let (i, amount_token, amount_cspr) = match self.plan_liquidity(
            token,
            router.wcspr,
            amount_token_desired,
            amount_cspr_desired,
            amount_token_min,
            amount_cspr_min,
        ) {
            Ok(x) => x,
            Err(e) => { return Err(e); },
        };
        let pool = self.factory.pairs[i].address;
        proof {
            assert(self.factory@[i as int] == self.factory.pairs@[i as int]@);
        }
        match self.bank.transfer_from(token, router.address, caller, pool, amount_token) {
            Ok(_) => {},
            Err(e) => { return Err(e); },
        }
        match self.bank.wrap_step(router.wcspr, router.address, pool, amount_cspr) {
            Ok(_) => {},
            Err(e) => { return Err(e); },
        }
        let liquidity = match self.mint_step(i, to, now) {
            Ok(x) => x,
            Err(e) => { return Err(e); },
        };
        let rest = match amount_cspr_desired.checked_sub(amount_cspr) {
            Some(x) => x,
            None => Amount::zero(),
        };
        match self.bank.transfer(Address::zero(), router.address, caller, rest) {
            Ok(_) => Ok((amount_token, amount_cspr, liquidity)),
            Err(e) => Err(e),
        }
    }

    /// Removes liquidity, as [`liquidity_removed`] says. Where it fails,
    /// part of the work may have been done: it is for use on a copy.
    pub(crate) fn remove_liquidity_step(
        &mut self,
        router: Router,
        caller: Address,
        token_a: Address,
        token_b: Address,
        liquidity: Amount,
        amount_a_min: Amount,
        amount_b_min: Amount,
        to: Address,
        deadline: u128,
        now: u128,
    ) -> (r: Result<(Amount, Amount), Error>)
        ensures
            match liquidity_removed(
                old(self)@,
                router,
                caller,
                token_a,
                token_b,
                liquidity@,
                amount_a_min@,
                amount_b_min@,
                to,
                deadline,
                now,
            ) {
                Ok((s, a, b)) => r is Ok && r->Ok_0.0@ == a && r->Ok_0.1@ == b && final(self)@
                    == s,
                Err(e) => r is Err && r->Err_0 == e,
            },
    {
        if deadline < now {
            return Err(Error::Expired);
        }
        let i = match self.factory.pair_for(token_a, token_b) {
            Ok(i) => i,
            Err(e) => { return Err(e); },
        };
        let p = self.factory.pairs[i];
        proof {
            assert(self.factory@[i as int] == p@);
        }
        match self.bank.transfer_from(p.address, router.address, caller, p.address, liquidity) {
            Ok(_) => {},
            Err(e) => { return Err(e); },
        }
        let (amount0, amount1) = match self.burn_step(i, to, now) {
            Ok(x) => x,
            Err(e) => { return Err(e); },
        };
        let (amount_a, amount_b) = if token_a.same(&p.token0) {
            (amount0, amount1)
        } else {
            (amount1, amount0)
        };
        if amount_a.lt(&amount_a_min) {
            Err(Error::InsufficientAAmount)
        } else if amount_b.lt(&amount_b_min) {
            Err(Error::InsufficientBAmount)
        } else {
            Ok((amount_a, amount_b))
        }
    }

    /// Removes liquidity from a pool with the wrapped coin for one side,
    /// as [`liquidity_removed_cspr`] says. Where it fails, part of the work
    /// may have been done: it is for use on a copy.
    pub(crate) fn remove_liquidity_cspr_step(
        &mut self,
        router: Router,
        caller: Address,
        token: Address,
        liquidity: Amount,
        amount_token_min: Amount,
        amount_cspr_min: Amount,
        to: Address,
        deadline: u128,
        now: u128,
    ) -> (r: Result<(Amount, Amount), Error>)
        ensures
            match liquidity_removed_cspr(
                old(self)@,
                router,
                caller,
                token,
                liquidity@,
                amount_token_min@,
                amount_cspr_min@,
                to,
                deadline,
                now,
            ) {
                Ok((s, a, b)) => r is Ok && r->Ok_0.0@ == a && r->Ok_0.1@ == b && final(self)@
                    == s,
                Err(e) => r is Err && r->Err_0 == e,
            },
    {
        let (amount_token, amount_cspr) = match self.remove_liquidity_step(
            router,
            caller,
            token,
            router.wcspr,
            liquidity,
            amount_token_min,
            amount_cspr_min,
            router.address,
            deadline,
            now,
        ) {
            Ok(x) => x,
            Err(e) => { return Err(e); },
        };
        match self.bank.transfer(token, router.address, to, amount_token) {
            Ok(_) => {},
            Err(e) => { return Err(e); },
        }
        match self.bank.unwrap_step(router.wcspr, router.address, to, amount_cspr) {
            Ok(_) => Ok((amount_token, amount_cspr)),
            Err(e) => Err(e),
        }
    }

    /// Takes the authorisation that comes with a call to remove liquidity,
    /// as [`removal_permitted`] says.
    pub(crate) fn permit_removal_step(
        &mut self,
        router: Router,
        caller: Address,
        token_a: Address,
        token_b: Address,
        liquidity: Amount,
        deadline: u128,
        approve_max: bool,
        nonce: Amount,
        signer: Address,
        now: u128,
    ) -> (r: Result<(), Error>)
        ensures
            match removal_permitted(
                old(self)@,
                router,
                caller,
                token_a,
                token_b,
                liquidity,
                deadline,
                approve_max,
                nonce,
                signer,
                now,
            ) {
                Ok(s) => r is Ok && final(self)@ == s,
                Err(e) => r is Err && r->Err_0 == e,
            },
    {
        reveal(removal_permitted);
        if deadline < now {
            return Err(Error::Expired);
        }
        let i = match self.factory.pair_for(token_a, token_b) {
            Ok(i) => i,
            Err(e) => { return Err(e); },
        };
        let p = self.factory.pairs[i];
        proof {
            assert(self.factory@[i as int] == p@);
        }
        let most = Amount::max_value();
        proof {
            crate::amount::lemma_amount_injective(most, unlimited());
        }
        let value = if approve_max {
            most
        } else {
            liquidity
        };
        let permit = Permit {
            token: p.address,
            owner: caller,
            spender: router.address,
            value,
            deadline,
            nonce,
            signer,
        };
        self.bank.permit(permit, now)
    }
}

} // verus!
