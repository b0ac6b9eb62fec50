//! A pool of two tokens.
//!
//! A pool keeps an account at the bank under its own identity, in which it
//! holds the two tokens, and it issues liquidity shares: a token of the bank
//! under the pool's identity. Its reserves are what it held of each token
//! when it last settled. Whatever has arrived since is taken as a deposit or
//! as the input of a trade by the next call.

use crate::address::Address;
use crate::amount::{modulus, sqrt_floor, Amount};
use crate::bank::{burned, minted, null, transferred, Bank, BankState};
use crate::error::Error;
use crate::library::{amount_out_outcome, lemma_floor_times_divisor};
use vstd::prelude::*;

verus! {

/// The shares that the first deposit leaves with the null identity for
/// ever, so that the shares of a pool never all return to it.
pub const MINIMUM_LIQUIDITY: u64 = 100;

/// The number of shares locked by the first deposit.
pub open spec fn minimum_liquidity() -> nat {
    100
}

/// A pool as mathematics.
pub struct PairState {
    /// The pool's identity: its account at the bank and the token of its
    /// shares.
    pub address: Address,
    /// The token of lower rank.
    pub token0: Address,
    /// The token of higher rank.
    pub token1: Address,
    /// What the pool held of `token0` when it last settled.
    pub reserve0: nat,
    /// What the pool held of `token1` when it last settled.
    pub reserve1: nat,
    /// When the pool last settled.
    pub block_timestamp_last: u128,
}

impl PairState {
    /// The tokens stand in order and neither is the null identity.
    pub open spec fn wf(self) -> bool {
        0 < self.token0@ < self.token1@
    }
}

/// The shares that a deposit of `amount0` and `amount1` earns. The first
/// deposit earns the geometric mean of the two amounts less the lock; a
/// later one earns the larger of the two proportions in which it adds to
/// the reserves.
pub open spec fn liquidity_minted(
    amount0: nat,
    amount1: nat,
    reserve0: nat,
    reserve1: nat,
    supply: nat,
) -> Result<nat, Error> {
    if supply == 0 {
        if amount0 * amount1 >= modulus() {
            Err(Error::Overflow)
        } else if sqrt_floor(amount0 * amount1) <= minimum_liquidity() {
            Err(Error::InsufficientLiquidityMinted)
        } else {
            Ok((sqrt_floor(amount0 * amount1) - minimum_liquidity()) as nat)
        }
    } else if reserve0 == 0 || reserve1 == 0 {
        Err(Error::InsufficientLiquidity)
    } else if amount0 * supply >= modulus() || amount1 * supply >= modulus() {
        Err(Error::Overflow)
    } else {
        let by0 = amount0 * supply / reserve0;
        let by1 = amount1 * supply / reserve1;
        let most = if by0 >= by1 {
            by0
        } else {
            by1
        };
        if most == 0 {
            Err(Error::InsufficientLiquidityMinted)
        } else {
            Ok(most)
        }
    }
}

/// What `liquidity` shares redeem of each token: the part of the pool's
/// holdings that they are of all shares, rounded down.
pub open spec fn amounts_burned(liquidity: nat, balance0: nat, balance1: nat, supply: nat)
    -> Result<(nat, nat), Error> {
    if supply == 0 {
        Err(Error::InsufficientLiquidityBurned)
    } else if liquidity * balance0 >= modulus() || liquidity * balance1 >= modulus() {
        Err(Error::Overflow)
    } else if liquidity * balance0 / supply == 0 || liquidity * balance1 / supply == 0 {
        Err(Error::InsufficientLiquidityBurned)
    } else {
        Ok((liquidity * balance0 / supply, liquidity * balance1 / supply))
    }
}

/// What a pool finds to have come in of a token, once `out` has left:
/// whatever it holds beyond its reserve less `out`.
pub open spec fn amount_in_seen(balance: nat, reserve: nat, out: nat) -> nat {
    let kept = if out <= reserve {
        (reserve - out) as nat
    } else {
        0
    };
    if balance > kept {
        (balance - kept) as nat
    } else {
        0
    }
}

/// A holding scaled by a thousand, less three times what came in: the
/// holding net of the fee.
pub open spec fn adjusted(balance: nat, came_in: nat) -> int {
    balance * 1000 - came_in * 3
}

/// Whether a trade may settle: something came in, and the product of the
/// holdings net of the fee is no smaller than the product of the reserves.
pub open spec fn swap_checked(
    reserve0: nat,
    reserve1: nat,
    balance0: nat,
    balance1: nat,
    amount0_out: nat,
    amount1_out: nat,
) -> Result<(), Error> {
    let in0 = amount_in_seen(balance0, reserve0, amount0_out);
    let in1 = amount_in_seen(balance1, reserve1, amount1_out);
    if in0 == 0 && in1 == 0 {
        Err(Error::InsufficientInputAmount)
    } else if balance0 * 1000 >= modulus() || balance1 * 1000 >= modulus() || adjusted(
        balance0,
        in0,
    ) * adjusted(balance1, in1) >= modulus() || reserve0 * reserve1 * 1000000 >= modulus() {
        Err(Error::Overflow)
    } else if adjusted(balance0, in0) * adjusted(balance1, in1) < reserve0 * reserve1 * 1000000 {
        Err(Error::K)
    } else {
        Ok(())
    }
}

/// The pool once it has settled on the holdings `balance0` and `balance1`
/// at the time `now`.
pub open spec fn settled(p: PairState, balance0: nat, balance1: nat, now: u128) -> PairState {
    PairState { reserve0: balance0, reserve1: balance1, block_timestamp_last: now, ..p }
}

/// The first deposit locks the minimum liquidity with the null identity.
pub open spec fn locked(b: BankState, shares: Address, supply: nat) -> Result<BankState, Error> {
    if supply == 0 {
        minted(b, shares, null(), minimum_liquidity())
    } else {
        Ok(b)
    }
}

/// A deposit: what the pool holds beyond its reserves earns shares for
/// `to`, and the pool settles. Gives the pool, the bank and the shares
/// earned.
#[verifier::opaque]
pub open spec fn pair_minted(p: PairState, b: BankState, to: Address, now: u128) -> Result<
    (PairState, BankState, nat),
    Error,
> {
    let balance0 = b.balances[(p.token0, p.address)];
    let balance1 = b.balances[(p.token1, p.address)];
    let supply = b.supplies[p.address];
    if balance0 < p.reserve0 || balance1 < p.reserve1 {
        Err(Error::Overflow)
    } else {
        match liquidity_minted(
            (balance0 - p.reserve0) as nat,
            (balance1 - p.reserve1) as nat,
            p.reserve0,
            p.reserve1,
            supply,
        ) {
            Err(e) => Err(e),
            Ok(liquidity) => match locked(b, p.address, supply) {
                Err(e) => Err(e),
                Ok(b1) => match minted(b1, p.address, to, liquidity) {
                    Err(e) => Err(e),
                    Ok(b2) => Ok((settled(p, balance0, balance1, now), b2, liquidity)),
                },
            },
        }
    }
}

/// A redemption: the shares that the pool itself holds are destroyed, their
/// part of each token goes to `to`, and the pool settles. Gives the pool,
/// the bank and the two amounts paid.
#[verifier::opaque]
pub open spec fn pair_burned(p: PairState, b: BankState, to: Address, now: u128) -> Result<
    (PairState, BankState, nat, nat),
    Error,
> {
    let liquidity = b.balances[(p.address, p.address)];
    match amounts_burned(
        liquidity,
        b.balances[(p.token0, p.address)],
        b.balances[(p.token1, p.address)],
        b.supplies[p.address],
    ) {
        Err(e) => Err(e),
        Ok((amount0, amount1)) => match burned(b, p.address, p.address, liquidity) {
            Err(e) => Err(e),
            Ok(b1) => match transferred(b1, p.token0, p.address, to, amount0) {
                Err(e) => Err(e),
                Ok(b2) => match transferred(b2, p.token1, p.address, to, amount1) {
                    Err(e) => Err(e),
                    Ok(b3) => Ok(
                        (
                            settled(
                                p,
                                b3.balances[(p.token0, p.address)],
                                b3.balances[(p.token1, p.address)],
                                now,
                            ),
                            b3,
                            amount0,
                            amount1,
                        ),
                    ),
                },
            },
        },
    }
}

/// A trade: the pool pays `amount0_out` and `amount1_out` to `to`, finds
/// what has come in, checks the product of its holdings, and settles.
#[verifier::opaque]
pub open spec fn pair_swapped(
    p: PairState,
    b: BankState,
    amount0_out: nat,
    amount1_out: nat,
    to: Address,
    now: u128,
) -> Result<(PairState, BankState), Error> {
    if amount0_out == 0 && amount1_out == 0 {
        Err(Error::InsufficientOutputAmount)
    } else if amount0_out >= p.reserve0 || amount1_out >= p.reserve1 {
        Err(Error::InsufficientLiquidity)
    } else {
        match transferred(b, p.token0, p.address, to, amount0_out) {
            Err(e) => Err(e),
            Ok(b1) => match transferred(b1, p.token1, p.address, to, amount1_out) {
                Err(e) => Err(e),
                Ok(b2) => {
                    let balance0 = b2.balances[(p.token0, p.address)];
                    let balance1 = b2.balances[(p.token1, p.address)];
                    match swap_checked(
                        p.reserve0,
                        p.reserve1,
                        balance0,
                        balance1,
                        amount0_out,
                        amount1_out,
                    ) {
                        Err(e) => Err(e),
                        Ok(_) => Ok((settled(p, balance0, balance1, now), b2)),
                    }
                },
            },
        }
    }
}

/// The product of a pool's reserves.
pub open spec fn product(p: PairState) -> nat {
    p.reserve0 * p.reserve1
}

/// Whether some trade, against some bank, takes the pool `p` to the pool
/// `q`.
pub open spec fn trade_leads(p: PairState, q: PairState) -> bool {
    exists|b: BankState, amount0_out: nat, amount1_out: nat, to: Address, now: u128|
        match #[trigger] pair_swapped(p, b, amount0_out, amount1_out, to, now) {
            Ok((after, _)) => after == q,
            Err(_) => false,
        }
}

/// A trade that passes the check leaves the product of the holdings, net of
/// the fee on what came in, no smaller than the product of the reserves;
/// so the product of the holdings themselves is no smaller either.
pub proof fn lemma_check_keeps_product(
    reserve0: nat,
    reserve1: nat,
    balance0: nat,
    balance1: nat,
    amount0_out: nat,
    amount1_out: nat,
)
    requires
        swap_checked(reserve0, reserve1, balance0, balance1, amount0_out, amount1_out) is Ok,
    ensures
        adjusted(balance0, amount_in_seen(balance0, reserve0, amount0_out)) * adjusted(
            balance1,
            amount_in_seen(balance1, reserve1, amount1_out),
        ) >= reserve0 * reserve1 * 1000000,
        balance0 * balance1 >= reserve0 * reserve1,
{
    let in0 = amount_in_seen(balance0, reserve0, amount0_out);
    let in1 = amount_in_seen(balance1, reserve1, amount1_out);
    let net0 = adjusted(balance0, in0);
    let net1 = adjusted(balance1, in1);
    assert(balance0 * balance1 >= reserve0 * reserve1) by (nonlinear_arith)
        requires
            0 <= net0 <= balance0 * 1000,
            0 <= net1 <= balance1 * 1000,
            net0 * net1 >= reserve0 * reserve1 * 1000000,
    ;
}

/// A trade at the quoted price settles: where a pool has received
/// `amount_in` of one token and is asked for what that is quoted to buy of
/// the other, the check of the product never refuses the trade. The fee
/// that the quote takes off the input is the fee that the check takes off.
pub proof fn lemma_quoted_trade_settles(amount_in: nat, reserve_in: nat, reserve_out: nat)
    ensures
        match amount_out_outcome(amount_in, reserve_in, reserve_out) {
            Ok(out) => out > 0 ==> swap_checked(
                reserve_in,
                reserve_out,
                reserve_in + amount_in,
                (reserve_out - out) as nat,
                0,
                out,
            ) != Err::<(), Error>(Error::K) && swap_checked(
                reserve_out,
                reserve_in,
                (reserve_out - out) as nat,
                reserve_in + amount_in,
                out,
                0,
            ) != Err::<(), Error>(Error::K),
            Err(_) => true,
        },
{
    match amount_out_outcome(amount_in, reserve_in, reserve_out) {
        Ok(out) => {
            if out > 0 {
                let top = amount_in * 997 * reserve_out;
                let bottom = reserve_in * 1000 + amount_in * 997;
                lemma_floor_times_divisor(top, bottom);
                crate::library::lemma_amount_out_below_reserve(amount_in, reserve_in, reserve_out);
                let net_in = adjusted(reserve_in + amount_in, amount_in);
                let net_out = adjusted((reserve_out - out) as nat, 0);
                assert(net_in * net_out >= reserve_in * reserve_out * 1000000) by (nonlinear_arith)
                    requires
                        out * bottom <= top,
                        top == amount_in * 997 * reserve_out,
                        bottom == reserve_in * 1000 + amount_in * 997,
                        out < reserve_out,
                        net_in == (reserve_in + amount_in) * 1000 - amount_in * 3,
                        net_out == (reserve_out - out) * 1000,
                ;
                assert(net_out * net_in >= reserve_out * reserve_in * 1000000) by (nonlinear_arith)
                    requires
                        net_in * net_out >= reserve_in * reserve_out * 1000000,
                ;
            }
        },
        Err(_) => {},
    }
}

/// A trade that settles never lowers the product of the pool's reserves.
pub proof fn lemma_swap_keeps_product(
    p: PairState,
    b: BankState,
    amount0_out: nat,
    amount1_out: nat,
    to: Address,
    now: u128,
)
    ensures
        match pair_swapped(p, b, amount0_out, amount1_out, to, now) {
            Ok((q, _)) => product(q) >= product(p),
            Err(_) => true,
        },
{
    reveal(pair_swapped);
    match pair_swapped(p, b, amount0_out, amount1_out, to, now) {
        Ok((q, after)) => {
            lemma_check_keeps_product(
                p.reserve0,
                p.reserve1,
                q.reserve0,
                q.reserve1,
                amount0_out,
                amount1_out,
            );
        },
        Err(_) => {},
    }
}

/// Over any run of trades, each against whatever the bank then holds, the
/// product of the pool's reserves never falls.
pub proof fn lemma_swaps_keep_product(run: Seq<PairState>)
    requires
        run.len() > 0,
        forall|i: int| 0 <= i < run.len() - 1 ==> trade_leads(#[trigger] run[i], run[i + 1]),
    ensures
        product(run.last()) >= product(run.first()),
    decreases run.len(),
{
    if run.len() > 1 {
        let head = run.drop_last();
        assert forall|i: int| 0 <= i < head.len() - 1 implies trade_leads(
            #[trigger] head[i],
            head[i + 1],
        ) by {
            assert(trade_leads(run[i], run[i + 1]));
        }
        lemma_swaps_keep_product(head);
        let p = run[run.len() - 2];
        let q = run.last();
        assert(trade_leads(p, q));
        let (b, amount0_out, amount1_out, to, now) = choose|
            b: BankState,
            amount0_out: nat,
            amount1_out: nat,
            to: Address,
            now: u128,
        |
            match #[trigger] pair_swapped(p, b, amount0_out, amount1_out, to, now) {
                Ok((after, _)) => after == q,
                Err(_) => false,
            };
        lemma_swap_keeps_product(p, b, amount0_out, amount1_out, to, now);
    }
}

/// Computes the shares that a deposit earns.
pub fn mint_liquidity(
    amount0: Amount,
    amount1: Amount,
    reserve0: Amount,
    reserve1: Amount,
    supply: Amount,
) -> (r: Result<Amount, Error>)
    ensures
        match liquidity_minted(amount0@, amount1@, reserve0@, reserve1@, supply@) {
            Ok(l) => r is Ok && r->Ok_0@ == l,
            Err(e) => r == Err::<Amount, Error>(e),
        },
{
    if supply.is_zero() {
        let product = match amount0.checked_mul(amount1) {
            Some(x) => x,
            None => { return Err(Error::Overflow); },
        };
        match product.sqrt().checked_sub(Amount::from_u64(MINIMUM_LIQUIDITY)) {
            Some(x) => if x.is_zero() {
                Err(Error::InsufficientLiquidityMinted)
            } else {
                Ok(x)
            },
            None => Err(Error::InsufficientLiquidityMinted),
        }
    } else {
        if reserve0.is_zero() || reserve1.is_zero() {
            return Err(Error::InsufficientLiquidity);
        }
        let scaled0 = match amount0.checked_mul(supply) {
            Some(x) => x,
            None => { return Err(Error::Overflow); },
        };
        let scaled1 = match amount1.checked_mul(supply) {
            Some(x) => x,
            None => { return Err(Error::Overflow); },
        };
        let by0 = match scaled0.checked_div(reserve0) {
            Some(x) => x,
            None => { return Err(Error::InsufficientLiquidity); },
        };
        let by1 = match scaled1.checked_div(reserve1) {
            Some(x) => x,
            None => { return Err(Error::InsufficientLiquidity); },
        };
        let most = by0.max(by1);
        if most.is_zero() {
            Err(Error::InsufficientLiquidityMinted)
        } else {
            Ok(most)
        }
    }
}

/// Computes what `liquidity` shares redeem of each token.
pub fn burn_amounts(liquidity: Amount, balance0: Amount, balance1: Amount, supply: Amount) -> (r:
    Result<(Amount, Amount), Error>)
    ensures
        match amounts_burned(liquidity@, balance0@, balance1@, supply@) {
            Ok((a0, a1)) => r is Ok && r->Ok_0.0@ == a0 && r->Ok_0.1@ == a1,
            Err(e) => r == Err::<(Amount, Amount), Error>(e),
        },
{
    if supply.is_zero() {
        return Err(Error::InsufficientLiquidityBurned);
    }
    let part0 = match liquidity.checked_mul(balance0) {
        Some(x) => x,
        None => { return Err(Error::Overflow); },
    };
    let part1 = match liquidity.checked_mul(balance1) {
        Some(x) => x,
        None => { return Err(Error::Overflow); },
    };
    let amount0 = match part0.checked_div(supply) {
        Some(x) => x,
        None => { return Err(Error::InsufficientLiquidityBurned); },
    };
    let amount1 = match part1.checked_div(supply) {
        Some(x) => x,
        None => { return Err(Error::InsufficientLiquidityBurned); },
    };
    if amount0.is_zero() || amount1.is_zero() {
        Err(Error::InsufficientLiquidityBurned)
    } else {
        Ok((amount0, amount1))
    }
}

/// Computes what has come in of a token, once `out` has left.
fn see_amount_in(balance: Amount, reserve: Amount, out: Amount) -> (r: Amount)
    ensures
        r@ == amount_in_seen(balance@, reserve@, out@),
{
    let kept = match reserve.checked_sub(out) {
        Some(x) => x,
        None => Amount::zero(),
    };
    match balance.checked_sub(kept) {
        Some(x) => x,
        None => Amount::zero(),
    }
}

/// Computes a holding net of the fee.
fn adjust(balance: Amount, came_in: Amount) -> (r: Result<Amount, Error>)
    requires
        came_in@ <= balance@,
    ensures
        match r {
            Ok(x) => x@ == adjusted(balance@, came_in@) && balance@ * 1000 < modulus(),
            Err(e) => e == Error::Overflow && balance@ * 1000 >= modulus(),
        },
{
    let scaled = match balance.checked_mul(Amount::from_u64(1000)) {
        Some(x) => x,
        None => { return Err(Error::Overflow); },
    };
    let fee = match came_in.checked_mul(Amount::from_u64(3)) {
        Some(x) => x,
        None => { return Err(Error::Overflow); },
    };
    match scaled.checked_sub(fee) {
        Some(x) => Ok(x),
        None => Err(Error::Overflow),
    }
}

/// Checks whether a trade may settle.
pub fn check_swap(
    reserve0: Amount,
    reserve1: Amount,
    balance0: Amount,
    balance1: Amount,
    amount0_out: Amount,
    amount1_out: Amount,
) -> (r: Result<(), Error>)
    ensures
        r == swap_checked(
            reserve0@,
            reserve1@,
            balance0@,
            balance1@,
            amount0_out@,
            amount1_out@,
        ),
{
    let in0 = see_amount_in(balance0, reserve0, amount0_out);
    let in1 = see_amount_in(balance1, reserve1, amount1_out);
    if in0.is_zero() && in1.is_zero() {
        return Err(Error::InsufficientInputAmount);
    }
    let net0 = match adjust(balance0, in0) {
        Ok(x) => x,
        Err(e) => { return Err(e); },
    };
    let net1 = match adjust(balance1, in1) {
        Ok(x) => x,
        Err(e) => { return Err(e); },
    };
    let after = match net0.checked_mul(net1) {
        Some(x) => x,
        None => { return Err(Error::Overflow); },
    };
    proof {
        assert(reserve0@ * reserve1@ <= reserve0@ * reserve1@ * 1000000) by (nonlinear_arith);
    }
    let product = match reserve0.checked_mul(reserve1) {
        Some(x) => x,
        None => { return Err(Error::Overflow); },
    };
    let before = match product.checked_mul(Amount::from_u64(1000000)) {
        Some(x) => x,
        None => { return Err(Error::Overflow); },
    };
    if after.lt(&before) {
        Err(Error::K)
    } else {
        Ok(())
    }
}

/// A pool of two tokens.
#[derive(Clone, Copy, Debug, PartialEq, Eq, Structural)]
pub struct Pair {
    pub address: Address,
    pub token0: Address,
    pub token1: Address,
    pub reserve0: Amount,
    pub reserve1: Amount,
    pub block_timestamp_last: u128,
}

impl View for Pair {
    type V = PairState;

    open spec fn view(&self) -> PairState {
        PairState {
            address: self.address,
            token0: self.token0,
            token1: self.token1,
            reserve0: self.reserve0@,
            reserve1: self.reserve1@,
            block_timestamp_last: self.block_timestamp_last,
        }
    }
}

impl Pair {
    /// An empty pool of two tokens, under the identity `address`.
    pub fn new(address: Address, token0: Address, token1: Address) -> (r: Pair)
        ensures
            r@ == (PairState {
                address,
                token0,
                token1,
                reserve0: 0,
                reserve1: 0,
                block_timestamp_last: 0,
            }),
    {
        Pair {
            address,
            token0,
            token1,
            reserve0: Amount::zero(),
            reserve1: Amount::zero(),
            block_timestamp_last: 0,
        }
    }

    /// The reserves and the time at which the pool last settled.
    pub fn get_reserves(&self) -> (r: (Amount, Amount, u128))
        ensures
            r.0@ == self@.reserve0,
            r.1@ == self@.reserve1,
            r.2 == self@.block_timestamp_last,
    {
        (self.reserve0, self.reserve1, self.block_timestamp_last)
    }

    /// Settles the pool on what it now holds.
    fn settle(&mut self, bank: &Bank, now: u128)
        ensures
            final(self)@ == settled(
                old(self)@,
                bank@.balances[(old(self).token0, old(self).address)],
                bank@.balances[(old(self).token1, old(self).address)],
                now,
            ),
    {
        self.reserve0 = bank.balance_of(self.token0, self.address);
        self.reserve1 = bank.balance_of(self.token1, self.address);
        self.block_timestamp_last = now;
    }

    /// Takes a deposit, as [`pair_minted`] says. Where it fails, part of
    /// the work may have been done: it is for use on a copy.
    pub(crate) fn mint_step(&mut self, bank: &mut Bank, to: Address, now: u128) -> (r: Result<
        Amount,
        Error,
    >)
        ensures
            match pair_minted(old(self)@, old(bank)@, to, now) {
                Ok((p, b, liquidity)) => r is Ok && r->Ok_0@ == liquidity && final(self)@ == p
                    && final(bank)@ == b,
                Err(e) => r == Err::<Amount, Error>(e),
            },
    {
        reveal(pair_minted);
        let balance0 = bank.balance_of(self.token0, self.address);
        let balance1 = bank.balance_of(self.token1, self.address);
        let supply = bank.total_supply(self.address);
        let amount0 = match balance0.checked_sub(self.reserve0) {
            Some(x) => x,
            None => { return Err(Error::Overflow); },
        };
        let amount1 = match balance1.checked_sub(self.reserve1) {
            Some(x) => x,
            None => { return Err(Error::Overflow); },
        };
        let liquidity = match mint_liquidity(amount0, amount1, self.reserve0, self.reserve1, supply) {
            Ok(x) => x,
            Err(e) => { return Err(e); },
        };
        if supply.is_zero() {
            match bank.mint(self.address, Address::zero(), Amount::from_u64(MINIMUM_LIQUIDITY)) {
                Ok(_) => {},
                Err(e) => { return Err(e); },
            }
        }
        match bank.mint(self.address, to, liquidity) {
            Ok(_) => {},
            Err(e) => { return Err(e); },
        }
        self.reserve0 = balance0;
        self.reserve1 = balance1;
        self.block_timestamp_last = now;
        Ok(liquidity)
    }

    /// Redeems the shares that the pool holds, as [`pair_burned`] says.
    /// Where it fails, part of the work may have been done: it is for use
    /// on a copy.
    pub(crate) fn burn_step(&mut self, bank: &mut Bank, to: Address, now: u128) -> (r: Result<
        (Amount, Amount),
        Error,
    >)
        ensures
            match pair_burned(old(self)@, old(bank)@, to, now) {
                Ok((p, b, amount0, amount1)) => r is Ok && r->Ok_0.0@ == amount0 && r->Ok_0.1@
                    == amount1 && final(self)@ == p && final(bank)@ == b,
                Err(e) => r == Err::<(Amount, Amount), Error>(e),
            },
    {
        reveal(pair_burned);
        let liquidity = bank.balance_of(self.address, self.address);
        let (amount0, amount1) = match burn_amounts(
            liquidity,
            bank.balance_of(self.token0, self.address),
            bank.balance_of(self.token1, self.address),
            bank.total_supply(self.address),
        ) {
            Ok(x) => x,
            Err(e) => { return Err(e); },
        };
        match bank.burn(self.address, self.address, liquidity) {
            Ok(_) => {},
            Err(e) => { return Err(e); },
        }
        match bank.transfer(self.token0, self.address, to, amount0) {
            Ok(_) => {},
            Err(e) => { return Err(e); },
        }
        match bank.transfer(self.token1, self.address, to, amount1) {
            Ok(_) => {},
            Err(e) => { return Err(e); },
        }
        self.settle(bank, now);
        Ok((amount0, amount1))
    }

    /// Settles a trade, as [`pair_swapped`] says. Where it fails, part of
    /// the work may have been done: it is for use on a copy.
    pub(crate) fn swap_step(
        &mut self,
        bank: &mut Bank,
        amount0_out: Amount,
        amount1_out: Amount,
        to: Address,
        now: u128,
    ) -> (r: Result<(), Error>)
        ensures
            match pair_swapped(old(self)@, old(bank)@, amount0_out@, amount1_out@, to, now) {
                Ok((p, b)) => r is Ok && final(self)@ == p && final(bank)@ == b,
                Err(e) => r == Err::<(), Error>(e),
            },
    {
        reveal(pair_swapped);
        if amount0_out.is_zero() && amount1_out.is_zero() {
            return Err(Error::InsufficientOutputAmount);
        }
        if !amount0_out.lt(&self.reserve0) || !amount1_out.lt(&self.reserve1) {
            return Err(Error::InsufficientLiquidity);
        }
        match bank.transfer(self.token0, self.address, to, amount0_out) {
            Ok(_) => {},
            Err(e) => { return Err(e); },
        }
        match bank.transfer(self.token1, self.address, to, amount1_out) {
            Ok(_) => {},
            Err(e) => { return Err(e); },
        }
        match check_swap(
            self.reserve0,
            self.reserve1,
            bank.balance_of(self.token0, self.address),
            bank.balance_of(self.token1, self.address),
            amount0_out,
            amount1_out,
        ) {
            Ok(_) => {},
            Err(e) => { return Err(e); },
        }
        self.settle(bank, now);
        Ok(())
    }
}

} // verus!
