//! The arithmetic of quoting: in what order a pair's tokens stand, what a
//! deposit of one token is worth in the other, and what a trade pays or
//! costs against given reserves.

use crate::address::Address;
use crate::amount::{modulus, Amount};
use crate::error::Error;
use crate::factory::Factory;
use crate::pair::PairState;
use vstd::prelude::*;

verus! {

/// Of every thousand units that a trader pays in, this many count towards
/// the trade; the other three stay in the pool as the fee.
pub open spec fn fee_kept() -> nat {
    997
}

/// The scale of the fee: one thousand.
pub open spec fn fee_scale() -> nat {
    1000
}

/// Whether a computed result says the same as an outcome stated over
/// natural numbers: the same error, or an amount that spells the number.
pub open spec fn agrees(r: Result<Amount, Error>, o: Result<nat, Error>) -> bool {
    match r {
        Ok(a) => o == Ok::<nat, Error>(a@),
        Err(e) => o == Err::<nat, Error>(e),
    }
}

/// The two tokens of a pair in their standing order, lower rank first.
/// Identical tokens are refused, and so is a pair with the null identity.
pub open spec fn sorted_tokens(a: Address, b: Address) -> Result<(Address, Address), Error> {
    if a == b {
        Err(Error::IdenticalAddresses)
    } else if a@ == 0 || b@ == 0 {
        Err(Error::ZeroAddress)
    } else if a@ < b@ {
        Ok((a, b))
    } else {
        Ok((b, a))
    }
}

/// What `amount_a` of one token is worth in the other at the pool's present
/// ratio, rounded down.
pub open spec fn quote_outcome(amount_a: nat, reserve_a: nat, reserve_b: nat) -> Result<
    nat,
    Error,
> {
    if amount_a == 0 {
        Err(Error::InsufficientAmount)
    } else if reserve_a == 0 || reserve_b == 0 {
        Err(Error::InsufficientLiquidity)
    } else if amount_a * reserve_b >= modulus() {
        Err(Error::Overflow)
    } else {
        Ok(amount_a * reserve_b / reserve_a)
    }
}

/// What a trader receives for `amount_in`, after the fee, rounded down.
pub open spec fn amount_out_outcome(amount_in: nat, reserve_in: nat, reserve_out: nat) -> Result<
    nat,
    Error,
> {
    if amount_in == 0 {
        Err(Error::InsufficientInputAmount)
    } else if reserve_in == 0 || reserve_out == 0 {
        Err(Error::InsufficientLiquidity)
    } else if amount_in * fee_kept() * reserve_out >= modulus() || reserve_in * fee_scale()
        + amount_in * fee_kept() >= modulus() {
        Err(Error::Overflow)
    } else {
        Ok(amount_in * fee_kept() * reserve_out / (reserve_in * fee_scale() + amount_in * fee_kept()))
    }
}

/// The quotient of two natural numbers, rounded up.
pub open spec fn div_ceil(n: nat, d: nat) -> nat
    recommends
        d > 0,
{
    if n % d == 0 {
        n / d
    } else {
        n / d + 1
    }
}

/// What a trader must pay to receive `amount_out`, fee included, rounded up.
pub open spec fn amount_in_outcome(amount_out: nat, reserve_in: nat, reserve_out: nat) -> Result<
    nat,
    Error,
> {
    if amount_out == 0 {
        Err(Error::InsufficientOutputAmount)
    } else if reserve_in == 0 || reserve_out == 0 {
        Err(Error::InsufficientLiquidity)
    } else if amount_out >= reserve_out {
        Err(Error::InsufficientOutputAmount)
    } else if reserve_in * amount_out * fee_scale() >= modulus() || (reserve_out - amount_out)
        * fee_kept() >= modulus() || div_ceil(
        reserve_in * amount_out * fee_scale(),
        ((reserve_out - amount_out) * fee_kept()) as nat,
    ) >= modulus() {
        Err(Error::Overflow)
    } else {
        Ok(
            div_ceil(
                reserve_in * amount_out * fee_scale(),
                ((reserve_out - amount_out) * fee_kept()) as nat,
            ),
        )
    }
}

/// Puts two tokens in their standing order.
pub fn sort_tokens(token_a: Address, token_b: Address) -> (r: Result<(Address, Address), Error>)
    ensures
        r == sorted_tokens(token_a, token_b),
{
    if token_a.same(&token_b) {
        Err(Error::IdenticalAddresses)
    } else if token_a.is_zero() || token_b.is_zero() {
        Err(Error::ZeroAddress)
    } else if token_a.lt(&token_b) {
        Ok((token_a, token_b))
    } else {
        Ok((token_b, token_a))
    }
}

/// Quotes `amount_a` of one token in the other, at the ratio of the
/// reserves.
pub fn quote(amount_a: Amount, reserve_a: Amount, reserve_b: Amount) -> (r: Result<Amount, Error>)
    ensures
        agrees(r, quote_outcome(amount_a@, reserve_a@, reserve_b@)),
{
    if amount_a.is_zero() {
        return Err(Error::InsufficientAmount);
    }
    if reserve_a.is_zero() || reserve_b.is_zero() {
        return Err(Error::InsufficientLiquidity);
    }
    match amount_a.checked_mul(reserve_b) {
        None => Err(Error::Overflow),
        Some(product) => match product.checked_div(reserve_a) {
            Some(q) => Ok(q),
            None => Err(Error::InsufficientLiquidity),
        },
    }
}

/// The output that `amount_in` buys from a pool with the given reserves.
pub fn get_amount_out(amount_in: Amount, reserve_in: Amount, reserve_out: Amount) -> (r: Result<
    Amount,
    Error,
>)
    ensures
        agrees(r, amount_out_outcome(amount_in@, reserve_in@, reserve_out@)),
{
    if amount_in.is_zero() {
        return Err(Error::InsufficientInputAmount);
    }
    if reserve_in.is_zero() || reserve_out.is_zero() {
        return Err(Error::InsufficientLiquidity);
    }
    proof {
        lemma_amount_out_overflow(amount_in@, reserve_in@, reserve_out@);
    }
    let with_fee = match amount_in.checked_mul(Amount::from_u64(997)) {
        Some(x) => x,
        None => { return Err(Error::Overflow); },
    };
    let numerator = match with_fee.checked_mul(reserve_out) {
        Some(x) => x,
        None => { return Err(Error::Overflow); },
    };
    let scaled = match reserve_in.checked_mul(Amount::from_u64(1000)) {
        Some(x) => x,
        None => { return Err(Error::Overflow); },
    };
    let denominator = match scaled.checked_add(with_fee) {
        Some(x) => x,
        None => { return Err(Error::Overflow); },
    };
    match numerator.checked_div(denominator) {
        Some(q) => Ok(q),
        None => Err(Error::InsufficientLiquidity),
    }
}

/// Divides and rounds up, where the divisor is not zero and the result
/// fits in 256 bits.
pub fn ceil_div(n: Amount, d: Amount) -> (r: Option<Amount>)
    ensures
        match r {
            Some(q) => d@ > 0 && q@ == div_ceil(n@, d@),
            None => d@ == 0 || div_ceil(n@, d@) >= modulus(),
        },
{
    if d.is_zero() {
        return None;
    }
    proof {
        lemma_floor_times_divisor(n@, d@);
    }
    let floor = match n.checked_div(d) {
        Some(x) => x,
        None => { return None; },
    };
    let back = match floor.checked_mul(d) {
        Some(x) => x,
        None => { return None; },
    };
    proof {
        crate::amount::lemma_amount_injective(back, n);
    }
    if back == n {
        Some(floor)
    } else {
        floor.checked_add(Amount::from_u64(1))
    }
}

/// The two numbers whose quotient is the input that buys `amount_out`:
/// what the pool is owed, scaled by a thousand, and what is left of the
/// output reserve, net of the fee.
fn amount_in_parts(amount_out: Amount, reserve_in: Amount, left: Amount) -> (r: Option<
    (Amount, Amount),
>)
    ensures
        match r {
            Some((n, d)) => n@ == reserve_in@ * amount_out@ * fee_scale() && d@ == left@
                * fee_kept(),
            None => reserve_in@ * amount_out@ * fee_scale() >= modulus() || left@ * fee_kept()
                >= modulus(),
        },
{
    proof {
        lemma_amount_in_overflow(amount_out@, reserve_in@, 0);
    }
    let paid = match reserve_in.checked_mul(amount_out) {
        Some(x) => x,
        None => { return None; },
    };
    let numerator = match paid.checked_mul(Amount::from_u64(1000)) {
        Some(x) => x,
        None => { return None; },
    };
    let denominator = match left.checked_mul(Amount::from_u64(997)) {
        Some(x) => x,
        None => { return None; },
    };
    Some((numerator, denominator))
}

/// The input that buys `amount_out` from a pool with the given reserves.
pub fn get_amount_in(amount_out: Amount, reserve_in: Amount, reserve_out: Amount) -> (r: Result<
    Amount,
    Error,
>)
    ensures
        agrees(r, amount_in_outcome(amount_out@, reserve_in@, reserve_out@)),
{
    if amount_out.is_zero() {
        return Err(Error::InsufficientOutputAmount);
    }
    if reserve_in.is_zero() || reserve_out.is_zero() {
        return Err(Error::InsufficientLiquidity);
    }
    let left = match reserve_out.checked_sub(amount_out) {
        Some(x) => x,
        None => { return Err(Error::InsufficientOutputAmount); },
    };
    if left.is_zero() {
        return Err(Error::InsufficientOutputAmount);
    }
    let (numerator, denominator) = match amount_in_parts(amount_out, reserve_in, left) {
        Some(x) => x,
        None => { return Err(Error::Overflow); },
    };
    match ceil_div(numerator, denominator) {
        Some(x) => Ok(x),
        None => Err(Error::Overflow),
    }
}

/// As many whole divisors as fit under a number are at most the quotient,
/// and the quotient is less than any count of divisors that exceeds the
/// number.
pub proof fn lemma_quotient_bounds(k: nat, n: nat, d: nat)
    requires
        d > 0,
    ensures
        k * d <= n ==> k <= n / d,
        n < (k + 1) * d ==> n / d <= k,
{
    lemma_floor_times_divisor(n, d);
    if k * d <= n {
        vstd::arithmetic::div_mod::lemma_div_is_ordered((k * d) as int, n as int, d as int);
        vstd::arithmetic::div_mod::lemma_div_by_multiple(k as int, d as int);
    }
    if n < (k + 1) * d {
        let q = n / d;
        assert(q <= k) by (nonlinear_arith)
            requires
                q * d <= n,
                n < (k + 1) * d,
                d > 0,
        ;
    }
}

/// The quotient rounded up, times the divisor, is no less than the
/// dividend.
pub proof fn lemma_ceil_times_divisor(n: nat, d: nat)
    requires
        d > 0,
    ensures
        div_ceil(n, d) * d >= n,
{
    lemma_floor_times_divisor(n, d);
    let q = n / d;
    let rest = n % d;
    if rest != 0 {
        assert(rest < d) by {
            vstd::arithmetic::div_mod::lemma_mod_bound(n as int, d as int);
        }
        assert((q + 1) * d >= n) by (nonlinear_arith)
            requires
                q * d + rest == n,
                rest < d,
        ;
    }
}

/// A quote is the amount times the ratio of the reserves, rounded down;
/// and quoting the quote back never gives more than the amount: no value
/// comes of a round trip.
pub proof fn lemma_quote_round_trip(x: nat, reserve0: nat, reserve1: nat)
    ensures
        match quote_outcome(x, reserve0, reserve1) {
            Ok(y) => y == x * reserve1 / reserve0 && match quote_outcome(y, reserve1, reserve0) {
                Ok(z) => z <= x,
                Err(_) => true,
            },
            Err(_) => true,
        },
{
    match quote_outcome(x, reserve0, reserve1) {
        Ok(y) => {
            lemma_floor_times_divisor(x * reserve1, reserve0);
            assert(y * reserve0 <= x * reserve1);
            assert(y * reserve0 < (x + 1) * reserve1) by (nonlinear_arith)
                requires
                    y * reserve0 <= x * reserve1,
                    reserve1 > 0,
            ;
            lemma_quotient_bounds(x, y * reserve0, reserve1);
        },
        Err(_) => {},
    }
}

/// What a trade pays is less than the reserve it is paid from.
pub proof fn lemma_amount_out_below_reserve(amount_in: nat, reserve_in: nat, reserve_out: nat)
    ensures
        match amount_out_outcome(amount_in, reserve_in, reserve_out) {
            Ok(out) => out < reserve_out,
            Err(_) => true,
        },
{
    match amount_out_outcome(amount_in, reserve_in, reserve_out) {
        Ok(out) => {
            let n = amount_in * fee_kept() * reserve_out;
            let d = reserve_in * fee_scale() + amount_in * fee_kept();
            assert(n < reserve_out * d) by (nonlinear_arith)
                requires
                    n == amount_in * 997 * reserve_out,
                    d == reserve_in * 1000 + amount_in * 997,
                    reserve_in > 0,
                    reserve_out > 0,
            ;
            assert(n < ((reserve_out - 1) as nat + 1) * d);
            lemma_quotient_bounds((reserve_out - 1) as nat, n, d);
        },
        Err(_) => {},
    }
}

/// The input that is asked for an output buys at least that output: the
/// pool is never paid too little.
pub proof fn lemma_amount_in_covers_out(amount_out: nat, reserve_in: nat, reserve_out: nat)
    ensures
        match amount_in_outcome(amount_out, reserve_in, reserve_out) {
            Ok(needed) => match amount_out_outcome(needed, reserve_in, reserve_out) {
                Ok(out) => out >= amount_out,
                Err(_) => true,
            },
            Err(_) => true,
        },
{
    match amount_in_outcome(amount_out, reserve_in, reserve_out) {
        Ok(needed) => {
            match amount_out_outcome(needed, reserve_in, reserve_out) {
                Ok(out) => {
                    let n = reserve_in * amount_out * fee_scale();
                    let d = ((reserve_out - amount_out) * fee_kept()) as nat;
                    lemma_ceil_times_divisor(n, d);
                    let top = needed * fee_kept() * reserve_out;
                    let bottom = reserve_in * fee_scale() + needed * fee_kept();
                    assert(amount_out * bottom <= top) by (nonlinear_arith)
                        requires
                            needed * d >= n,
                            n == reserve_in * amount_out * 1000,
                            d == (reserve_out - amount_out) * 997,
                            amount_out < reserve_out,
                            top == needed * 997 * reserve_out,
                            bottom == reserve_in * 1000 + needed * 997,
                    ;
                    lemma_quotient_bounds(amount_out, top, bottom);
                },
                Err(_) => {},
            }
        },
        Err(_) => {},
    }
}

/// A quotient times its divisor falls short of the dividend by the
/// remainder, and so never exceeds it.
pub proof fn lemma_floor_times_divisor(n: nat, d: nat)
    requires
        d > 0,
    ensures
        (n / d) * d + n % d == n,
        (n / d) * d <= n,
        n < (n / d + 1) * d,
        ((n / d) * d == n) <==> (n % d == 0),
{
    vstd::arithmetic::div_mod::lemma_fundamental_div_mod(n as int, d as int);
    vstd::arithmetic::div_mod::lemma_mod_bound(n as int, d as int);
    let q = n / d;
    let rest = n % d;
    assert(q * d == d * q) by (nonlinear_arith);
    assert(n < (q + 1) * d) by (nonlinear_arith)
        requires
            q * d + rest == n,
            rest < d,
    ;
}

/// Where a factor of the numerator or a term of the denominator overflows,
/// the numerator or the denominator does.
proof fn lemma_amount_out_overflow(amount_in: nat, reserve_in: nat, reserve_out: nat)
    requires
        reserve_out > 0,
    ensures
        amount_in * fee_kept() <= amount_in * fee_kept() * reserve_out,
        reserve_in * fee_scale() <= reserve_in * fee_scale() + amount_in * fee_kept(),
{
    assert(amount_in * fee_kept() <= amount_in * fee_kept() * reserve_out) by (nonlinear_arith)
        requires
            reserve_out > 0,
    ;
}

/// The product of the input reserve and the output asked for is no larger
/// than a thousand times itself.
proof fn lemma_amount_in_overflow(amount_out: nat, reserve_in: nat, reserve_out: nat)
    ensures
        reserve_in * amount_out <= reserve_in * amount_out * fee_scale(),
{
    assert(reserve_in * amount_out <= reserve_in * amount_out * fee_scale()) by (nonlinear_arith);
}

/// The reserves of the pool of two tokens, that of `token_a` first.
pub open spec fn reserves_for(pairs: Seq<PairState>, token_a: Address, token_b: Address) -> Result<
    (nat, nat),
    Error,
> {
    match crate::factory::pair_for(pairs, token_a, token_b) {
        Err(e) => Err(e),
        Ok(i) => if token_a == pairs[i].token0 {
            Ok((pairs[i].reserve0, pairs[i].reserve1))
        } else {
            Ok((pairs[i].reserve1, pairs[i].reserve0))
        },
    }
}

/// The numbers that a list of amounts spells.
pub open spec fn values(amounts: Seq<Amount>) -> Seq<nat> {
    amounts.map_values(|a: Amount| a@)
}

/// What `amount_in` becomes along the first `hops` hops of a path: the
/// amount itself, then what each hop pays for what the hop before it paid.
pub open spec fn amounts_out(pairs: Seq<PairState>, amount_in: nat, path: Seq<Address>, hops: nat)
    -> Result<Seq<nat>, Error>
    decreases hops,
{
    if hops == 0 {
        Ok(seq![amount_in])
    } else {
        match amounts_out(pairs, amount_in, path, (hops - 1) as nat) {
            Err(e) => Err(e),
            Ok(v) => match reserves_for(pairs, path[hops - 1], path[hops as int]) {
                Err(e) => Err(e),
                Ok((reserve_in, reserve_out)) => match amount_out_outcome(
                    v.last(),
                    reserve_in,
                    reserve_out,
                ) {
                    Err(e) => Err(e),
                    Ok(out) => Ok(v.push(out)),
                },
            },
        }
    }
}

/// The amounts along a whole path, from a given input. A path names at
/// least two tokens.
pub open spec fn amounts_out_outcome(pairs: Seq<PairState>, amount_in: nat, path: Seq<Address>)
    -> Result<Seq<nat>, Error> {
    if path.len() < 2 {
        Err(Error::InvalidPath)
    } else {
        amounts_out(pairs, amount_in, path, (path.len() - 1) as nat)
    }
}

/// What must go in at the token number `from` of a path, and at each token
/// after it, for `amount_out` to come out at the end.
pub open spec fn amounts_in(pairs: Seq<PairState>, amount_out: nat, path: Seq<Address>, from: int)
    -> Result<Seq<nat>, Error>
    decreases path.len() - from,
{
    if from >= path.len() - 1 {
        Ok(seq![amount_out])
    } else {
        match amounts_in(pairs, amount_out, path, from + 1) {
            Err(e) => Err(e),
            Ok(v) => match reserves_for(pairs, path[from], path[from + 1]) {
                Err(e) => Err(e),
                Ok((reserve_in, reserve_out)) => match amount_in_outcome(
                    v.first(),
                    reserve_in,
                    reserve_out,
                ) {
                    Err(e) => Err(e),
                    Ok(needed) => Ok(seq![needed] + v),
                },
            },
        }
    }
}

/// The amounts along a whole path, for a given output. A path names at
/// least two tokens.
pub open spec fn amounts_in_outcome(pairs: Seq<PairState>, amount_out: nat, path: Seq<Address>)
    -> Result<Seq<nat>, Error> {
    if path.len() < 2 {
        Err(Error::InvalidPath)
    } else {
        amounts_in(pairs, amount_out, path, 0)
    }
}

/// A hop that fails makes every longer stretch of the path fail in the
/// same way.
pub proof fn lemma_amounts_out_fail(
    pairs: Seq<PairState>,
    amount_in: nat,
    path: Seq<Address>,
    failed: nat,
    hops: nat,
)
    requires
        failed <= hops,
        amounts_out(pairs, amount_in, path, failed) is Err,
    ensures
        amounts_out(pairs, amount_in, path, hops) == amounts_out(pairs, amount_in, path, failed),
    decreases hops,
{
    if failed < hops {
        lemma_amounts_out_fail(pairs, amount_in, path, failed, (hops - 1) as nat);
    }
}

/// A hop that fails makes every stretch of the path that starts before it
/// fail in the same way.
pub proof fn lemma_amounts_in_fail(
    pairs: Seq<PairState>,
    amount_out: nat,
    path: Seq<Address>,
    failed: int,
    from: int,
)
    requires
        0 <= from <= failed,
        amounts_in(pairs, amount_out, path, failed) is Err,
    ensures
        amounts_in(pairs, amount_out, path, from) == amounts_in(pairs, amount_out, path, failed),
    decreases failed - from,
{
    if from < failed {
        lemma_amounts_in_fail(pairs, amount_out, path, failed, from + 1);
    }
}

/// The amounts have one entry for each token that they cover.
pub proof fn lemma_amounts_out_len(
    pairs: Seq<PairState>,
    amount_in: nat,
    path: Seq<Address>,
    hops: nat,
)
    ensures
        match amounts_out(pairs, amount_in, path, hops) {
            Ok(v) => v.len() == hops + 1 && v[0] == amount_in,
            Err(_) => true,
        },
    decreases hops,
{
    if hops > 0 {
        lemma_amounts_out_len(pairs, amount_in, path, (hops - 1) as nat);
    }
}

/// The identity of the pool of two tokens, given in either order.
pub fn pair_for(factory: &Factory, token_a: Address, token_b: Address) -> (r: Result<
    Address,
    Error,
>)
    ensures
        match crate::factory::pair_for(factory@, token_a, token_b) {
            Ok(i) => 0 <= i < factory@.len() && r == Ok::<Address, Error>(factory@[i].address),
            Err(e) => r == Err::<Address, Error>(e),
        },
{
    match factory.pair_for(token_a, token_b) {
        Ok(i) => {
            proof {
                assert(factory@[i as int] == factory.pairs@[i as int]@);
            }
            Ok(factory.pairs[i].address)
        },
        Err(e) => Err(e),
    }
}

/// Reads the reserves of the pool of two tokens, that of `token_a` first.
pub fn get_reserves(factory: &Factory, token_a: Address, token_b: Address) -> (r: Result<
    (Amount, Amount),
    Error,
>)
    ensures
        match reserves_for(factory@, token_a, token_b) {
            Ok((a, b)) => r is Ok && r->Ok_0.0@ == a && r->Ok_0.1@ == b,
            Err(e) => r == Err::<(Amount, Amount), Error>(e),
        },
{
    let i = match factory.pair_for(token_a, token_b) {
        Ok(i) => i,
        Err(e) => { return Err(e); },
    };
    let p = factory.pairs[i];
    proof {
        assert(factory@[i as int] == p@);
    }
    if token_a.same(&p.token0) {
        Ok((p.reserve0, p.reserve1))
    } else {
        Ok((p.reserve1, p.reserve0))
    }
}

/// Computes the amounts along a path from a given input.
pub fn get_amounts_out(factory: &Factory, amount_in: Amount, path: &Vec<Address>) -> (r: Result<
    Vec<Amount>,
    Error,
>)
    ensures
        match amounts_out_outcome(factory@, amount_in@, path@) {
            Ok(v) => r is Ok && values(r->Ok_0@) == v && r->Ok_0@.len() == path@.len(),
            Err(e) => r is Err && r->Err_0 == e,
        },
{
    let n = path.len();
    if n < 2 {
        return Err(Error::InvalidPath);
    }
    let mut amounts: Vec<Amount> = Vec::new();
    amounts.push(amount_in);
    proof {
        assert(values(amounts@) =~= seq![amount_in@]);
    }
    let mut i: usize = 1;
    while i < n
        invariant
            n == path@.len(),
            1 <= i <= n,
            amounts@.len() == i,
            amounts_out(factory@, amount_in@, path@, (i - 1) as nat) == Ok::<Seq<nat>, Error>(
                values(amounts@),
            ),
        decreases n - i,
    {
        let ghost before = amounts@;
        let (reserve_in, reserve_out) = match get_reserves(factory, path[i - 1], path[i]) {
            Ok(x) => x,
            Err(e) => {
                proof {
                    lemma_amounts_out_fail(factory@, amount_in@, path@, i as nat, (n - 1) as nat);
                }
                return Err(e);
            },
        };
        let out = match get_amount_out(amounts[i - 1], reserve_in, reserve_out) {
            Ok(x) => x,
            Err(e) => {
                proof {
                    lemma_amounts_out_fail(factory@, amount_in@, path@, i as nat, (n - 1) as nat);
                }
                return Err(e);
            },
        };
        amounts.push(out);
        proof {
            assert(values(amounts@) =~= values(before).push(out@));
        }
        i = i + 1;
    }
    Ok(amounts)
}

/// Computes the amounts along a path for a given output.
pub fn get_amounts_in(factory: &Factory, amount_out: Amount, path: &Vec<Address>) -> (r: Result<
    Vec<Amount>,
    Error,
>)
    ensures
        match amounts_in_outcome(factory@, amount_out@, path@) {
            Ok(v) => r is Ok && values(r->Ok_0@) == v && r->Ok_0@.len() == path@.len(),
            Err(e) => r is Err && r->Err_0 == e,
        },
{
    let n = path.len();
    if n < 2 {
        return Err(Error::InvalidPath);
    }
    let mut amounts: Vec<Amount> = Vec::new();
    while amounts.len() < n
        invariant
            amounts@.len() <= n,
            forall|j: int| 0 <= j < amounts@.len() ==> amounts@[j] == amount_out,
        decreases n - amounts@.len(),
    {
        amounts.push(amount_out);
    }
    let mut k: usize = n - 1;
    proof {
        assert(values(amounts@.subrange(k as int, n as int)) =~= seq![amount_out@]);
    }
    while k > 0
        invariant
            n == path@.len(),
            k < n,
            amounts@.len() == n,
            amounts_in(factory@, amount_out@, path@, k as int) == Ok::<Seq<nat>, Error>(
                values(amounts@.subrange(k as int, n as int)),
            ),
        decreases k,
    {
        let ghost before = amounts@;
        let (reserve_in, reserve_out) = match get_reserves(factory, path[k - 1], path[k]) {
            Ok(x) => x,
            Err(e) => {
                proof {
                    lemma_amounts_in_fail(factory@, amount_out@, path@, k - 1, 0);
                }
                return Err(e);
            },
        };
        let needed = match get_amount_in(amounts[k], reserve_in, reserve_out) {
            Ok(x) => x,
            Err(e) => {
                proof {
                    lemma_amounts_in_fail(factory@, amount_out@, path@, k - 1, 0);
                }
                return Err(e);
            },
        };
        amounts[k - 1] = needed;
        proof {
            assert(amounts@.subrange(k as int, n as int) =~= before.subrange(k as int, n as int));
            assert(values(amounts@.subrange(k - 1, n as int)) =~= seq![needed@] + values(
                before.subrange(k as int, n as int),
            ));
        }
        k = k - 1;
    }
    proof {
        assert(amounts@.subrange(0, n as int) =~= amounts@);
    }
    Ok(amounts)
}

} // verus!
