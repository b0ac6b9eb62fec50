use uniswap_v2_router::address::Address;
use uniswap_v2_router::amount::Amount;
use uniswap_v2_router::error::Error;
use uniswap_v2_router::exchange::Exchange;
use uniswap_v2_router::pair::{burn_amounts, check_swap, mint_liquidity, MINIMUM_LIQUIDITY};

fn amt(x: u64) -> Amount {
    Amount::from_u64(x)
}

fn id(x: u64) -> Address {
    Address::from_u64(x)
}

const T0: u64 = 11;
const T1: u64 = 22;
const ALICE: u64 = 1001;
const BOB: u64 = 1002;

/// An exchange with one empty pool, and the pool's identity.
fn one_pool() -> (Exchange, Address) {
    let mut ex = Exchange::new();
    let i = ex.factory.create_pair(id(T1), id(T0)).unwrap();
    assert_eq!(i, 0);
    let pool = ex.factory.pair(0).unwrap().address;
    (ex, pool)
}

/// An exchange with one pool that holds `x` and `y` after a first deposit
/// by Alice.
fn funded_pool(x: u64, y: u64) -> (Exchange, Address) {
    let (mut ex, pool) = one_pool();
    ex.bank.mint(id(T0), pool, amt(x)).unwrap();
    ex.bank.mint(id(T1), pool, amt(y)).unwrap();
    ex.mint(0, id(ALICE), 1).unwrap();
    (ex, pool)
}

fn product(ex: &Exchange) -> u128 {
    let (r0, r1, _) = ex.factory.pair(0).unwrap().get_reserves();
    r0.to_u64().unwrap() as u128 * r1.to_u64().unwrap() as u128
}

#[test]
fn a_pool_is_registered_once_with_its_tokens_in_order() {
    let (mut ex, pool) = one_pool();
    let p = ex.factory.pair(0).unwrap();
    assert_eq!(p.token0, id(T0));
    assert_eq!(p.token1, id(T1));
    assert_eq!(p.get_reserves(), (amt(0), amt(0), 0));
    assert_eq!(pool, Address { h0: u64::MAX, h1: 0, h2: 0, h3: 0 });
    assert_eq!(ex.factory.create_pair(id(T0), id(T1)), Ok(0));
    assert_eq!(ex.factory.all_pairs_length(), 1);
    assert_eq!(ex.factory.create_pair(id(T0), id(33)), Ok(1));
    assert_eq!(ex.factory.pair(1).unwrap().address, Address { h0: u64::MAX, h1: 0, h2: 0, h3: 1 });
    assert_eq!(ex.factory.get_pair(id(33), id(T0)), Some(1));
    assert_eq!(ex.factory.get_pair(id(33), id(T1)), None);
    assert_eq!(ex.factory.pair_for(id(33), id(T1)), Err(Error::PairNotFound));
    assert_eq!(ex.factory.create_pair(id(T0), id(T0)), Err(Error::IdenticalAddresses));
    assert_eq!(ex.factory.create_pair(id(T0), id(0)), Err(Error::ZeroAddress));
    assert_eq!(ex.factory.all_pairs_length(), 2);
    assert!(ex.factory.pair(2).is_none());
}

#[test]
fn first_deposit_earns_the_geometric_mean_less_the_lock() {
    assert_eq!(MINIMUM_LIQUIDITY, 100);
    assert_eq!(mint_liquidity(amt(300), amt(400), amt(0), amt(0), amt(0)), Ok(amt(246)));
    let (mut ex, pool) = one_pool();
    ex.bank.mint(id(T0), pool, amt(300)).unwrap();
    ex.bank.mint(id(T1), pool, amt(400)).unwrap();
    assert_eq!(ex.mint(0, id(ALICE), 77), Ok(amt(246)));
    assert_eq!(ex.bank.balance_of(pool, id(ALICE)), amt(246));
    assert_eq!(ex.bank.balance_of(pool, Address::zero()), amt(100));
    assert_eq!(ex.bank.total_supply(pool), amt(346));
    assert_eq!(ex.factory.pair(0).unwrap().get_reserves(), (amt(300), amt(400), 77));
}

#[test]
fn first_deposit_must_exceed_the_lock() {
    assert_eq!(
        mint_liquidity(amt(100), amt(100), amt(0), amt(0), amt(0)),
        Err(Error::InsufficientLiquidityMinted)
    );
    assert_eq!(mint_liquidity(amt(101), amt(101), amt(0), amt(0), amt(0)), Ok(amt(1)));
    assert_eq!(
        mint_liquidity(amt(0), amt(0), amt(0), amt(0), amt(0)),
        Err(Error::InsufficientLiquidityMinted)
    );
    assert_eq!(
        mint_liquidity(Amount::max_value(), amt(2), amt(0), amt(0), amt(0)),
        Err(Error::Overflow)
    );
    let (mut ex, pool) = one_pool();
    ex.bank.mint(id(T0), pool, amt(10)).unwrap();
    ex.bank.mint(id(T1), pool, amt(10)).unwrap();
    assert_eq!(ex.mint(0, id(ALICE), 1), Err(Error::InsufficientLiquidityMinted));
    assert_eq!(ex.bank.total_supply(pool), amt(0));
    assert_eq!(ex.factory.pair(0).unwrap().get_reserves(), (amt(0), amt(0), 0));
}

#[test]
fn later_deposits_earn_the_larger_proportion() {
    assert_eq!(mint_liquidity(amt(150), amt(200), amt(300), amt(400), amt(346)), Ok(amt(173)));
    assert_eq!(mint_liquidity(amt(75), amt(100), amt(300), amt(400), amt(346)), Ok(amt(86)));
    assert_eq!(mint_liquidity(amt(30), amt(400), amt(300), amt(400), amt(346)), Ok(amt(346)));
    assert_eq!(
        mint_liquidity(amt(0), amt(0), amt(300), amt(400), amt(346)),
        Err(Error::InsufficientLiquidityMinted)
    );
    assert_eq!(
        mint_liquidity(amt(5), amt(5), amt(0), amt(400), amt(346)),
        Err(Error::InsufficientLiquidity)
    );
    assert_eq!(
        mint_liquidity(Amount::max_value(), amt(5), amt(300), amt(400), amt(346)),
        Err(Error::Overflow)
    );
    let (mut ex, pool) = funded_pool(300, 400);
    ex.bank.mint(id(T0), pool, amt(150)).unwrap();
    ex.bank.mint(id(T1), pool, amt(200)).unwrap();
    assert_eq!(ex.mint(0, id(BOB), 5), Ok(amt(173)));
    assert_eq!(ex.bank.balance_of(pool, id(BOB)), amt(173));
    assert_eq!(ex.bank.balance_of(pool, Address::zero()), amt(100));
    assert_eq!(ex.bank.total_supply(pool), amt(519));
    assert_eq!(ex.factory.pair(0).unwrap().get_reserves(), (amt(450), amt(600), 5));
}

#[test]
fn redemption_pays_the_shares_part() {
    assert_eq!(burn_amounts(amt(246), amt(300), amt(400), amt(346)), Ok((amt(213), amt(284))));
    assert_eq!(
        burn_amounts(amt(0), amt(300), amt(400), amt(346)),
        Err(Error::InsufficientLiquidityBurned)
    );
    assert_eq!(
        burn_amounts(amt(1), amt(300), amt(400), amt(346)),
        Err(Error::InsufficientLiquidityBurned)
    );
    assert_eq!(
        burn_amounts(amt(1), amt(300), amt(400), amt(0)),
        Err(Error::InsufficientLiquidityBurned)
    );
    assert_eq!(
        burn_amounts(Amount::max_value(), amt(300), amt(400), amt(346)),
        Err(Error::Overflow)
    );
    let (mut ex, pool) = funded_pool(300, 400);
    ex.bank.transfer(pool, id(ALICE), pool, amt(246)).unwrap();
    assert_eq!(ex.burn(0, id(BOB), 9), Ok((amt(213), amt(284))));
    assert_eq!(ex.bank.balance_of(id(T0), id(BOB)), amt(213));
    assert_eq!(ex.bank.balance_of(id(T1), id(BOB)), amt(284));
    assert_eq!(ex.bank.balance_of(pool, pool), amt(0));
    assert_eq!(ex.bank.total_supply(pool), amt(100));
    assert_eq!(ex.factory.pair(0).unwrap().get_reserves(), (amt(87), amt(116), 9));
}

#[test]
fn redemption_of_nothing_fails_and_changes_nothing() {
    let (mut ex, pool) = funded_pool(300, 400);
    assert_eq!(ex.burn(0, id(BOB), 9), Err(Error::InsufficientLiquidityBurned));
    assert_eq!(ex.bank.total_supply(pool), amt(346));
    assert_eq!(ex.factory.pair(0).unwrap().get_reserves(), (amt(300), amt(400), 1));
    assert_eq!(ex.burn(3, id(BOB), 9), Err(Error::PairNotFound));
    assert_eq!(ex.mint(3, id(BOB), 9), Err(Error::PairNotFound));
    assert_eq!(ex.swap(3, amt(1), amt(0), id(BOB), 9), Err(Error::PairNotFound));
}

#[test]
fn a_trade_settles_where_the_product_holds() {
    assert_eq!(check_swap(amt(1000), amt(1000), amt(1100), amt(910), amt(0), amt(90)), Ok(()));
    assert_eq!(
        check_swap(amt(1000), amt(1000), amt(1100), amt(909), amt(0), amt(91)),
        Err(Error::K)
    );
    assert_eq!(
        check_swap(amt(1000), amt(1000), amt(1000), amt(910), amt(0), amt(90)),
        Err(Error::InsufficientInputAmount)
    );
    assert_eq!(
        check_swap(amt(1000), amt(1000), Amount::max_value(), amt(910), amt(0), amt(90)),
        Err(Error::Overflow)
    );
    let (mut ex, pool) = funded_pool(1000, 1000);
    ex.bank.mint(id(T0), pool, amt(100)).unwrap();
    assert_eq!(ex.swap(0, amt(0), amt(90), id(BOB), 4), Ok(()));
    assert_eq!(ex.bank.balance_of(id(T1), id(BOB)), amt(90));
    assert_eq!(ex.bank.balance_of(id(T1), pool), amt(910));
    assert_eq!(ex.factory.pair(0).unwrap().get_reserves(), (amt(1100), amt(910), 4));
}

#[test]
fn a_trade_that_lowers_the_product_is_refused() {
    let (mut ex, pool) = funded_pool(1000, 1000);
    ex.bank.mint(id(T0), pool, amt(100)).unwrap();
    assert_eq!(ex.swap(0, amt(0), amt(91), id(BOB), 4), Err(Error::K));
    assert_eq!(ex.bank.balance_of(id(T1), id(BOB)), amt(0));
    assert_eq!(ex.bank.balance_of(id(T1), pool), amt(1000));
    assert_eq!(ex.bank.balance_of(id(T0), pool), amt(1100));
    assert_eq!(ex.factory.pair(0).unwrap().get_reserves(), (amt(1000), amt(1000), 1));
}

#[test]
fn a_trade_needs_an_output_an_input_and_reserves() {
    let (mut ex, pool) = funded_pool(1000, 1000);
    assert_eq!(ex.swap(0, amt(0), amt(0), id(BOB), 4), Err(Error::InsufficientOutputAmount));
    assert_eq!(ex.swap(0, amt(1000), amt(0), id(BOB), 4), Err(Error::InsufficientLiquidity));
    assert_eq!(ex.swap(0, amt(0), amt(1000), id(BOB), 4), Err(Error::InsufficientLiquidity));
    assert_eq!(ex.swap(0, amt(0), amt(5), id(BOB), 4), Err(Error::InsufficientInputAmount));
    assert_eq!(ex.bank.balance_of(id(T1), pool), amt(1000));
    assert_eq!(ex.bank.balance_of(id(T1), id(BOB)), amt(0));
}

#[test]
fn the_product_of_the_reserves_never_falls_over_a_run_of_trades() {
    let (mut ex, pool) = funded_pool(5000, 7000);
    let mut last = product(&ex);
    assert_eq!(last, 35_000_000);
    let inputs: [(u64, bool); 8] =
        [(100, true), (250, false), (1, true), (999, false), (40, true), (3, false), (700, true), (2, false)];
    for (n, (amount_in, zero_for_one)) in inputs.iter().enumerate() {
        let p = ex.factory.pair(0).unwrap();
        let (r0, r1, _) = p.get_reserves();
        let (token_in, reserve_in, reserve_out) =
            if *zero_for_one { (T0, r0, r1) } else { (T1, r1, r0) };
        let out =
            uniswap_v2_router::library::get_amount_out(amt(*amount_in), reserve_in, reserve_out)
                .unwrap();
        ex.bank.mint(id(token_in), pool, amt(*amount_in)).unwrap();
        let (out0, out1) = if *zero_for_one { (amt(0), out) } else { (out, amt(0)) };
        let r = ex.swap(0, out0, out1, id(BOB), n as u128 + 2);
        if out.is_zero() {
            assert_eq!(r, Err(Error::InsufficientOutputAmount));
            // what came in stays with the pool until it next settles
            continue;
        }
        assert_eq!(r, Ok(()));
        let now = product(&ex);
        assert!(now >= last);
        last = now;
    }
    assert!(last > 35_000_000);
}
