use casper_types::account::AccountHash;
use casper_types::{Key, U256};
use rand::Rng;
use std::time::{SystemTime, UNIX_EPOCH};
use uniswap_v2_router::address::Address;
use uniswap_v2_router::amount::Amount;
use uniswap_v2_router::error::Error;
use uniswap_v2_router::exchange::Exchange;
use uniswap_v2_router::pair::MINIMUM_LIQUIDITY;
use uniswap_v2_router::router::Router;

const NAME: &str = "uniswap_router";

fn amount(x: U256) -> Amount {
    Amount { w0: x.0[0], w1: x.0[1], w2: x.0[2], w3: x.0[3] }
}

fn address(key: Key) -> Address {
    let bytes: [u8; 32] = match key {
        Key::Hash(hash) => hash,
        Key::Account(account) => account.value(),
        _ => panic!("neither a contract nor an account"),
    };
    let word = |i: usize| {
        let mut w = [0u8; 8];
        w.copy_from_slice(&bytes[8 * i..8 * i + 8]);
        u64::from_be_bytes(w)
    };
    Address { h0: word(0), h1: word(1), h2: word(2), h3: word(3) }
}

fn contract(name: &str) -> Key {
    let mut hash = [0u8; 32];
    for (i, b) in name.bytes().enumerate() {
        hash[i % 32] ^= b.wrapping_add(i as u8);
    }
    hash[0] |= 1;
    Key::Hash(hash)
}

fn now_millis() -> u128 {
    match SystemTime::now().duration_since(UNIX_EPOCH) {
        Ok(n) => n.as_millis(),
        Err(_) => 0,
    }
}

fn floor_sqrt(n: u64) -> u64 {
    let mut r = 0u64;
    while (r + 1) * (r + 1) <= n {
        r += 1;
    }
    r
}

fn deploy_dummy_tokens(exchange: &mut Exchange, owner: Key) -> (Key, Key, Key) {
    let init_total_supply: U256 = 1000.into();
    let token1 = contract("token1_contract");
    let token2 = contract("token2_contract");
    let token3 = contract("token3_contract");
    for token in [token1, token2, token3] {
        exchange.bank.mint(address(token), address(owner), amount(init_total_supply)).unwrap();
    }
    (token1, token2, token3)
}

fn deploy_uniswap_router() -> (Exchange, Router, Key, Key, Key, Key) {
    let mut exchange = Exchange::new();
    let owner = Key::Account(AccountHash::new([7u8; 32]));
    let wcspr = contract("wcspr");
    let (token1, token2, token3) = deploy_dummy_tokens(&mut exchange, owner);
    exchange.factory.create_pair(address(token1), address(token2)).unwrap();
    let router = Router::new(address(contract(NAME)), address(wcspr));
    // the owner's native coin
    exchange.bank.mint(Address::zero(), address(owner), amount(1_000_000.into())).unwrap();
    // the router may move the owner's shares of the pool
    let pool = exchange.factory.pair(0).unwrap().address;
    exchange.bank.approve(pool, address(owner), router.address, amount(U256::from(1000)));
    (exchange, router, owner, token1, token2, token3)
}

#[test]
fn test_uniswap_deploy() {
    let (exchange, router, owner, _, _, _) = deploy_uniswap_router();
    println!("{}", owner);
    let self_hash: Address = router.address;
    let pair_hash: Address = exchange.factory.pair(0).unwrap().address;
    let package_hash: Address = router.wcspr;

    let zero_addr: Key = Key::from_formatted_str(
        "hash-0000000000000000000000000000000000000000000000000000000000000000",
    )
    .unwrap();
    assert_ne!(self_hash, address(zero_addr));
    assert_ne!(pair_hash, address(zero_addr)); // pair successfully deployed
    assert_ne!(package_hash, address(zero_addr));
    assert_eq!(address(zero_addr), Address::zero());
}

#[test]
fn add_liquidity() {
    let (mut exchange, router, owner, token1, token2, token3) = deploy_uniswap_router();

    let token_a = token1;
    let token_b = token2;
    let to = token3;

    let mut rng = rand::thread_rng();
    let amount_a_desired: U256 = rng.gen_range(300..600).into();
    let amount_b_desired: U256 = rng.gen_range(300..600).into();
    let amount_a_min: U256 = rng.gen_range(1..250).into();
    let amount_b_min: U256 = rng.gen_range(1..250).into();

    println!("\nadd_liquidity");
    println!("\namount_a_desired: {}", amount_a_desired);
    println!("\namount_b_desired: {}", amount_b_desired);
    println!("\namount_a_min: {}", amount_a_min);
    println!("\nmount_b_min: {}\n", amount_b_min);

    let now = now_millis();
    let deadline: u128 = now + (1000 * (30 * 60)); // current epoch time in milisecond + 30 minutes

    // approve the router to spend tokens
    exchange.bank.approve(address(token1), address(owner), router.address, amount(amount_a_desired));
    exchange.bank.approve(address(token2), address(owner), router.address, amount(amount_b_desired));

    assert_eq!(
        exchange.bank.allowance(address(token1), address(owner), router.address),
        amount(amount_a_desired)
    ); // Token approved
    assert_eq!(
        exchange.bank.allowance(address(token2), address(owner), router.address),
        amount(amount_b_desired)
    ); // Token approved

    let r = router.add_liquidity(
        &mut exchange,
        address(owner),
        address(token_a),
        address(token_b),
        amount(amount_a_desired),
        amount(amount_b_desired),
        amount(amount_a_min),
        amount(amount_b_min),
        address(to),
        deadline,
        now,
    );
    let shares = floor_sqrt(amount_a_desired.as_u64() * amount_b_desired.as_u64()) - MINIMUM_LIQUIDITY;
    assert_eq!(r, Ok((amount(amount_a_desired), amount(amount_b_desired), Amount::from_u64(shares))));
    let pool = exchange.factory.pair(0).unwrap().address;
    assert_eq!(exchange.bank.balance_of(pool, address(to)), Amount::from_u64(shares));
    assert_eq!(exchange.bank.balance_of(address(token1), pool), amount(amount_a_desired));
    assert_eq!(exchange.bank.balance_of(address(token2), pool), amount(amount_b_desired));
    assert_eq!(
        exchange.bank.balance_of(address(token1), address(owner)),
        amount(U256::from(1000) - amount_a_desired)
    );
    assert_eq!(
        exchange.bank.allowance(address(token1), address(owner), router.address),
        Amount::zero()
    );
}

#[test]
fn add_liquidity_cspr() {
    let (mut exchange, router, owner, token1, token2, _) = deploy_uniswap_router();

    let to = token2;

    let mut rng = rand::thread_rng();
    let token = token1;
    let amount_token_desired: U256 = rng.gen_range(300..600).into();
    let amount_cspr_desired: U256 = rng.gen_range(300..600).into();
    let amount_token_min: U256 = rng.gen_range(1..250).into();
    let amount_cspr_min: U256 = rng.gen_range(1..250).into();

    println!("\nadd_liquidity_cspr");
    println!("\namount_token_desired: {}", amount_token_desired);
    println!("\namount_cspr_desired: {}", amount_cspr_desired);
    println!("\namount_token_min: {}", amount_token_min);
    println!("\namount_cspr_min: {}\n", amount_cspr_min);

    let now = now_millis();
    let deadline: u128 = now + (1000 * (30 * 60)); // current epoch time in milisecond + 30 minutes

    exchange.bank.approve(address(token1), address(owner), router.address, amount(amount_token_desired));
    let r = router.add_liquidity_cspr(
        &mut exchange,
        address(owner),
        address(token),
        amount(amount_token_desired),
        amount(amount_cspr_desired),
        amount(amount_token_min),
        amount(amount_cspr_min),
        address(to),
        deadline,
        now,
    );
    let shares =
        floor_sqrt(amount_token_desired.as_u64() * amount_cspr_desired.as_u64()) - MINIMUM_LIQUIDITY;
    assert_eq!(
        r,
        Ok((amount(amount_token_desired), amount(amount_cspr_desired), Amount::from_u64(shares)))
    );
    let pool = exchange.factory.pair(1).unwrap().address;
    assert_eq!(exchange.bank.balance_of(pool, address(to)), Amount::from_u64(shares));
    assert_eq!(exchange.bank.balance_of(router.wcspr, pool), amount(amount_cspr_desired));
    assert_eq!(
        exchange.bank.balance_of(Address::zero(), address(owner)),
        amount(U256::from(1_000_000) - amount_cspr_desired)
    );
    assert_eq!(exchange.bank.balance_of(Address::zero(), router.address), Amount::zero());
}

#[test]
fn remove_liquidity_cspr() {
    let (mut exchange, router, owner, token1, token2, _) = deploy_uniswap_router();
    let mut rng = rand::thread_rng();

    let token = token1;
    let amount_token_desired: U256 = rng.gen_range(300..600).into();
    let amount_cspr_desired: U256 = rng.gen_range(300..600).into();
    let amount_token_min: U256 = rng.gen_range(1..250).into();
    let amount_cspr_min: U256 = rng.gen_range(1..250).into();
    let to = token2;

    let now = now_millis();
    let deadline: u128 = now + (1000 * (30 * 60)); // current epoch time in milisecond + 30 minutes

    exchange.bank.approve(address(token1), address(owner), router.address, amount(amount_token_desired));
    let (put_token, put_cspr, shares) = router
        .add_liquidity_cspr(
            &mut exchange,
            address(owner),
            address(token),
            amount(amount_token_desired),
            amount(amount_cspr_desired),
            amount(amount_token_min),
            amount(amount_cspr_min),
            address(to),
            deadline,
            now,
        )
        .unwrap();

    let token: Key = token1;
    let liquidity: U256 = rng.gen_range(0..500).into();
    let amount_token_min: U256 = rng.gen_range(0..200).into();
    let amount_cspr_min: U256 = rng.gen_range(0..200).into();
    let to = token2;

    exchange.bank.approve(address(token1), address(owner), router.address, amount(amount_token_min));
    let r = router.remove_liquidity_cspr(
        &mut exchange,
        address(owner),
        address(token),
        amount(liquidity),
        amount(amount_token_min),
        amount(amount_cspr_min),
        address(to),
        deadline,
        now,
    );
    // The shares went to `to`: the owner has none to give, and has granted
    // the router none.
    if liquidity.is_zero() {
        assert_eq!(r, Err(Error::InsufficientLiquidityBurned));
    } else {
        assert_eq!(r, Err(Error::InsufficientAllowance));
    }
    let pool = exchange.factory.pair(1).unwrap().address;
    assert_eq!(exchange.bank.balance_of(pool, address(to)), shares);
    assert_eq!(exchange.bank.balance_of(router.wcspr, pool), put_cspr);

    // The holder of the shares removes them all.
    exchange.bank.approve(pool, address(to), router.address, shares);
    let (back_token, back_cspr) = router
        .remove_liquidity_cspr(
            &mut exchange,
            address(to),
            address(token),
            shares,
            Amount::zero(),
            Amount::zero(),
            address(owner),
            deadline,
            now,
        )
        .unwrap();
    assert!(back_token.le(&put_token) && !back_token.is_zero());
    assert!(back_cspr.le(&put_cspr) && !back_cspr.is_zero());
    assert_eq!(exchange.bank.balance_of(pool, address(to)), Amount::zero());
    assert_eq!(exchange.bank.total_supply(pool), Amount::from_u64(MINIMUM_LIQUIDITY));
}

#[test]
fn remove_liquidity_after_adding_it() {
    let (mut exchange, router, owner, token1, token2, _) = deploy_uniswap_router();
    let mut rng = rand::thread_rng();
    let amount_a_desired: U256 = rng.gen_range(300..600).into();
    let amount_b_desired: U256 = rng.gen_range(300..600).into();
    let now = now_millis();
    let deadline: u128 = now + (1000 * (30 * 60));
    exchange.bank.approve(address(token1), address(owner), router.address, amount(amount_a_desired));
    exchange.bank.approve(address(token2), address(owner), router.address, amount(amount_b_desired));
    let (a, b, shares) = router
        .add_liquidity(
            &mut exchange,
            address(owner),
            address(token1),
            address(token2),
            amount(amount_a_desired),
            amount(amount_b_desired),
            Amount::zero(),
            Amount::zero(),
            address(owner),
            deadline,
            now,
        )
        .unwrap();
    // the allowance of 1000 shares was granted when the router was set up
    let r = router.remove_liquidity(
        &mut exchange,
        address(owner),
        address(token2),
        address(token1),
        shares,
        Amount::zero(),
        Amount::zero(),
        address(owner),
        deadline,
        now,
    );
    let (back_b, back_a) = r.unwrap();
    assert!(back_a.le(&a) && back_b.le(&b));
    assert!(!back_a.is_zero() && !back_b.is_zero());
}
