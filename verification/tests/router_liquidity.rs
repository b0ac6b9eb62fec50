use uniswap_v2_router::address::Address;
use uniswap_v2_router::amount::Amount;
use uniswap_v2_router::error::Error;
use uniswap_v2_router::exchange::Exchange;
use uniswap_v2_router::liquidity::add_liquidity_amounts;
use uniswap_v2_router::router::Router;

fn amt(x: u64) -> Amount {
    Amount::from_u64(x)
}

fn id(x: u64) -> Address {
    Address::from_u64(x)
}

const A: u64 = 22;
const B: u64 = 11;
const WCSPR: u64 = 44;
const ROUTER: u64 = 55;
const ALICE: u64 = 1001;
const BOB: u64 = 1002;
const NOW: u128 = 1_000;
const LATER: u128 = 2_000;

fn native() -> Address {
    Address::zero()
}

/// An exchange in which Alice holds 10000 of the tokens A and B and of
/// native coin, and lets the router move all of her tokens.
fn setup() -> (Exchange, Router) {
    let mut ex = Exchange::new();
    for token in [A, B] {
        ex.bank.mint(id(token), id(ALICE), amt(10_000)).unwrap();
        ex.bank.approve(id(token), id(ALICE), id(ROUTER), amt(10_000));
    }
    ex.bank.mint(native(), id(ALICE), amt(10_000)).unwrap();
    (ex, Router::new(id(ROUTER), id(WCSPR)))
}

/// What Alice, Bob and the first pool hold of a token, and how much of it
/// exists.
fn holdings(ex: &Exchange, token: Address) -> [Amount; 4] {
    let pool = Address { h0: u64::MAX, h1: 0, h2: 0, h3: 0 };
    [
        ex.bank.balance_of(token, id(ALICE)),
        ex.bank.balance_of(token, id(BOB)),
        ex.bank.balance_of(token, pool),
        ex.bank.total_supply(token),
    ]
}

fn snapshot(ex: &Exchange) -> Vec<[Amount; 4]> {
    let pool = Address { h0: u64::MAX, h1: 0, h2: 0, h3: 0 };
    let mut v = Vec::new();
    for token in [id(A), id(B), id(WCSPR), native(), pool] {
        v.push(holdings(ex, token));
    }
    v.push([
        ex.bank.allowance(id(A), id(ALICE), id(ROUTER)),
        ex.bank.allowance(id(B), id(ALICE), id(ROUTER)),
        ex.bank.allowance(pool, id(ALICE), id(ROUTER)),
        ex.bank.nonce_of(pool, id(ALICE)),
    ]);
    v.push([amt(ex.factory.all_pairs_length() as u64), amt(0), amt(0), amt(0)]);
    if let Some(p) = ex.factory.pair(0) {
        let (r0, r1, t) = p.get_reserves();
        v.push([r0, r1, amt(t as u64), amt(0)]);
    }
    v
}

#[test]
fn amounts_of_a_deposit() {
    let z = amt(0);
    assert_eq!(add_liquidity_amounts(z, z, amt(300), amt(400), z, z), Ok((amt(300), amt(400))));
    assert_eq!(
        add_liquidity_amounts(z, z, amt(300), amt(400), amt(999), amt(999)),
        Ok((amt(300), amt(400)))
    );
    assert_eq!(
        add_liquidity_amounts(amt(300), amt(400), amt(150), amt(300), z, z),
        Ok((amt(150), amt(200)))
    );
    assert_eq!(
        add_liquidity_amounts(amt(300), amt(400), amt(150), amt(200), z, amt(200)),
        Ok((amt(150), amt(200)))
    );
    assert_eq!(
        add_liquidity_amounts(amt(300), amt(400), amt(300), amt(100), z, z),
        Ok((amt(75), amt(100)))
    );
    assert_eq!(
        add_liquidity_amounts(amt(300), amt(400), amt(150), amt(300), z, amt(201)),
        Err(Error::InsufficientBAmount)
    );
    assert_eq!(
        add_liquidity_amounts(amt(300), amt(400), amt(300), amt(100), amt(76), z),
        Err(Error::InsufficientAAmount)
    );
    assert_eq!(
        add_liquidity_amounts(amt(300), amt(400), z, amt(100), z, z),
        Err(Error::InsufficientAmount)
    );
    assert_eq!(
        add_liquidity_amounts(amt(300), z, amt(5), amt(100), z, z),
        Err(Error::InsufficientLiquidity)
    );
}

#[test]
fn first_liquidity() {
    let (mut ex, router) = setup();
    let r = router.add_liquidity(
        &mut ex,
        id(ALICE),
        id(A),
        id(B),
        amt(300),
        amt(400),
        amt(0),
        amt(0),
        id(BOB),
        LATER,
        NOW,
    );
    assert_eq!(r, Ok((amt(300), amt(400), amt(246))));
    let pool = ex.factory.pair(0).unwrap();
    assert_eq!(pool.token0, id(B));
    assert_eq!(pool.token1, id(A));
    assert_eq!(pool.get_reserves(), (amt(400), amt(300), NOW));
    assert_eq!(holdings(&ex, id(A)), [amt(9_700), amt(0), amt(300), amt(10_000)]);
    assert_eq!(holdings(&ex, id(B)), [amt(9_600), amt(0), amt(400), amt(10_000)]);
    assert_eq!(holdings(&ex, pool.address), [amt(0), amt(246), amt(0), amt(346)]);
    assert_eq!(ex.bank.balance_of(pool.address, Address::zero()), amt(100));
    assert_eq!(ex.bank.allowance(id(A), id(ALICE), id(ROUTER)), amt(9_700));
    assert_eq!(ex.bank.allowance(id(B), id(ALICE), id(ROUTER)), amt(9_600));
}

#[test]
fn later_liquidity_keeps_the_ratio() {
    let (mut ex, router) = setup();
    router
        .add_liquidity(&mut ex, id(ALICE), id(A), id(B), amt(300), amt(400), amt(0), amt(0), id(ALICE), LATER, NOW)
        .unwrap();
    let r = router.add_liquidity(
        &mut ex,
        id(ALICE),
        id(A),
        id(B),
        amt(150),
        amt(300),
        amt(150),
        amt(200),
        id(BOB),
        LATER,
        NOW + 1,
    );
    assert_eq!(r, Ok((amt(150), amt(200), amt(173))));
    let r = router.add_liquidity(
        &mut ex,
        id(ALICE),
        id(B),
        id(A),
        amt(300),
        amt(100),
        amt(0),
        amt(0),
        id(BOB),
        LATER,
        NOW + 2,
    );
    // reserves are now 600 of B and 450 of A: 100 of A is worth 133 of B
    assert_eq!(r, Ok((amt(133), amt(100), amt(115))));
    assert_eq!(ex.factory.all_pairs_length(), 1);
    assert_eq!(ex.factory.pair(0).unwrap().get_reserves(), (amt(733), amt(550), NOW + 2));
}

#[test]
fn an_expired_deposit_changes_nothing() {
    let (mut ex, router) = setup();
    let before = snapshot(&ex);
    let r = router.add_liquidity(
        &mut ex,
        id(ALICE),
        id(A),
        id(B),
        amt(300),
        amt(400),
        amt(0),
        amt(0),
        id(BOB),
        NOW - 1,
        NOW,
    );
    assert_eq!(r, Err(Error::Expired));
    assert_eq!(snapshot(&ex), before);
    let r = router.add_liquidity(
        &mut ex,
        id(ALICE),
        id(A),
        id(B),
        amt(300),
        amt(400),
        amt(0),
        amt(0),
        id(BOB),
        NOW,
        NOW,
    );
    assert_eq!(r, Ok((amt(300), amt(400), amt(246))));
}

#[test]
fn a_minimum_above_the_quote_stops_the_deposit() {
    let (mut ex, router) = setup();
    router
        .add_liquidity(&mut ex, id(ALICE), id(A), id(B), amt(300), amt(400), amt(0), amt(0), id(ALICE), LATER, NOW)
        .unwrap();
    let before = snapshot(&ex);
    let r = router.add_liquidity(
        &mut ex,
        id(ALICE),
        id(A),
        id(B),
        amt(150),
        amt(300),
        amt(0),
        amt(201),
        id(BOB),
        LATER,
        NOW,
    );
    assert_eq!(r, Err(Error::InsufficientBAmount));
    assert_eq!(snapshot(&ex), before);
    let r = router.add_liquidity(
        &mut ex,
        id(ALICE),
        id(A),
        id(B),
        amt(300),
        amt(100),
        amt(76),
        amt(0),
        id(BOB),
        LATER,
        NOW,
    );
    assert_eq!(r, Err(Error::InsufficientAAmount));
    assert_eq!(snapshot(&ex), before);
}

#[test]
fn a_deposit_that_fails_late_leaves_no_pool_behind() {
    let (mut ex, router) = setup();
    let before = snapshot(&ex);
    // more of B than Alice lets the router move
    let r = router.add_liquidity(
        &mut ex,
        id(ALICE),
        id(A),
        id(B),
        amt(300),
        amt(10_001),
        amt(0),
        amt(0),
        id(BOB),
        LATER,
        NOW,
    );
    assert_eq!(r, Err(Error::InsufficientAllowance));
    assert_eq!(snapshot(&ex), before);
    assert_eq!(ex.factory.all_pairs_length(), 0);
    // too little for a first deposit
    let r = router.add_liquidity(
        &mut ex,
        id(ALICE),
        id(A),
        id(B),
        amt(10),
        amt(10),
        amt(0),
        amt(0),
        id(BOB),
        LATER,
        NOW,
    );
    assert_eq!(r, Err(Error::InsufficientLiquidityMinted));
    assert_eq!(snapshot(&ex), before);
    // more than Bob holds
    ex.bank.approve(id(A), id(BOB), id(ROUTER), amt(500));
    ex.bank.approve(id(B), id(BOB), id(ROUTER), amt(500));
    let before = snapshot(&ex);
    let r = router.add_liquidity(
        &mut ex,
        id(BOB),
        id(A),
        id(B),
        amt(300),
        amt(400),
        amt(0),
        amt(0),
        id(BOB),
        LATER,
        NOW,
    );
    assert_eq!(r, Err(Error::InsufficientBalance));
    assert_eq!(snapshot(&ex), before);
    assert_eq!(
        router.add_liquidity(&mut ex, id(ALICE), id(A), id(A), amt(1), amt(1), amt(0), amt(0), id(BOB), LATER, NOW),
        Err(Error::IdenticalAddresses)
    );
    assert_eq!(
        router.add_liquidity(&mut ex, id(ALICE), id(A), id(0), amt(1), amt(1), amt(0), amt(0), id(BOB), LATER, NOW),
        Err(Error::ZeroAddress)
    );
}

#[test]
fn liquidity_added_and_removed_at_once_gives_back_no_more() {
    let (mut ex, router) = setup();
    let (a, b, liquidity) = router
        .add_liquidity(&mut ex, id(ALICE), id(A), id(B), amt(300), amt(400), amt(0), amt(0), id(ALICE), LATER, NOW)
        .unwrap();
    let pool = ex.factory.pair(0).unwrap().address;
    ex.bank.approve(pool, id(ALICE), id(ROUTER), liquidity);
    let r = router.remove_liquidity(
        &mut ex,
        id(ALICE),
        id(A),
        id(B),
        liquidity,
        amt(0),
        amt(0),
        id(BOB),
        LATER,
        NOW + 5,
    );
    assert_eq!(r, Ok((amt(213), amt(284))));
    let (back_a, back_b) = r.unwrap();
    assert!(back_a.le(&a) && back_b.le(&b));
    assert_eq!(holdings(&ex, id(A)), [amt(9_700), amt(213), amt(87), amt(10_000)]);
    assert_eq!(holdings(&ex, id(B)), [amt(9_600), amt(284), amt(116), amt(10_000)]);
    assert_eq!(holdings(&ex, pool), [amt(0), amt(0), amt(0), amt(100)]);
    assert_eq!(ex.bank.allowance(pool, id(ALICE), id(ROUTER)), amt(0));
    assert_eq!(ex.factory.pair(0).unwrap().get_reserves(), (amt(116), amt(87), NOW + 5));
}

#[test]
fn a_second_provider_gets_back_no_more_either() {
    let (mut ex, router) = setup();
    router
        .add_liquidity(&mut ex, id(ALICE), id(A), id(B), amt(300), amt(400), amt(0), amt(0), id(ALICE), LATER, NOW)
        .unwrap();
    for (x, y) in [(150u64, 300u64), (300, 100), (1, 10), (7, 7), (999, 1)] {
        let pool = ex.factory.pair(0).unwrap().address;
        let r = router.add_liquidity(
            &mut ex,
            id(ALICE),
            id(A),
            id(B),
            amt(x),
            amt(y),
            amt(0),
            amt(0),
            id(ALICE),
            LATER,
            NOW,
        );
        let (a, b, liquidity) = match r {
            Ok(v) => v,
            Err(e) => {
                assert!(matches!(e, Error::InsufficientLiquidityMinted | Error::InsufficientAmount));
                continue;
            }
        };
        assert!(a.le(&amt(x)) && b.le(&amt(y)));
        ex.bank.approve(pool, id(ALICE), id(ROUTER), liquidity);
        match router.remove_liquidity(
            &mut ex,
            id(ALICE),
            id(A),
            id(B),
            liquidity,
            amt(0),
            amt(0),
            id(ALICE),
            LATER,
            NOW,
        ) {
            Ok((back_a, back_b)) => assert!(back_a.le(&a) && back_b.le(&b)),
            Err(e) => assert_eq!(e, Error::InsufficientLiquidityBurned),
        }
    }
}

#[test]
fn removal_checks_its_minimums_after_the_redemption() {
    let (mut ex, router) = setup();
    router
        .add_liquidity(&mut ex, id(ALICE), id(A), id(B), amt(300), amt(400), amt(0), amt(0), id(ALICE), LATER, NOW)
        .unwrap();
    let pool = ex.factory.pair(0).unwrap().address;
    ex.bank.approve(pool, id(ALICE), id(ROUTER), amt(246));
    let before = snapshot(&ex);
    let call = |ex: &mut Exchange, a_min: u64, b_min: u64, deadline: u128| {
        router.remove_liquidity(
            ex,
            id(ALICE),
            id(A),
            id(B),
            amt(246),
            amt(a_min),
            amt(b_min),
            id(BOB),
            deadline,
            NOW,
        )
    };
    assert_eq!(call(&mut ex, 214, 0, LATER), Err(Error::InsufficientAAmount));
    assert_eq!(snapshot(&ex), before);
    assert_eq!(call(&mut ex, 213, 285, LATER), Err(Error::InsufficientBAmount));
    assert_eq!(snapshot(&ex), before);
    assert_eq!(call(&mut ex, 214, 285, LATER), Err(Error::InsufficientAAmount));
    assert_eq!(call(&mut ex, 0, 0, NOW - 1), Err(Error::Expired));
    assert_eq!(snapshot(&ex), before);
    assert_eq!(call(&mut ex, 213, 284, LATER), Ok((amt(213), amt(284))));
}

#[test]
fn removal_failures() {
    let (mut ex, router) = setup();
    assert_eq!(
        router.remove_liquidity(&mut ex, id(ALICE), id(A), id(B), amt(1), amt(0), amt(0), id(BOB), LATER, NOW),
        Err(Error::PairNotFound)
    );
    router
        .add_liquidity(&mut ex, id(ALICE), id(A), id(B), amt(300), amt(400), amt(0), amt(0), id(ALICE), LATER, NOW)
        .unwrap();
    let pool = ex.factory.pair(0).unwrap().address;
    let before = snapshot(&ex);
    assert_eq!(
        router.remove_liquidity(&mut ex, id(ALICE), id(A), id(B), amt(1), amt(0), amt(0), id(BOB), LATER, NOW),
        Err(Error::InsufficientAllowance)
    );
    ex.bank.approve(pool, id(ALICE), id(ROUTER), amt(1_000));
    let before_granted = snapshot(&ex);
    assert_ne!(before, before_granted);
    assert_eq!(
        router.remove_liquidity(&mut ex, id(ALICE), id(A), id(B), amt(247), amt(0), amt(0), id(BOB), LATER, NOW),
        Err(Error::InsufficientBalance)
    );
    assert_eq!(
        router.remove_liquidity(&mut ex, id(ALICE), id(A), id(B), amt(0), amt(0), amt(0), id(BOB), LATER, NOW),
        Err(Error::InsufficientLiquidityBurned)
    );
    assert_eq!(
        router.remove_liquidity(&mut ex, id(ALICE), id(A), id(B), amt(1), amt(0), amt(0), id(BOB), LATER, NOW),
        Err(Error::InsufficientLiquidityBurned)
    );
    assert_eq!(snapshot(&ex), before_granted);
}

#[test]
fn removal_on_a_signed_authorisation() {
    let (mut ex, router) = setup();
    router
        .add_liquidity(&mut ex, id(ALICE), id(A), id(B), amt(300), amt(400), amt(0), amt(0), id(ALICE), LATER, NOW)
        .unwrap();
    let pool = ex.factory.pair(0).unwrap().address;
    let before = snapshot(&ex);
    let call = |ex: &mut Exchange, liquidity: u64, max: bool, nonce: u64, signer: u64, deadline: u128| {
        router.remove_liquidity_with_permit(
            ex,
            id(ALICE),
            id(A),
            id(B),
            amt(liquidity),
            amt(0),
            amt(0),
            id(BOB),
            deadline,
            max,
            amt(nonce),
            id(signer),
            NOW,
        )
    };
    assert_eq!(call(&mut ex, 100, false, 0, BOB, LATER), Err(Error::InvalidPermit));
    assert_eq!(call(&mut ex, 100, false, 1, ALICE, LATER), Err(Error::InvalidPermit));
    assert_eq!(call(&mut ex, 100, false, 0, ALICE, NOW - 1), Err(Error::Expired));
    // the authorisation holds, the redemption fails: nothing is kept of either
    assert_eq!(call(&mut ex, 247, false, 0, ALICE, LATER), Err(Error::InsufficientBalance));
    assert_eq!(snapshot(&ex), before);
    assert_eq!(call(&mut ex, 100, false, 0, ALICE, LATER), Ok((amt(86), amt(115))));
    assert_eq!(ex.bank.nonce_of(pool, id(ALICE)), amt(1));
    assert_eq!(ex.bank.allowance(pool, id(ALICE), id(ROUTER)), amt(0));
    // the same authorisation a second time
    assert_eq!(call(&mut ex, 100, false, 0, ALICE, LATER), Err(Error::InvalidPermit));
    assert_eq!(call(&mut ex, 46, true, 1, ALICE, LATER), Ok((amt(40), amt(53))));
    assert_eq!(ex.bank.allowance(pool, id(ALICE), id(ROUTER)), Amount::max_value());
    assert_eq!(ex.bank.nonce_of(pool, id(ALICE)), amt(2));
    assert_eq!(ex.bank.balance_of(pool, id(ALICE)), amt(100));
}

#[test]
fn liquidity_in_native_coin() {
    let (mut ex, router) = setup();
    let r = router.add_liquidity_cspr(
        &mut ex,
        id(ALICE),
        id(A),
        amt(300),
        amt(400),
        amt(0),
        amt(0),
        id(ALICE),
        LATER,
        NOW,
    );
    assert_eq!(r, Ok((amt(300), amt(400), amt(246))));
    let pool = ex.factory.pair(0).unwrap().address;
    assert_eq!(ex.factory.pair(0).unwrap().token0, id(A));
    assert_eq!(ex.factory.pair(0).unwrap().token1, id(WCSPR));
    assert_eq!(holdings(&ex, native()), [amt(9_600), amt(0), amt(0), amt(10_000)]);
    assert_eq!(ex.bank.balance_of(native(), id(WCSPR)), amt(400));
    assert_eq!(ex.bank.balance_of(native(), id(ROUTER)), amt(0));
    assert_eq!(holdings(&ex, id(WCSPR)), [amt(0), amt(0), amt(400), amt(400)]);
    assert_eq!(holdings(&ex, id(A)), [amt(9_700), amt(0), amt(300), amt(10_000)]);
    // a payment of which a part comes back
    let r = router.add_liquidity_cspr(
        &mut ex,
        id(ALICE),
        id(A),
        amt(150),
        amt(300),
        amt(0),
        amt(0),
        id(BOB),
        LATER,
        NOW,
    );
    assert_eq!(r, Ok((amt(150), amt(200), amt(173))));
    assert_eq!(holdings(&ex, native()), [amt(9_400), amt(0), amt(0), amt(10_000)]);
    assert_eq!(ex.bank.balance_of(native(), id(WCSPR)), amt(600));
    assert_eq!(ex.bank.balance_of(native(), id(ROUTER)), amt(0));
    assert_eq!(holdings(&ex, id(WCSPR)), [amt(0), amt(0), amt(600), amt(600)]);
    assert_eq!(holdings(&ex, pool), [amt(246), amt(173), amt(0), amt(519)]);
}

#[test]
fn liquidity_in_native_coin_failures() {
    let (mut ex, router) = setup();
    let before = snapshot(&ex);
    let call = |ex: &mut Exchange, token: u64, coin: u64, coin_min: u64, deadline: u128| {
        router.add_liquidity_cspr(
            ex,
            id(ALICE),
            id(A),
            amt(token),
            amt(coin),
            amt(0),
            amt(coin_min),
            id(ALICE),
            deadline,
            NOW,
        )
    };
    assert_eq!(call(&mut ex, 300, 400, 0, NOW - 1), Err(Error::Expired));
    assert_eq!(call(&mut ex, 300, 10_001, 0, LATER), Err(Error::InsufficientBalance));
    assert_eq!(call(&mut ex, 10_001, 400, 0, LATER), Err(Error::InsufficientAllowance));
    assert_eq!(snapshot(&ex), before);
    assert_eq!(ex.bank.balance_of(native(), id(ROUTER)), amt(0));
    assert_eq!(call(&mut ex, 300, 400, 0, LATER), Ok((amt(300), amt(400), amt(246))));
    assert_eq!(call(&mut ex, 150, 300, 201, LATER), Err(Error::InsufficientBAmount));
    assert_eq!(ex.bank.balance_of(native(), id(ALICE)), amt(9_600));
    assert_eq!(ex.bank.balance_of(native(), id(ROUTER)), amt(0));
}

#[test]
fn removal_into_native_coin() {
    let (mut ex, router) = setup();
    router
        .add_liquidity_cspr(&mut ex, id(ALICE), id(A), amt(300), amt(400), amt(0), amt(0), id(ALICE), LATER, NOW)
        .unwrap();
    let pool = ex.factory.pair(0).unwrap().address;
    ex.bank.approve(pool, id(ALICE), id(ROUTER), amt(246));
    let before = snapshot(&ex);
    assert_eq!(
        router.remove_liquidity_cspr(&mut ex, id(ALICE), id(A), amt(246), amt(0), amt(285), id(BOB), LATER, NOW),
        Err(Error::InsufficientBAmount)
    );
    assert_eq!(snapshot(&ex), before);
    let r = router.remove_liquidity_cspr(
        &mut ex,
        id(ALICE),
        id(A),
        amt(246),
        amt(213),
        amt(284),
        id(BOB),
        LATER,
        NOW,
    );
    assert_eq!(r, Ok((amt(213), amt(284))));
    assert_eq!(holdings(&ex, native()), [amt(9_600), amt(284), amt(0), amt(10_000)]);
    assert_eq!(ex.bank.balance_of(native(), id(WCSPR)), amt(116));
    assert_eq!(holdings(&ex, id(WCSPR)), [amt(0), amt(0), amt(116), amt(116)]);
    assert_eq!(holdings(&ex, id(A)), [amt(9_700), amt(213), amt(87), amt(10_000)]);
    assert_eq!(ex.bank.balance_of(id(A), id(ROUTER)), amt(0));
    assert_eq!(ex.bank.balance_of(id(WCSPR), id(ROUTER)), amt(0));
    assert_eq!(ex.bank.balance_of(native(), id(ROUTER)), amt(0));
}

#[test]
fn removal_into_native_coin_on_a_signed_authorisation() {
    let (mut ex, router) = setup();
    router
        .add_liquidity_cspr(&mut ex, id(ALICE), id(A), amt(300), amt(400), amt(0), amt(0), id(ALICE), LATER, NOW)
        .unwrap();
    let pool = ex.factory.pair(0).unwrap().address;
    let before = snapshot(&ex);
    let bad = router.remove_liquidity_cspr_with_permit(
        &mut ex,
        id(ALICE),
        id(A),
        amt(246),
        amt(0),
        amt(0),
        id(BOB),
        LATER,
        false,
        amt(0),
        id(BOB),
        NOW,
    );
    assert_eq!(bad, Err(Error::InvalidPermit));
    assert_eq!(snapshot(&ex), before);
    let r = router.remove_liquidity_cspr_with_permit(
        &mut ex,
        id(ALICE),
        id(A),
        amt(246),
        amt(0),
        amt(0),
        id(BOB),
        LATER,
        false,
        amt(0),
        id(ALICE),
        NOW,
    );
    assert_eq!(r, Ok((amt(213), amt(284))));
    assert_eq!(ex.bank.nonce_of(pool, id(ALICE)), amt(1));
    assert_eq!(ex.bank.balance_of(native(), id(BOB)), amt(284));
}

#[test]
fn the_router_quotes_as_the_library_does() {
    let router = Router::new(id(ROUTER), id(WCSPR));
    assert_eq!(router.quote(amt(150), amt(300), amt(400)), Ok(amt(200)));
    assert_eq!(router.get_amount_out(amt(100), amt(1000), amt(1000)), Ok(amt(90)));
    assert_eq!(router.get_amount_in(amt(90), amt(1000), amt(1000)), Ok(amt(100)));
    assert_eq!(router.address, id(ROUTER));
    assert_eq!(router.wcspr, id(WCSPR));
}
