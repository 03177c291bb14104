use dripswap_core::dec::Dec;
use dripswap_core::keys::{Field, Key, Table};
use dripswap_core::pb::{Erc20Token, Pool};
use dripswap_core::pipeline::get_adjusted_amounts;
use dripswap_core::price::{
    find_eth_per_token, get_eth_price_in_usd, is_stable_coin, STABLE_COIN_DAI, STABLE_COIN_USDC,
    USDC_ADDRESS, WETH_ADDRESS,
};
use dripswap_core::store::Store;

fn token(addr: &str) -> Erc20Token {
    Erc20Token {
        address: addr.to_string(),
        name: "tok".to_string(),
        symbol: "TOK".to_string(),
        decimals: 0,
        total_supply: 0,
        whitelist_pools: Vec::new(),
    }
}

fn pool_of(addr: &str, t0: &str, t1: &str) -> Pool {
    Pool {
        address: addr.to_string(),
        transaction_id: "0xtx".to_string(),
        created_at_block_number: 1,
        created_at_timestamp: 86400,
        fee_tier: 3000,
        log_ordinal: 1,
        ignore_pool: false,
        token0: Some(token(t0)),
        token1: Some(token(t1)),
    }
}

fn pair_key(a: &str, b: &str) -> Key {
    Key::two_addr(Table::Pair, a.to_string(), b.to_string(), Field::NoField)
}

#[test]
fn wrapped_native_price_is_one_for_every_ordinal() {
    let pools: Store<Pool> = Store::new_store();
    let liq: Store<u128> = Store::new_store();
    let wl: Store<Vec<String>> = Store::new_store();
    let native: Store<Dec> = Store::new_store();
    let prices: Store<Dec> = Store::new_store();
    let weth = WETH_ADDRESS.to_string();
    for ord in [0u64, 1, 17, 1_000_000] {
        let p = find_eth_per_token(ord, &weth, &pools, &liq, &wl, &native, &prices);
        assert_eq!(p, Dec::one());
    }
}

#[test]
fn stablecoin_price_is_reciprocal_of_eth_usd() {
    let pools: Store<Pool> = Store::new_store();
    let liq: Store<u128> = Store::new_store();
    let wl: Store<Vec<String>> = Store::new_store();
    let native: Store<Dec> = Store::new_store();
    let mut prices: Store<Dec> = Store::new_store();
    // the WETH/USDC pair price: 2000 USD per ETH
    prices.set(pair_key(WETH_ADDRESS, USDC_ADDRESS), 5, Dec::from_int(2000));
    let usdc = STABLE_COIN_USDC.to_string();
    let p = find_eth_per_token(9, &usdc, &pools, &liq, &wl, &native, &prices);
    assert_eq!(p, Dec { num: 1, den: 2000 });
    // independent of pool and liquidity state: any stablecoin, same answer
    let dai = STABLE_COIN_DAI.to_string();
    let p2 = find_eth_per_token(9, &dai, &pools, &liq, &wl, &native, &prices);
    assert_eq!(p2, Dec { num: 1, den: 2000 });
}

#[test]
fn eth_usd_falls_back_to_reverse_pair_reciprocal() {
    let mut prices: Store<Dec> = Store::new_store();
    // only the reverse pair is known: 1/2000 ETH per USDC
    prices.set(pair_key(USDC_ADDRESS, WETH_ADDRESS), 3, Dec { num: 1, den: 2000 });
    let r = get_eth_price_in_usd(&prices, 5);
    assert_eq!(r, Dec { num: 2000, den: 1 });
    // nothing known at all: zero
    let empty: Store<Dec> = Store::new_store();
    assert_eq!(get_eth_price_in_usd(&empty, 5), Dec::zero());
}

#[test]
fn most_liquid_qualifying_pool_wins() {
    // token T is priced through two candidate pools against an
    // unwhitelisted counterpart C; ETH locked is 10 and 60, the
    // threshold is 52: only the second pool qualifies
    let t = "0xtokT";
    let c = "0xtokC";
    let mut pools: Store<Pool> = Store::new_store();
    pools.set(
        Key::entity(Table::Pair, "0xpoolA".to_string()),
        1,
        pool_of("0xpoolA", t, c),
    );
    pools.set(
        Key::entity(Table::Pair, "0xpoolB".to_string()),
        1,
        pool_of("0xpoolB", t, c),
    );
    let mut wl: Store<Vec<String>> = Store::new_store();
    wl.append_value(Key::entity(Table::Token, t.to_string()), 1, "0xpoolA".to_string());
    wl.append_value(Key::entity(Table::Token, t.to_string()), 1, "0xpoolB".to_string());
    let mut liq: Store<u128> = Store::new_store();
    liq.set(Key::entity(Table::Pool, "0xpoolA".to_string()), 1, 100);
    liq.set(Key::entity(Table::Pool, "0xpoolB".to_string()), 1, 100);
    // the WETH/C cross pair has liquidity and price one
    liq.set(pair_key(WETH_ADDRESS, c), 1, 1);
    let mut prices: Store<Dec> = Store::new_store();
    prices.set(pair_key(WETH_ADDRESS, c), 1, Dec::one());
    let mut native: Store<Dec> = Store::new_store();
    native.set(
        Key::two_addr(Table::Pool, "0xpoolA".to_string(), c.to_string(), Field::Native),
        1,
        Dec::from_int(10),
    );
    native.set(
        Key::two_addr(Table::Pool, "0xpoolB".to_string(), c.to_string(), Field::Native),
        1,
        Dec::from_int(60),
    );
    // the pool-local prices of T against C
    prices.set(
        Key::two_addr(Table::Pool, "0xpoolA".to_string(), c.to_string(), Field::Token1),
        1,
        Dec::from_int(3),
    );
    prices.set(
        Key::two_addr(Table::Pool, "0xpoolB".to_string(), c.to_string(), Field::Token1),
        1,
        Dec::from_int(7),
    );
    let taddr = t.to_string();
    let p = find_eth_per_token(2, &taddr, &pools, &liq, &wl, &native, &prices);
    assert_eq!(p, Dec::from_int(7));
}

#[test]
fn no_pool_clears_the_threshold_gives_zero() {
    // same setup, but ETH locked is 10 and 40: neither clears 52 and the
    // counterpart is not whitelisted, so the price stays zero
    let t = "0xtokT";
    let c = "0xtokC";
    let mut pools: Store<Pool> = Store::new_store();
    pools.set(
        Key::entity(Table::Pair, "0xpoolA".to_string()),
        1,
        pool_of("0xpoolA", t, c),
    );
    pools.set(
        Key::entity(Table::Pair, "0xpoolB".to_string()),
        1,
        pool_of("0xpoolB", t, c),
    );
    let mut wl: Store<Vec<String>> = Store::new_store();
    wl.append_value(Key::entity(Table::Token, t.to_string()), 1, "0xpoolA".to_string());
    wl.append_value(Key::entity(Table::Token, t.to_string()), 1, "0xpoolB".to_string());
    let mut liq: Store<u128> = Store::new_store();
    liq.set(Key::entity(Table::Pool, "0xpoolA".to_string()), 1, 100);
    liq.set(Key::entity(Table::Pool, "0xpoolB".to_string()), 1, 100);
    liq.set(pair_key(WETH_ADDRESS, c), 1, 1);
    let mut prices: Store<Dec> = Store::new_store();
    prices.set(pair_key(WETH_ADDRESS, c), 1, Dec::one());
    let mut native: Store<Dec> = Store::new_store();
    native.set(
        Key::two_addr(Table::Pool, "0xpoolA".to_string(), c.to_string(), Field::Native),
        1,
        Dec::from_int(10),
    );
    native.set(
        Key::two_addr(Table::Pool, "0xpoolB".to_string(), c.to_string(), Field::Native),
        1,
        Dec::from_int(40),
    );
    prices.set(
        Key::two_addr(Table::Pool, "0xpoolA".to_string(), c.to_string(), Field::Token1),
        1,
        Dec::from_int(3),
    );
    prices.set(
        Key::two_addr(Table::Pool, "0xpoolB".to_string(), c.to_string(), Field::Token1),
        1,
        Dec::from_int(7),
    );
    let taddr = t.to_string();
    let p = find_eth_per_token(2, &taddr, &pools, &liq, &wl, &native, &prices);
    assert_eq!(p, Dec::zero());
}

#[test]
fn whitelisted_counterpart_skips_the_threshold() {
    // a WETH counterpart is whitelisted: 10 ETH locked is enough
    let t = "0xtokT";
    let mut pools: Store<Pool> = Store::new_store();
    pools.set(
        Key::entity(Table::Pair, "0xpoolA".to_string()),
        1,
        pool_of("0xpoolA", t, WETH_ADDRESS),
    );
    let mut wl: Store<Vec<String>> = Store::new_store();
    wl.append_value(Key::entity(Table::Token, t.to_string()), 1, "0xpoolA".to_string());
    let mut liq: Store<u128> = Store::new_store();
    liq.set(Key::entity(Table::Pool, "0xpoolA".to_string()), 1, 100);
    let mut native: Store<Dec> = Store::new_store();
    native.set(
        Key::two_addr(
            Table::Pool,
            "0xpoolA".to_string(),
            WETH_ADDRESS.to_string(),
            Field::Native,
        ),
        1,
        Dec::from_int(10),
    );
    let mut prices: Store<Dec> = Store::new_store();
    prices.set(
        Key::two_addr(
            Table::Pool,
            "0xpoolA".to_string(),
            WETH_ADDRESS.to_string(),
            Field::Token1,
        ),
        1,
        Dec::from_int(3),
    );
    let taddr = t.to_string();
    let p = find_eth_per_token(2, &taddr, &pools, &liq, &wl, &native, &prices);
    assert_eq!(p, Dec::from_int(3));
}

#[test]
fn stable_coin_set_matches() {
    assert!(is_stable_coin(STABLE_COIN_USDC));
    assert!(is_stable_coin(STABLE_COIN_DAI));
    assert!(!is_stable_coin(WETH_ADDRESS));
}

#[test]
fn adjusted_amounts_weigh_priced_sides() {
    // both sides priced: tracked = 2*3 + 5*1 = 11 ETH; usd at rate 10
    let r = get_adjusted_amounts(
        Dec::from_int(2),
        Dec::from_int(5),
        Dec::from_int(3),
        Dec::one(),
        Dec::from_int(10),
    )
    .unwrap();
    assert_eq!(r.delta_tvl_eth, Dec::from_int(11));
    assert_eq!(r.delta_tvl_usd, Dec::from_int(110));
    assert_eq!(r.stable_eth_untracked, Dec::from_int(11));
    // only one side priced: that side is doubled
    let r2 = get_adjusted_amounts(
        Dec::from_int(2),
        Dec::from_int(5),
        Dec::from_int(3),
        Dec::zero(),
        Dec::from_int(10),
    )
    .unwrap();
    assert_eq!(r2.delta_tvl_eth, Dec::from_int(12));
    // no side priced: both the weighted and unweighted values are zero
    let r3 = get_adjusted_amounts(
        Dec::from_int(2),
        Dec::from_int(5),
        Dec::zero(),
        Dec::zero(),
        Dec::from_int(10),
    )
    .unwrap();
    assert_eq!(r3.delta_tvl_eth, Dec::zero());
    assert_eq!(r3.stable_eth_untracked, Dec::zero());
}

#[test]
fn x96_prices_are_beyond_the_exact_range() {
    // the 2^192 fixed-point scale cannot cancel within the component
    // bound, so the conversion reports every input as unrepresentable
    let t0 = token("0xa");
    let t1 = token("0xb");
    assert!(dripswap_core::price::sqrt_price_x96_to_token_prices(Dec::one(), &t0, &t1).is_none());
    assert!(
        dripswap_core::price::sqrt_price_x96_to_token_prices(Dec::from_int(79228), &t0, &t1)
            .is_none()
    );
}
