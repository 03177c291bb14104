use dripswap_core::constants::ZERO_ADDRESS;
use dripswap_core::dec::Dec;
use dripswap_core::keys::{Field, Key, Table};
use dripswap_core::pb::{
    BlockData, Erc20Token, Events, LogData, LogEvent, Pool, PoolEvent, PoolEventType,
    PoolSqrtPrice, TransactionData,
};
use dripswap_core::pipeline::{
    merge_deltas_by_ordinal, store_eth_prices, store_max_windows, store_min_windows, store_prices,
    store_token_tvl, store_total_tx_counts, OraclePrice,
};
use dripswap_core::price::WETH_ADDRESS;
use dripswap_core::store::{Delta, DeltaOp, Store};

fn token(addr: &str, decimals: u64) -> Erc20Token {
    Erc20Token {
        address: addr.to_string(),
        name: "tok".to_string(),
        symbol: "TOK".to_string(),
        decimals,
        total_supply: 0,
        whitelist_pools: Vec::new(),
    }
}

fn pool_of(addr: &str, t0: &str, t1: &str) -> Pool {
    Pool {
        address: addr.to_string(),
        transaction_id: "0xtx".to_string(),
        created_at_block_number: 1,
        created_at_timestamp: 86400,
        fee_tier: 3000,
        log_ordinal: 1,
        ignore_pool: false,
        token0: Some(token(t0, 0)),
        token1: Some(token(t1, 0)),
    }
}

fn swap_event(ordinal: u64) -> PoolEvent {
    PoolEvent {
        log_ordinal: ordinal,
        log_index: ordinal,
        pool_address: "0xp".to_string(),
        token0: "0xa".to_string(),
        token1: "0xb".to_string(),
        fee: 3000,
        transaction_id: "0xtx".to_string(),
        timestamp: 86400,
        created_at_block_number: 1,
        kind: PoolEventType::Swap {
            sender: "0xs".to_string(),
            recipient: "0xr".to_string(),
            origin: "0xo".to_string(),
            amount_0: Dec::from_int(2),
            amount_1: Dec::from_int(-3),
        },
    }
}

fn events_with(pool_events: Vec<PoolEvent>, snapshots: Vec<PoolSqrtPrice>) -> Events {
    let mut events = Events::new_empty();
    events.pool_events = pool_events;
    events.pool_sqrt_prices = snapshots;
    events
}

#[test]
fn tx_counts_accumulate_per_scope() {
    let ts = 40 * 86400 + 7;
    let day = ts / 86400;
    let mut out: Store<Dec> = Store::new_store();
    let events = events_with(vec![swap_event(1), swap_event(2)], vec![]);
    store_total_tx_counts(ts, &events, &mut out);
    let pool_key = Key::entity(Table::Pool, "0xp".to_string());
    assert_eq!(out.get_last(&pool_key), Some(&Dec { num: 2, den: 1 }));
    let day_key = Key::window(Table::UniswapDayData, day, String::new(), Field::NoField);
    assert_eq!(out.get_last(&day_key), Some(&Dec { num: 2, den: 1 }));
    let t0_key = Key::entity(Table::Token, "0xa".to_string());
    assert_eq!(out.get_last(&t0_key), Some(&Dec { num: 2, den: 1 }));
}

#[test]
fn day_bucket_is_pruned_once_the_next_day_is_established() {
    let ts1 = 40 * 86400 + 7;
    let day1 = ts1 / 86400;
    let ts2 = ts1 + 86400;
    let day2 = ts2 / 86400;
    let mut out: Store<Dec> = Store::new_store();
    let events = events_with(vec![swap_event(1)], vec![]);
    store_total_tx_counts(ts1, &events, &mut out);
    let day1_key = Key::window(Table::UniswapDayData, day1, String::new(), Field::NoField);
    // the current day bucket is queryable until the next one is current
    assert!(out.get_last(&day1_key).is_some());
    // establishing day two prunes day one and writes into day two
    let events2 = events_with(vec![swap_event(9)], vec![]);
    store_total_tx_counts(ts2, &events2, &mut out);
    assert!(out.get_last(&day1_key).is_none());
    let day2_key = Key::window(Table::UniswapDayData, day2, String::new(), Field::NoField);
    assert_eq!(out.get_last(&day2_key), Some(&Dec { num: 1, den: 1 }));
    // entity-scoped counters survive the prune and keep accumulating
    let pool_key = Key::entity(Table::Pool, "0xp".to_string());
    assert_eq!(out.get_last(&pool_key), Some(&Dec { num: 2, den: 1 }));
}

#[test]
fn reserve_snapshots_become_ratio_prices() {
    let ts = 40 * 86400;
    let mut pools: Store<Pool> = Store::new_store();
    pools.set(Key::entity(Table::Pair, "0xp".to_string()), 1, pool_of("0xp", "0xa", "0xb"));
    let snapshot = PoolSqrtPrice {
        pool_address: "0xp".to_string(),
        ordinal: 5,
        sqrt_price: 400,
        tick: 100,
        initialized: false,
    };
    let mut out: Store<Dec> = Store::new_store();
    let events = events_with(vec![], vec![snapshot]);
    store_prices(ts, &events, &pools, &mut out);
    // token0 price = reserve0 / reserve1 = 4; token1 price = 1/4
    let t0_key = Key::two_addr(Table::Pool, "0xp".to_string(), "0xa".to_string(), Field::Token0);
    assert_eq!(out.get_at(&t0_key, 5), Some(&Dec { num: 4, den: 1 }));
    let pair_ba = Key::two_addr(Table::Pair, "0xb".to_string(), "0xa".to_string(), Field::NoField);
    assert_eq!(out.get_at(&pair_ba, 5), Some(&Dec { num: 1, den: 4 }));
    // the windows got the same tick
    let day = ts / 86400;
    let w = Key::window(Table::PoolDayData, day, "0xp".to_string(), Field::Token0);
    assert_eq!(out.get_last(&w), Some(&Dec { num: 4, den: 1 }));
}

#[test]
fn extrema_windows_track_open_low_high() {
    let ts = 40 * 86400;
    let day = ts / 86400;
    let k = Key::window(Table::TokenDayData, day, "0xt".to_string(), Field::NoField);
    let tick = |ordinal: u64, op: DeltaOp, old: i64, new: i64| Delta {
        key: k.dup(),
        ordinal,
        old_value: Dec::from_int(old.into()),
        new_value: Dec::from_int(new.into()),
        operation: op,
    };
    let ticks = || {
        vec![
            tick(1, DeltaOp::Create, 0, 10),
            tick(2, DeltaOp::Update, 10, 4),
            tick(3, DeltaOp::Update, 4, 25),
        ]
    };
    let mut lows: Store<Dec> = Store::new_store();
    store_min_windows(ts, ticks(), vec![], &mut lows);
    let open = Key::window(Table::TokenDayData, day, "0xt".to_string(), Field::Open);
    let low = Key::window(Table::TokenDayData, day, "0xt".to_string(), Field::Low);
    // the open is seeded once on creation and not lowered by later ticks
    assert_eq!(lows.get_last(&open), Some(&Dec { num: 10, den: 1 }));
    assert_eq!(lows.get_last(&low), Some(&Dec { num: 4, den: 1 }));
    let mut highs: Store<Dec> = Store::new_store();
    store_max_windows(ts, ticks(), vec![], &mut highs);
    let high = Key::window(Table::TokenDayData, day, "0xt".to_string(), Field::High);
    assert_eq!(highs.get_last(&high), Some(&Dec { num: 25, den: 1 }));
}

#[test]
fn delta_feeds_merge_by_ordinal() {
    let k = Key::entity(Table::Token, "0xt".to_string());
    let d = |ordinal: u64| Delta {
        key: k.dup(),
        ordinal,
        old_value: Dec::zero(),
        new_value: Dec::one(),
        operation: DeltaOp::Create,
    };
    let merged = merge_deltas_by_ordinal(vec![d(1), d(5)], vec![d(2), d(4), d(9)]);
    let ordinals: Vec<u64> = merged.iter().map(|x| x.ordinal).collect();
    assert_eq!(ordinals, vec![1, 2, 4, 5, 9]);
}

#[test]
fn eth_prices_write_bundle_and_derived_prices() {
    let ts = 40 * 86400;
    let mut pools: Store<Pool> = Store::new_store();
    pools.set(
        Key::entity(Table::Pair, "0xp".to_string()),
        1,
        pool_of("0xp", WETH_ADDRESS, "0xb"),
    );
    let prices: Store<Dec> = Store::new_store();
    let wl: Store<Vec<String>> = Store::new_store();
    let native: Store<Dec> = Store::new_store();
    let liq: Store<u128> = Store::new_store();
    let oracle = Some(OraclePrice { price: Dec::from_int(2000), round_id: 12 });
    let snapshot = PoolSqrtPrice {
        pool_address: "0xp".to_string(),
        ordinal: 5,
        sqrt_price: 400,
        tick: 100,
        initialized: false,
    };
    let mut out: Store<Dec> = Store::new_store();
    let events = events_with(vec![], vec![snapshot]);
    store_eth_prices(ts, &events, &pools, &prices, &wl, &native, &liq, &oracle, &mut out);
    // the oracle price wins the bundle; the wrapped native token derives one
    assert_eq!(out.get_at(&Key::bundle(), 5), Some(&Dec { num: 2000, den: 1 }));
    let round = Key::entity_field(Table::Bundle, String::new(), Field::RoundId);
    assert_eq!(out.get_at(&round, 5), Some(&Dec { num: 12, den: 1 }));
    let dprice = Key::entity_field(
        Table::Token,
        WETH_ADDRESS.to_string(),
        Field::DerivedPriceEth,
    );
    assert_eq!(out.get_at(&dprice, 5), Some(&Dec { num: 1, den: 1 }));
    // the USD tick reached the token windows
    let day = ts / 86400;
    let w = Key::window(Table::TokenDayData, day, WETH_ADDRESS.to_string(), Field::NoField);
    assert_eq!(out.get_last(&w), Some(&Dec { num: 2000, den: 1 }));
}

#[test]
fn token_tvl_accumulates_reserve_changes() {
    let mut pools: Store<Pool> = Store::new_store();
    pools.set(Key::entity(Table::Pair, "0xp".to_string()), 1, pool_of("0xp", "0xa", "0xb"));
    let native_key = Key::two_addr(
        Table::Pool,
        "0xp".to_string(),
        "0xa".to_string(),
        Field::Native,
    );
    let deltas = vec![
        Delta {
            key: native_key.dup(),
            ordinal: 1,
            old_value: Dec::zero(),
            new_value: Dec::from_int(10),
            operation: DeltaOp::Create,
        },
        Delta {
            key: native_key.dup(),
            ordinal: 2,
            old_value: Dec::from_int(10),
            new_value: Dec::from_int(4),
            operation: DeltaOp::Update,
        },
    ];
    let mut out: Store<Dec> = Store::new_store();
    store_token_tvl(&deltas, &pools, &mut out);
    // 10 in, then 6 out: the token's TVL nets to 4
    let token_key = Key::entity(Table::Token, "0xa".to_string());
    assert_eq!(out.get_last(&token_key), Some(&Dec { num: 4, den: 1 }));
    let pool_side = Key::two_addr(
        Table::Pool,
        "0xp".to_string(),
        "0xa".to_string(),
        Field::Token0,
    );
    assert_eq!(out.get_last(&pool_side), Some(&Dec { num: 4, den: 1 }));
}

#[test]
fn swap_volumes_and_fees_accumulate() {
    let ts = 40 * 86400;
    let mut pools: Store<Pool> = Store::new_store();
    pools.set(Key::entity(Table::Pair, "0xp".to_string()), 1, pool_of("0xp", "0xa", "0xb"));
    // the pool has been counted, so swaps are aggregated
    let mut tx_counts: Store<Dec> = Store::new_store();
    tx_counts.set(Key::entity(Table::Pool, "0xp".to_string()), 1, Dec::one());
    let mut eth_prices: Store<Dec> = Store::new_store();
    eth_prices.set(Key::bundle(), 1, Dec::from_int(10));
    eth_prices.set(
        Key::entity_field(Table::Token, "0xa".to_string(), Field::DerivedPriceEth),
        1,
        Dec::one(),
    );
    eth_prices.set(
        Key::entity_field(Table::Token, "0xb".to_string(), Field::DerivedPriceEth),
        1,
        Dec::one(),
    );
    let mut out: Store<Dec> = Store::new_store();
    let events = events_with(vec![swap_event(5)], vec![]);
    dripswap_core::pipeline::store_swaps_volume(
        ts,
        &events,
        &pools,
        &tx_counts,
        &eth_prices,
        &mut out,
    );
    // absolute token volumes: |2| and |-3|
    let v0 = Key::entity_field(Table::Pool, "0xp".to_string(), Field::VolumeToken0);
    assert_eq!(out.get_last(&v0), Some(&Dec { num: 2, den: 1 }));
    let tv = Key::entity_field(Table::Token, "0xb".to_string(), Field::Volume);
    assert_eq!(out.get_last(&tv), Some(&Dec { num: 3, den: 1 }));
    // both sides priced at one: 5 ETH two-sided, halved, at 10 USD per ETH
    let vusd = Key::entity_field(Table::Pool, "0xp".to_string(), Field::VolumeUsd);
    assert_eq!(out.get_last(&vusd), Some(&Dec { num: 25, den: 1 }));
    // the fee at tier 3000: 25 * 3000 / 1000000 = 3/40 USD
    let fusd = Key::entity_field(Table::Pool, "0xp".to_string(), Field::FeesUsd);
    assert_eq!(out.get_last(&fusd), Some(&Dec { num: 3, den: 40 }));
    // a mint counts a liquidity provider instead
    let mut out2: Store<Dec> = Store::new_store();
    let mut mint = swap_event(6);
    mint.kind = PoolEventType::Mint {
        owner: "0xo".to_string(),
        sender: "0xs".to_string(),
        origin: "0xo".to_string(),
        amount: 1,
        amount_0: Dec::one(),
        amount_1: Dec::one(),
    };
    let events2 = events_with(vec![mint], vec![]);
    dripswap_core::pipeline::store_swaps_volume(
        ts,
        &events2,
        &pools,
        &tx_counts,
        &eth_prices,
        &mut out2,
    );
    let lp = Key::entity_field(Table::Pool, "0xp".to_string(), Field::LiquidityProviderCount);
    assert_eq!(out2.get_last(&lp), Some(&Dec { num: 1, den: 1 }));
}

#[test]
fn derived_tvl_revalues_pool_and_tokens() {
    let ts = 40 * 86400;
    let mut pools: Store<Pool> = Store::new_store();
    pools.set(Key::entity(Table::Pair, "0xp".to_string()), 1, pool_of("0xp", "0xa", "0xb"));
    let mut eth_prices: Store<Dec> = Store::new_store();
    eth_prices.set(Key::bundle(), 1, Dec::from_int(10));
    eth_prices.set(
        Key::entity_field(Table::Token, "0xa".to_string(), Field::DerivedPriceEth),
        1,
        Dec::from_int(2),
    );
    eth_prices.set(
        Key::entity_field(Table::Token, "0xb".to_string(), Field::DerivedPriceEth),
        1,
        Dec::one(),
    );
    let mut reserves: Store<Dec> = Store::new_store();
    let r0_key = Key::two_addr(Table::Pool, "0xp".to_string(), "0xa".to_string(), Field::Native);
    let r1_key = Key::two_addr(Table::Pool, "0xp".to_string(), "0xb".to_string(), Field::Native);
    reserves.set(r0_key.dup(), 1, Dec::from_int(3));
    reserves.set(r1_key.dup(), 1, Dec::from_int(4));
    let mut token_tvl: Store<Dec> = Store::new_store();
    token_tvl.set(Key::entity(Table::Token, "0xa".to_string()), 1, Dec::from_int(3));
    let deltas = vec![Delta {
        key: r0_key.dup(),
        ordinal: 1,
        old_value: Dec::zero(),
        new_value: Dec::from_int(3),
        operation: DeltaOp::Create,
    }];
    let mut out: Store<Dec> = Store::new_store();
    dripswap_core::pipeline::store_derived_tvl(
        ts,
        &deltas,
        &token_tvl,
        &pools,
        &eth_prices,
        &reserves,
        &mut out,
    );
    // the pool's ETH value: 3*2 + 4*1 = 10; in USD at rate 10: 100
    let pe = Key::entity_field(Table::Pool, "0xp".to_string(), Field::TotalValueLockedEth);
    assert_eq!(out.get_at(&pe, 1), Some(&Dec { num: 10, den: 1 }));
    let pu = Key::entity_field(Table::Pool, "0xp".to_string(), Field::TotalValueLockedUsd);
    assert_eq!(out.get_at(&pu, 1), Some(&Dec { num: 100, den: 1 }));
    // token a: tvl 3, derived 2 ETH, rate 10: 60 USD
    let tu = Key::entity_field(Table::Token, "0xa".to_string(), Field::TotalValueLockedUsd);
    assert_eq!(out.get_at(&tu, 1), Some(&Dec { num: 60, den: 1 }));
}

#[test]
fn snapshots_are_stored_under_their_pool_key() {
    let snapshot = PoolSqrtPrice {
        pool_address: "0xp".to_string(),
        ordinal: 5,
        sqrt_price: 400,
        tick: 100,
        initialized: false,
    };
    let events = events_with(vec![], vec![snapshot]);
    let mut out: Store<PoolSqrtPrice> = Store::new_store();
    dripswap_core::pipeline::store_pool_sqrt_price(events, &mut out);
    let key = Key::entity(Table::Pool, "0xp".to_string());
    let stored = out.get_at(&key, 5).unwrap();
    assert_eq!(stored.sqrt_price, 400);
    assert_eq!(stored.tick, 100);
    assert!(out.get_at(&key, 4).is_none());
}

#[test]
fn transfer_users_are_collected_once_and_normalized() {
    let mut pools: Store<Pool> = Store::new_store();
    pools.set(Key::entity(Table::Pair, "0xp".to_string()), 1, pool_of("0xp", "0xa", "0xb"));
    let transfer = |idx: u64, from: &str, to: &str| LogData {
        address: "0xp".to_string(),
        ordinal: idx,
        block_index: idx,
        event: LogEvent::Transfer {
            from: from.to_string(),
            to: to.to_string(),
            value: 5,
        },
    };
    let block = BlockData {
        number: 7,
        timestamp_seconds: 86400,
        transactions: vec![TransactionData {
            hash: "0xtx1".to_string(),
            from: "0xorigin".to_string(),
            logs: vec![
                transfer(1, ZERO_ADDRESS, "0xAlice"),
                transfer(2, "0xalice", "0xBob"),
                // an unregistered pool's transfer names nobody
                LogData {
                    address: "0xmystery".to_string(),
                    ordinal: 3,
                    block_index: 3,
                    event: LogEvent::Transfer {
                        from: "0xcarol".to_string(),
                        to: "0xdan".to_string(),
                        value: 5,
                    },
                },
            ],
        }],
    };
    let users = dripswap_core::pipeline::collect_transfer_users(&block, &pools);
    // alice appears once despite two mentions and mixed case
    assert_eq!(users, vec!["alice".to_string(), "bob".to_string()]);
}

#[test]
fn pair_created_logs_become_pools() {
    let block = BlockData {
        number: 9,
        timestamp_seconds: 86400,
        transactions: vec![TransactionData {
            hash: "0xtx1".to_string(),
            from: "0xdeployer".to_string(),
            logs: vec![
                LogData {
                    address: "0xfactory".to_string(),
                    ordinal: 4,
                    block_index: 4,
                    event: LogEvent::PairCreated {
                        token0: Some(token("0xa", 18)),
                        token1: Some(token("0xb", 18)),
                        pair: "0xp".to_string(),
                    },
                },
                // unresolved token metadata: the pair is skipped
                LogData {
                    address: "0xfactory".to_string(),
                    ordinal: 5,
                    block_index: 5,
                    event: LogEvent::PairCreated {
                        token0: None,
                        token1: Some(token("0xc", 18)),
                        pair: "0xq".to_string(),
                    },
                },
            ],
        }],
    };
    let pools = dripswap_core::pipeline::map_pools_created(&block);
    assert_eq!(pools.pools.len(), 1);
    assert_eq!(pools.pools[0].address, "0xp");
    assert_eq!(pools.pools[0].log_ordinal, 4);
    assert_eq!(pools.pools[0].transaction_id, "0xtx1");
    assert_eq!(pools.pools[0].fee_tier, 3000);
}

#[test]
fn whitelist_pools_append_in_order() {
    let mut tok = token("0xt", 18);
    tok.whitelist_pools = vec!["0xp1".to_string(), "0xp2".to_string()];
    let batch = dripswap_core::pb::Erc20Tokens { tokens: vec![tok] };
    let mut wl: Store<Vec<String>> = Store::new_store();
    dripswap_core::pipeline::store_tokens_whitelist_pools(batch, &mut wl);
    let key = Key::entity(Table::Token, "0xt".to_string());
    let list = wl.get_last(&key).unwrap();
    assert_eq!(list, &vec!["0xp1".to_string(), "0xp2".to_string()]);
}
