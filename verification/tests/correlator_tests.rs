use dripswap_core::constants::ZERO_ADDRESS;
use dripswap_core::dec::Dec;
use dripswap_core::filtering::{extract_pool_events, TransferContext};
use dripswap_core::keys::{Field, Key, Table};
use dripswap_core::pb::{
    BlockData, Erc20Token, LogData, LogEvent, Pool, PoolEventType, TransactionData,
};
use dripswap_core::pipeline::{
    collect_fee_mints, detect_fee_mint, map_extract_data_types, store_pools_created, FeeTransfer,
};
use dripswap_core::store::Store;

fn token(addr: &str, decimals: u64) -> Erc20Token {
    Erc20Token {
        address: addr.to_string(),
        name: "tok".to_string(),
        symbol: "TOK".to_string(),
        decimals,
        total_supply: 0,
        whitelist_pools: Vec::new(),
    }
}

fn pool(addr: &str, t0: &str, t1: &str) -> Pool {
    Pool {
        address: addr.to_string(),
        transaction_id: "0xtx".to_string(),
        created_at_block_number: 1,
        created_at_timestamp: 86400,
        fee_tier: 3000,
        log_ordinal: 1,
        ignore_pool: false,
        token0: Some(token(t0, 0)),
        token1: Some(token(t1, 0)),
    }
}

#[test]
fn lock_transfer_is_never_recorded_or_returned() {
    let mut ctx = TransferContext::new_context();
    // the permanently locked minimum-liquidity mint: value 1000 to zero
    ctx.record_transfer("0xpool", 1, "0xpool", ZERO_ADDRESS, 1000);
    // consuming for a burn finds nothing: the lock was never stored
    assert!(ctx.consume_burn("0xpool", 1).is_none());
    // a different value to the zero address is recorded and consumable
    ctx.record_transfer("0xpool", 2, "0xpool", ZERO_ADDRESS, 999);
    assert_eq!(ctx.consume_burn("0xpool", 1), Some(999));
}

#[test]
fn consume_mint_picks_closest_preceding_and_never_reuses() {
    let mut ctx = TransferContext::new_context();
    ctx.record_transfer("0xpool", 2, ZERO_ADDRESS, "0xalice", 100);
    ctx.record_transfer("0xpool", 4, ZERO_ADDRESS, "0xbob", 200);
    // mint at index 5: the closest preceding zero-origin transfer is bob's
    let first = ctx.consume_mint("0xpool", 5).unwrap();
    assert_eq!(first.0, "bob");
    assert_eq!(first.1, 200);
    // a second mint cannot reuse it: alice's transfer is next
    let second = ctx.consume_mint("0xpool", 5).unwrap();
    assert_eq!(second.1, 100);
    // nothing is left: re-querying yields no match
    assert!(ctx.consume_mint("0xpool", 5).is_none());
}

#[test]
fn consume_burn_prefers_completion_then_fallback() {
    let mut ctx = TransferContext::new_context();
    // deposit into the pool before the burn (fallback candidate)
    ctx.record_transfer("0xpool", 3, "0xcarol", "0xpool", 77);
    // burn completion after the burn (preferred)
    ctx.record_transfer("0xpool", 9, "0xpool", ZERO_ADDRESS, 55);
    assert_eq!(ctx.consume_burn("0xpool", 5), Some(55));
    // completion consumed; the fallback remains for the next burn
    assert_eq!(ctx.consume_burn("0xpool", 5), Some(77));
    assert!(ctx.consume_burn("0xpool", 5).is_none());
}

#[test]
fn mint_event_claims_preceding_transfer() {
    // PairCreated -> Transfer(zero, userX, 5000) at 3 -> Mint at 4
    let p = pool("0xpool1", "0xa", "0xb");
    let mut pools_store: Store<Pool> = Store::new_store();
    store_pools_created(
        dripswap_core::pb::Pools { pools: vec![p] },
        &mut pools_store,
    );
    let block = BlockData {
        number: 7,
        timestamp_seconds: 86400,
        transactions: vec![TransactionData {
            hash: "0xtx1".to_string(),
            from: "0xdeployer".to_string(),
            logs: vec![
                LogData {
                    address: "0xpool1".to_string(),
                    ordinal: 3,
                    block_index: 3,
                    event: LogEvent::Transfer {
                        from: ZERO_ADDRESS.to_string(),
                        to: "0xuserX".to_string(),
                        value: 5000,
                    },
                },
                LogData {
                    address: "0xpool1".to_string(),
                    ordinal: 4,
                    block_index: 4,
                    event: LogEvent::Mint {
                        sender: "0xdeployer".to_string(),
                        amount0: 10,
                        amount1: 20,
                    },
                },
            ],
        }],
    };
    let events = map_extract_data_types(&block, &pools_store);
    assert_eq!(events.pool_events.len(), 1);
    match &events.pool_events[0].kind {
        PoolEventType::Mint { owner, amount, .. } => {
            // the recipient is stored in normal form (0x stripped)
            assert_eq!(owner, "userx");
            assert_eq!(*amount, 5000);
        }
        _ => panic!("expected a mint event"),
    }
}

#[test]
fn mint_event_without_transfer_falls_back_to_sender() {
    let p = pool("0xpool1", "0xa", "0xb");
    let mut pools_store: Store<Pool> = Store::new_store();
    store_pools_created(
        dripswap_core::pb::Pools { pools: vec![p] },
        &mut pools_store,
    );
    let block = BlockData {
        number: 7,
        timestamp_seconds: 86400,
        transactions: vec![TransactionData {
            hash: "0xtx1".to_string(),
            from: "0xorigin".to_string(),
            logs: vec![LogData {
                address: "0xpool1".to_string(),
                ordinal: 4,
                block_index: 4,
                event: LogEvent::Mint {
                    sender: "0xdeployer".to_string(),
                    amount0: 10,
                    amount1: 20,
                },
            }],
        }],
    };
    let events = map_extract_data_types(&block, &pools_store);
    assert_eq!(events.pool_events.len(), 1);
    match &events.pool_events[0].kind {
        PoolEventType::Mint { owner, amount, .. } => {
            assert_eq!(owner, "0xdeployer");
            assert_eq!(*amount, 0);
        }
        _ => panic!("expected a mint event"),
    }
}

#[test]
fn extract_swap_event_nets_amounts() {
    let p = pool("0xpool1", "0xa", "0xb");
    let mut ctx = TransferContext::new_context();
    let mut out = Vec::new();
    let log = LogData {
        address: "0xpool1".to_string(),
        ordinal: 9,
        block_index: 9,
        event: LogEvent::Swap {
            sender: "0xs".to_string(),
            to: "0xr".to_string(),
            amount0_in: 3,
            amount0_out: 10,
            amount1_in: 8,
            amount1_out: 2,
        },
    };
    extract_pool_events(&mut out, "0xtx", "0xorigin", &log, &p, 86400, 7, &mut ctx);
    assert_eq!(out.len(), 1);
    match &out[0].kind {
        PoolEventType::Swap {
            amount_0, amount_1, ..
        } => {
            assert_eq!(*amount_0, Dec { num: 7, den: 1 });
            assert_eq!(*amount_1, Dec { num: -6, den: 1 });
        }
        _ => panic!("expected a swap event"),
    }
}

#[test]
fn fee_mint_detected_when_a_transfer_stays_unclaimed() {
    // transfers at log indices 2 (300 to userY) and 7 (7 to the collector),
    // mints at 3 and 6: the mint at 3 claims the first transfer, the mint
    // at 6 finds nothing at or before it unclaimed except nothing new, and
    // the transfer at 7 stays unclaimed: it is the fee mint
    let transfers = vec![
        FeeTransfer {
            log_index: 2,
            to: "0xuserY".to_string(),
            value: 300,
        },
        FeeTransfer {
            log_index: 7,
            to: "0xfeeCollector".to_string(),
            value: 7,
        },
    ];
    let mints = vec![3u64, 6u64];
    assert_eq!(detect_fee_mint(&transfers, &mints), Some(1));
}

#[test]
fn fee_mint_absent_when_every_transfer_is_claimed() {
    // with the second transfer at index 5, the mint at 6 claims it and
    // nothing remains for the fee
    let transfers = vec![
        FeeTransfer {
            log_index: 2,
            to: "0xuserY".to_string(),
            value: 300,
        },
        FeeTransfer {
            log_index: 5,
            to: "0xfeeCollector".to_string(),
            value: 7,
        },
    ];
    let mints = vec![3u64, 6u64];
    assert_eq!(detect_fee_mint(&transfers, &mints), None);
}

#[test]
fn collect_fee_mints_records_the_unclaimed_transfer() {
    let p = pool("0xpool1", "0xa", "0xb");
    let mut pools_store: Store<Pool> = Store::new_store();
    store_pools_created(
        dripswap_core::pb::Pools { pools: vec![p] },
        &mut pools_store,
    );
    let block = BlockData {
        number: 7,
        timestamp_seconds: 86400,
        transactions: vec![TransactionData {
            hash: "0xtx1".to_string(),
            from: "0xorigin".to_string(),
            logs: vec![
                LogData {
                    address: "0xpool1".to_string(),
                    ordinal: 2,
                    block_index: 2,
                    event: LogEvent::Transfer {
                        from: ZERO_ADDRESS.to_string(),
                        to: "0xuserY".to_string(),
                        value: 300,
                    },
                },
                LogData {
                    address: "0xpool1".to_string(),
                    ordinal: 3,
                    block_index: 3,
                    event: LogEvent::Mint {
                        sender: "0xdeployer".to_string(),
                        amount0: 1,
                        amount1: 1,
                    },
                },
                LogData {
                    address: "0xpool1".to_string(),
                    ordinal: 7,
                    block_index: 7,
                    event: LogEvent::Transfer {
                        from: ZERO_ADDRESS.to_string(),
                        to: "0xfeeCollector".to_string(),
                        value: 7,
                    },
                },
            ],
        }],
    };
    let events = map_extract_data_types(&block, &pools_store);
    let fee_mints = collect_fee_mints(&block, &pools_store, &events);
    assert_eq!(fee_mints.len(), 1);
    assert_eq!(fee_mints[0].transaction_id, "0xtx1");
    assert_eq!(fee_mints[0].pool_address, "0xpool1");
    assert_eq!(fee_mints[0].fee_to, "feecollector");
    // 7 LP units scaled by the standard eighteen decimals
    let expected = Dec::from_raw(7, 18).unwrap();
    assert_eq!(fee_mints[0].fee_liquidity, expected);
}

#[test]
fn sync_logs_become_reserve_snapshots() {
    let p = pool("0xpool1", "0xa", "0xb");
    let mut pools_store: Store<Pool> = Store::new_store();
    store_pools_created(
        dripswap_core::pb::Pools { pools: vec![p] },
        &mut pools_store,
    );
    let block = BlockData {
        number: 7,
        timestamp_seconds: 86400,
        transactions: vec![TransactionData {
            hash: "0xtx1".to_string(),
            from: "0xorigin".to_string(),
            logs: vec![LogData {
                address: "0xpool1".to_string(),
                ordinal: 5,
                block_index: 5,
                event: LogEvent::Sync {
                    reserve0: 400,
                    reserve1: 100,
                },
            }],
        }],
    };
    let events = map_extract_data_types(&block, &pools_store);
    assert_eq!(events.pool_sqrt_prices.len(), 1);
    assert_eq!(events.pool_sqrt_prices[0].sqrt_price, 400);
    assert_eq!(events.pool_sqrt_prices[0].tick, 100);
    assert!(!events.pool_sqrt_prices[0].initialized);
    // liquidity extraction is a kept no-op in the V2 schema
    assert_eq!(events.pool_liquidities.len(), 0);
    // one transaction record per pool event; Sync alone adds none
    assert_eq!(events.transactions.len(), 0);
}

#[test]
fn unknown_pool_logs_are_skipped() {
    let pools_store: Store<Pool> = Store::new_store();
    let block = BlockData {
        number: 7,
        timestamp_seconds: 86400,
        transactions: vec![TransactionData {
            hash: "0xtx1".to_string(),
            from: "0xorigin".to_string(),
            logs: vec![LogData {
                address: "0xmystery".to_string(),
                ordinal: 5,
                block_index: 5,
                event: LogEvent::Sync {
                    reserve0: 400,
                    reserve1: 100,
                },
            }],
        }],
    };
    let events = map_extract_data_types(&block, &pools_store);
    assert_eq!(events.pool_sqrt_prices.len(), 0);
    assert_eq!(events.pool_events.len(), 0);
}

#[test]
fn pool_registry_keeps_keys_and_key_text_matches() {
    let p = pool("0xpool1", "0xa", "0xb");
    let mut pools_store: Store<Pool> = Store::new_store();
    store_pools_created(
        dripswap_core::pb::Pools { pools: vec![p] },
        &mut pools_store,
    );
    let key = Key::entity(Table::Pair, "0xpool1".to_string());
    assert!(pools_store.get_last(&key).is_some());
    assert_eq!(key.render(), "pair:0xpool1");
    let wkey = Key::window(Table::PoolDayData, 19000, "0xpool1".to_string(), Field::Token0);
    assert_eq!(wkey.render(), "PoolDayData:19000:0xpool1:token0");
}
