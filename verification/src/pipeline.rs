//! The per-block aggregation handlers: they take the block's extracted
//! events and the input stores, and write derived metrics — prices,
//! volumes, fees, transaction counts, TVL — into the output stores,
//! bucketed by day, hour and minute, pruning the bucket one period behind
//! the current one.

use vstd::prelude::*;
use crate::constants::UNISWAP_V2_FACTORY;
use crate::dec::Dec;
use crate::keys::{
    kv_entity, kv_entity_field, kv_two_addr, kv_window, kv_window2, Field, Key, KeyV, Table,
};
use crate::pb::{
    AdjustedAmounts, BlockData, Erc20Token, Erc20Tokens, Events, LogData, LogEvent, Pool,
    PoolEvent, PoolEventType, Pools, PoolSqrtPrice, TokenV, TransactionData,
};
use crate::store::{
    add_many_model, add_model, get_at_spec, get_last_spec, key_views, remove_bucket_spec, set_many_model,
    store_values_wf, Delta, DeltaOp, EntryV, Store,
};
use crate::text::{normalize_address, normalized};

verus! {

/// An ETH/USD price obtained from the external oracle, with its round.
pub struct OraclePrice {
    pub price: Dec,
    pub round_id: u64,
}

/// The seconds of one day bucket.
pub const DAY_SECONDS: u64 = 86400;

/// The seconds of one hour bucket.
pub const HOUR_SECONDS: u64 = 3600;

/// The seconds of one minute bucket.
pub const MINUTE_SECONDS: u64 = 60;

/// The change a delta represents: new value minus old value.
pub fn calculate_diff(delta: &Delta) -> (r: Option<Dec>)
    requires
        delta.old_value.wf(),
        delta.new_value.wf(),
    ensures
        r == delta.new_value.spec_sub(delta.old_value),
{
    delta.new_value.sub(delta.old_value)
}

/// Model of [`get_adjusted_amounts`]: both sides valued in ETH through
/// their derived prices; the whitelist-weighted figure counts only sides with a
/// known (nonzero) price, doubling a lone side; the unweighted figure sums
/// both sides regardless; USD figures scale by the ETH/USD rate. `None`
/// when a product or sum leaves the representable range.
pub open spec fn adjusted_amounts_spec(
    amount0: Dec,
    amount1: Dec,
    price0_eth: Dec,
    price1_eth: Dec,
    eth_usd: Dec,
) -> Option<AdjustedAmounts> {
    match amount0.spec_mul(price0_eth) {
        None => None,
        Some(eth0) => match amount1.spec_mul(price1_eth) {
            None => None,
            Some(eth1) => match eth0.spec_add(eth1) {
                None => None,
                Some(both) => {
                    let weighted_opt: Option<Dec> = if !price0_eth.is_zero_spec()
                        && !price1_eth.is_zero_spec() {
                        Some(both)
                    } else if !price0_eth.is_zero_spec() {
                        eth0.spec_mul(Dec { num: 2, den: 1 })
                    } else if !price1_eth.is_zero_spec() {
                        eth1.spec_mul(Dec { num: 2, den: 1 })
                    } else {
                        Some(Dec { num: 0, den: 1 })
                    };
                    match weighted_opt {
                        None => None,
                        Some(weighted) => match weighted.spec_mul(eth_usd) {
                            None => None,
                            Some(weighted_usd) => match both.spec_mul(eth_usd) {
                                None => None,
                                Some(both_usd) => Some(
                                    AdjustedAmounts {
                                        delta_tvl_eth: weighted,
                                        delta_tvl_usd: weighted_usd,
                                        stable_eth_untracked: both,
                                        stable_usd_untracked: both_usd,
                                    },
                                ),
                            },
                        },
                    }
                },
            },
        },
    }
}

/// The ETH- and USD-denominated value of a pair of token amounts, in
/// whitelist-weighted and unweighted form.
pub fn get_adjusted_amounts(
    amount0: Dec,
    amount1: Dec,
    price0_eth: Dec,
    price1_eth: Dec,
    eth_usd: Dec,
) -> (r: Option<AdjustedAmounts>)
    requires
        amount0.wf(),
        amount1.wf(),
        price0_eth.wf(),
        price1_eth.wf(),
        eth_usd.wf(),
    ensures
        r == adjusted_amounts_spec(amount0, amount1, price0_eth, price1_eth, eth_usd),
        r is Some ==> r.unwrap().delta_tvl_eth.wf() && r.unwrap().delta_tvl_usd.wf()
            && r.unwrap().stable_eth_untracked.wf() && r.unwrap().stable_usd_untracked.wf(),
{
    let eth0 = match amount0.mul(price0_eth) {
        None => {
            return None;
        },
        Some(v) => {
            proof {
                crate::dec::lemma_mul_frac(amount0, price0_eth);
            }
            v
        },
    };
    let eth1 = match amount1.mul(price1_eth) {
        None => {
            return None;
        },
        Some(v) => {
            proof {
                crate::dec::lemma_mul_frac(amount1, price1_eth);
            }
            v
        },
    };
    let both = match eth0.add(eth1) {
        None => {
            return None;
        },
        Some(v) => {
            proof {
                crate::dec::lemma_add_frac(eth0, eth1);
            }
            v
        },
    };
    let two = Dec::from_int(2);
    let weighted: Dec = if !price0_eth.is_zero() && !price1_eth.is_zero() {
        both
    } else if !price0_eth.is_zero() {
        match eth0.mul(two) {
            None => {
                return None;
            },
            Some(v) => {
                proof {
                    crate::dec::lemma_mul_frac(eth0, two);
                }
                v
            },
        }
    } else if !price1_eth.is_zero() {
        match eth1.mul(two) {
            None => {
                return None;
            },
            Some(v) => {
                proof {
                    crate::dec::lemma_mul_frac(eth1, two);
                }
                v
            },
        }
    } else {
        Dec::zero()
    };
    let weighted_usd = match weighted.mul(eth_usd) {
        None => {
            return None;
        },
        Some(v) => {
            proof {
                crate::dec::lemma_mul_frac(weighted, eth_usd);
            }
            v
        },
    };
    let both_usd = match both.mul(eth_usd) {
        None => {
            return None;
        },
        Some(v) => {
            proof {
                crate::dec::lemma_mul_frac(both, eth_usd);
            }
            v
        },
    };
    Some(
        AdjustedAmounts {
            delta_tvl_eth: weighted,
            delta_tvl_usd: weighted_usd,
            stable_eth_untracked: both,
            stable_usd_untracked: both_usd,
        },
    )
}

/// The derived ETH price of a token as of `ord`, zero when absent.
pub fn get_derived_eth_price(ord: u64, token_addr: &String, eth_prices_store: &Store<Dec>) -> (r:
    Dec)
    requires
        store_values_wf(eth_prices_store@),
    ensures
        r == (match get_at_spec(
            eth_prices_store@,
            kv_entity_field(Table::Token, token_addr@, Field::DerivedPriceEth),
            ord,
        ) {
            Some(v) => v,
            None => Dec { num: 0, den: 1 },
        }),
        r.wf(),
{
    let key = Key::entity_field(Table::Token, token_addr.clone(), Field::DerivedPriceEth);
    match eth_prices_store.get_at(&key, ord) {
        Some(v) => {
            proof {
                crate::store::lemma_get_at_wf(eth_prices_store@, key@, ord);
            }
            *v
        },
        None => Dec::zero(),
    }
}

/// The total value locked of a token as of `ord`, zero when absent.
pub fn get_token_tvl(ord: u64, token_addr: &String, token_tvl_store: &Store<Dec>) -> (r: Dec)
    requires
        store_values_wf(token_tvl_store@),
    ensures
        r == (match get_at_spec(token_tvl_store@, kv_entity(Table::Token, token_addr@), ord) {
            Some(v) => v,
            None => Dec { num: 0, den: 1 },
        }),
        r.wf(),
{
    let key = Key::entity(Table::Token, token_addr.clone());
    match token_tvl_store.get_at(&key, ord) {
        Some(v) => {
            proof {
                crate::store::lemma_get_at_wf(token_tvl_store@, key@, ord);
            }
            *v
        },
        None => Dec::zero(),
    }
}

/// Model of [`store_pool_sqrt_price`], from snapshot `i`: every reserve
/// snapshot is stored under its pool key at its ordinal.
pub open spec fn pool_sqrt_price_model(
    s: Seq<EntryV<PoolSqrtPrice>>,
    evs: Seq<PoolSqrtPrice>,
    i: int,
) -> Seq<EntryV<PoolSqrtPrice>>
    decreases evs.len() - i,
{
    if i < 0 || i >= evs.len() {
        s
    } else {
        pool_sqrt_price_model(
            s.push(
                EntryV {
                    key: kv_entity(Table::Pool, evs[i].pool_address@),
                    ordinal: evs[i].ordinal,
                    value: evs[i],
                },
            ),
            evs,
            i + 1,
        )
    }
}

/// Stores each reserve snapshot under its pool key at its ordinal.
pub fn store_pool_sqrt_price(events: Events, store: &mut Store<PoolSqrtPrice>)
    ensures
        final(store)@ == pool_sqrt_price_model(old(store)@, events.pool_sqrt_prices@, 0),
{
    let ghost evs = events.pool_sqrt_prices@;
    let mut remaining = events.pool_sqrt_prices;
    let total = remaining.len();
    let mut i: usize = 0;
    while i < total
        invariant
            0 <= i <= total,
            total == evs.len(),
            remaining@ =~= evs.skip(i as int),
            pool_sqrt_price_model(store@, evs, i as int) == pool_sqrt_price_model(
                old(store)@,
                evs,
                0,
            ),
        decreases total - i,
    {
        let ghost rem = remaining@;
        let snapshot = remaining.remove(0);
        proof {
            assert(rem[0] == evs[i as int]);
            assert(remaining@ =~= evs.skip(i + 1));
        }
        let key = Key::entity(Table::Pool, snapshot.pool_address.clone());
        store.set(key, snapshot.ordinal, snapshot);
        i = i + 1;
    }
}

/// The day bucket of a timestamp.
pub open spec fn day_of(ts: u64) -> u64 {
    (ts as int / 86400) as u64
}

/// The hour bucket of a timestamp.
pub open spec fn hour_of(ts: u64) -> u64 {
    (ts as int / 3600) as u64
}

/// The minute bucket of a timestamp.
pub open spec fn minute_of(ts: u64) -> u64 {
    (ts as int / 60) as u64
}

/// The factory address in normal form (as event addresses are rendered).
pub open spec fn factory_addr_spec() -> Seq<char> {
    normalized(UNISWAP_V2_FACTORY@)
}

/// Model of [`store_pools_created`], from position `i`.
pub open spec fn pools_created_model(s: Seq<EntryV<Pool>>, ps: Seq<Pool>, i: int) -> Seq<
    EntryV<Pool>,
>
    decreases ps.len() - i,
{
    if i < 0 || i >= ps.len() {
        s
    } else {
        pools_created_model(
            s.push(
                EntryV {
                    key: kv_entity(Table::Pair, ps[i].address@),
                    ordinal: ps[i].log_ordinal,
                    value: ps[i],
                },
            ),
            ps,
            i + 1,
        )
    }
}

/// Registers each created pool under its pair key.
pub fn store_pools_created(pools: Pools, store: &mut Store<Pool>)
    ensures
        final(store)@ == pools_created_model(old(store)@, pools.pools@, 0),
{
    let ghost ps = pools.pools@;
    let mut remaining = pools.pools;
    let total = remaining.len();
    let mut i: usize = 0;
    while i < total
        invariant
            0 <= i <= total,
            total == ps.len(),
            remaining@ =~= ps.skip(i as int),
            pools_created_model(store@, ps, i as int) == pools_created_model(old(store)@, ps, 0),
        decreases total - i,
    {
        let ghost rem = remaining@;
        let p = remaining.remove(0);
        proof {
            assert(rem[0] == ps[i as int]);
            assert(remaining@ =~= ps.skip(i + 1));
        }
        let key = Key::entity(Table::Pair, p.address.clone());
        store.set(key, p.log_ordinal, p);
        i = i + 1;
    }
}

/// Model of [`store_tokens`]: each pool counts one for each of its two
/// token addresses.
pub open spec fn store_tokens_model(s: Seq<EntryV<Dec>>, ps: Seq<Pool>, i: int) -> Seq<EntryV<Dec>>
    decreases ps.len() - i,
{
    if i < 0 || i >= ps.len() {
        s
    } else {
        let keys = seq![
            kv_entity(Table::Token, ps[i]@.token0.unwrap().address),
            kv_entity(Table::Token, ps[i]@.token1.unwrap().address),
        ];
        store_tokens_model(
            add_many_model(s, keys, ps[i].log_ordinal, Dec { num: 1, den: 1 }),
            ps,
            i + 1,
        )
    }
}

/// Counts one per pool under each of its token keys.
pub fn store_tokens(pools: &Pools, store: &mut Store<Dec>)
    requires
        store_values_wf(old(store)@),
        forall|i: int| 0 <= i < pools.pools@.len() ==> (#[trigger] pools.pools@[i]).has_tokens(),
    ensures
        final(store)@ == store_tokens_model(old(store)@, pools.pools@, 0),
        store_values_wf(final(store)@),
{
    let ghost ps = pools.pools@;
    let total = pools.pools.len();
    let mut i: usize = 0;
    while i < total
        invariant
            0 <= i <= total,
            total == ps.len(),
            pools.pools@ == ps,
            forall|j: int| 0 <= j < ps.len() ==> (#[trigger] ps[j]).has_tokens(),
            store_values_wf(store@),
            store_tokens_model(store@, ps, i as int) == store_tokens_model(old(store)@, ps, 0),
        decreases total - i,
    {
        let pool = &pools.pools[i];
        let t0 = pool.token0_ref();
        let t1 = pool.token1_ref();
        let mut keys: Vec<Key> = Vec::new();
        keys.push(Key::entity(Table::Token, t0.address.clone()));
        keys.push(Key::entity(Table::Token, t1.address.clone()));
        proof {
            assert(crate::store::key_views(keys@) =~= seq![
                kv_entity(Table::Token, ps[i as int]@.token0.unwrap().address),
                kv_entity(Table::Token, ps[i as int]@.token1.unwrap().address),
            ]);
        }
        store.add_many(keys, pool.log_ordinal, Dec::one());
        i = i + 1;
    }
}

/// Model of [`store_pool_count`]: one accumulate on the factory pair
/// counter per pool.
pub open spec fn pool_count_model(s: Seq<EntryV<Dec>>, ps: Seq<Pool>, i: int) -> Seq<EntryV<Dec>>
    decreases ps.len() - i,
{
    if i < 0 || i >= ps.len() {
        s
    } else {
        pool_count_model(
            crate::store::add_model(
                s,
                kv_entity_field(Table::Factory, Seq::<char>::empty(), Field::PairCount),
                ps[i].log_ordinal,
                Dec { num: 1, den: 1 },
            ),
            ps,
            i + 1,
        )
    }
}

/// Counts created pools on the factory's pair counter.
pub fn store_pool_count(pools: &Pools, store: &mut Store<Dec>)
    requires
        store_values_wf(old(store)@),
    ensures
        final(store)@ == pool_count_model(old(store)@, pools.pools@, 0),
        store_values_wf(final(store)@),
{
    let ghost ps = pools.pools@;
    let total = pools.pools.len();
    let mut i: usize = 0;
    while i < total
        invariant
            0 <= i <= total,
            total == ps.len(),
            pools.pools@ == ps,
            store_values_wf(store@),
            pool_count_model(store@, ps, i as int) == pool_count_model(old(store)@, ps, 0),
        decreases total - i,
    {
        let pool = &pools.pools[i];
        let key = Key::entity_field(Table::Factory, String::new(), Field::PairCount);
        store.add_value(key, pool.log_ordinal, Dec::one());
        i = i + 1;
    }
}

/// The keys that count one pool event for every affected scope: the pool,
/// both tokens, the factory, and the day/hour/minute windows.
pub open spec fn tx_count_keys(ev: PoolEvent, ts: u64) -> Seq<KeyV> {
    seq![
        kv_entity(Table::Pool, ev.pool_address@),
        kv_entity(Table::Token, ev.token0@),
        kv_entity(Table::Token, ev.token1@),
        kv_entity(Table::Factory, factory_addr_spec()),
        kv_window(Table::UniswapDayData, day_of(ts), Seq::<char>::empty(), Field::NoField),
        kv_window(Table::PoolDayData, day_of(ts), ev.pool_address@, Field::NoField),
        kv_window(Table::PoolHourData, hour_of(ts), ev.pool_address@, Field::NoField),
        kv_window(Table::TokenDayData, day_of(ts), ev.token0@, Field::NoField),
        kv_window(Table::TokenDayData, day_of(ts), ev.token1@, Field::NoField),
        kv_window(Table::TokenHourData, hour_of(ts), ev.token0@, Field::NoField),
        kv_window(Table::TokenHourData, hour_of(ts), ev.token1@, Field::NoField),
        kv_window(Table::TokenMinuteData, minute_of(ts), ev.token0@, Field::NoField),
        kv_window(Table::TokenMinuteData, minute_of(ts), ev.token1@, Field::NoField),
    ]
}

/// The retention prune of every window table: the bucket one period
/// behind the current one is deleted.
pub open spec fn prune_all_windows(s: Seq<EntryV<Dec>>, ts: u64) -> Seq<EntryV<Dec>> {
    let s1 = remove_bucket_spec(s, Table::UniswapDayData, (day_of(ts) - 1) as u64);
    let s2 = remove_bucket_spec(s1, Table::PoolDayData, (day_of(ts) - 1) as u64);
    let s3 = remove_bucket_spec(s2, Table::PoolHourData, (hour_of(ts) - 1) as u64);
    let s4 = remove_bucket_spec(s3, Table::TokenDayData, (day_of(ts) - 1) as u64);
    let s5 = remove_bucket_spec(s4, Table::TokenHourData, (hour_of(ts) - 1) as u64);
    remove_bucket_spec(s5, Table::TokenMinuteData, (minute_of(ts) - 1) as u64)
}

/// The retention prune of the pool window tables only.
pub open spec fn prune_pool_windows(s: Seq<EntryV<Dec>>, ts: u64) -> Seq<EntryV<Dec>> {
    let s1 = remove_bucket_spec(s, Table::PoolDayData, (day_of(ts) - 1) as u64);
    remove_bucket_spec(s1, Table::PoolHourData, (hour_of(ts) - 1) as u64)
}

/// The event fold of [`store_total_tx_counts`], from position `i`.
pub open spec fn tx_counts_fold(s: Seq<EntryV<Dec>>, evs: Seq<PoolEvent>, ts: u64, i: int) -> Seq<
    EntryV<Dec>,
>
    decreases evs.len() - i,
{
    if i < 0 || i >= evs.len() {
        s
    } else {
        tx_counts_fold(
            add_many_model(s, tx_count_keys(evs[i], ts), evs[i].log_ordinal, Dec { num: 1, den: 1 }),
            evs,
            ts,
            i + 1,
        )
    }
}

/// Model of [`store_total_tx_counts`].
pub open spec fn tx_counts_model(s: Seq<EntryV<Dec>>, evs: Seq<PoolEvent>, ts: u64) -> Seq<
    EntryV<Dec>,
> {
    tx_counts_fold(prune_all_windows(s, ts), evs, ts, 0)
}

/// The key list of [`store_total_tx_counts`] for one event.
fn tx_count_key_vec(
    ev: &PoolEvent,
    day_id: u64,
    hour_id: u64,
    minute_id: u64,
    Ghost(ts): Ghost<u64>,
) -> (r: Vec<Key>)
    requires
        day_id == day_of(ts),
        hour_id == hour_of(ts),
        minute_id == minute_of(ts),
    ensures
        key_views(r@) == tx_count_keys(*ev, ts),
{
    let mut keys: Vec<Key> = Vec::new();
    keys.push(Key::entity(Table::Pool, ev.pool_address.clone()));
    keys.push(Key::entity(Table::Token, ev.token0.clone()));
    keys.push(Key::entity(Table::Token, ev.token1.clone()));
    keys.push(Key::entity(Table::Factory, normalize_address(UNISWAP_V2_FACTORY)));
    keys.push(Key::window(Table::UniswapDayData, day_id, String::new(), Field::NoField));
    keys.push(Key::window(Table::PoolDayData, day_id, ev.pool_address.clone(), Field::NoField));
    keys.push(Key::window(Table::PoolHourData, hour_id, ev.pool_address.clone(), Field::NoField));
    keys.push(Key::window(Table::TokenDayData, day_id, ev.token0.clone(), Field::NoField));
    keys.push(Key::window(Table::TokenDayData, day_id, ev.token1.clone(), Field::NoField));
    keys.push(Key::window(Table::TokenHourData, hour_id, ev.token0.clone(), Field::NoField));
    keys.push(Key::window(Table::TokenHourData, hour_id, ev.token1.clone(), Field::NoField));
    keys.push(Key::window(Table::TokenMinuteData, minute_id, ev.token0.clone(), Field::NoField));
    keys.push(Key::window(Table::TokenMinuteData, minute_id, ev.token1.clone(), Field::NoField));
    proof {
        let kvs = key_views(keys@);
        let expect = tx_count_keys(*ev, ts);
        assert(kvs.len() == 13);
        assert forall|j: int| 0 <= j < 13 implies kvs[j] == #[trigger] expect[j] by {
            assert(kvs[j] == keys@[j]@);
        }
        assert(kvs =~= expect);
    }
    keys
}

/// Counts every pool event once under its pool, both tokens, the factory
/// and all window scopes, after pruning the previous buckets.
#[verifier::rlimit(100)]
#[verifier::spinoff_prover]
pub fn store_total_tx_counts(timestamp_seconds: u64, events: &Events, output: &mut Store<Dec>)
    requires
        timestamp_seconds >= 86400,
        store_values_wf(old(output)@),
    ensures
        final(output)@ == tx_counts_model(old(output)@, events.pool_events@, timestamp_seconds),
        store_values_wf(final(output)@),
{
    let ts = timestamp_seconds;
    let day_id = ts / 86400;
    let hour_id = ts / 3600;
    let minute_id = ts / 60;
    proof {
        assert(day_id == day_of(ts));
        assert(hour_id == hour_of(ts));
        assert(minute_id == minute_of(ts));
        crate::store::lemma_remove_bucket_wf(output@, Table::UniswapDayData, (day_id - 1) as u64);
    }
    output.delete_bucket(Table::UniswapDayData, day_id - 1);
    proof {
        crate::store::lemma_remove_bucket_wf(output@, Table::PoolDayData, (day_id - 1) as u64);
    }
    output.delete_bucket(Table::PoolDayData, day_id - 1);
    proof {
        crate::store::lemma_remove_bucket_wf(output@, Table::PoolHourData, (hour_id - 1) as u64);
    }
    output.delete_bucket(Table::PoolHourData, hour_id - 1);
    proof {
        crate::store::lemma_remove_bucket_wf(output@, Table::TokenDayData, (day_id - 1) as u64);
    }
    output.delete_bucket(Table::TokenDayData, day_id - 1);
    proof {
        crate::store::lemma_remove_bucket_wf(output@, Table::TokenHourData, (hour_id - 1) as u64);
    }
    output.delete_bucket(Table::TokenHourData, hour_id - 1);
    proof {
        crate::store::lemma_remove_bucket_wf(
            output@,
            Table::TokenMinuteData,
            (minute_id - 1) as u64,
        );
    }
    output.delete_bucket(Table::TokenMinuteData, minute_id - 1);
    let ghost pruned = output@;
    proof {
        assert(pruned == prune_all_windows(old(output)@, ts));
    }
    let ghost evs = events.pool_events@;
    let total = events.pool_events.len();
    let mut i: usize = 0;
    while i < total
        invariant
            0 <= i <= total,
            total == evs.len(),
            events.pool_events@ == evs,
            store_values_wf(output@),
            day_id == day_of(ts) && hour_id == hour_of(ts) && minute_id == minute_of(ts),
            tx_counts_fold(output@, evs, ts, i as int) == tx_counts_fold(pruned, evs, ts, 0),
        decreases total - i,
    {
        let ev = &events.pool_events[i];
        let keys = tx_count_key_vec(ev, day_id, hour_id, minute_id, Ghost(ts));
        output.add_many(keys, ev.log_ordinal, Dec::one());
        i = i + 1;
    }
}

/// The event fold of [`store_native_amounts`], from position `i`: each
/// reserve snapshot of a known pool writes both sides' reserves, scaled
/// by the token decimals, under the per-token native keys.
pub open spec fn native_amounts_fold(
    s: Seq<EntryV<Dec>>,
    pools: Seq<EntryV<Pool>>,
    evs: Seq<PoolSqrtPrice>,
    i: int,
) -> Seq<EntryV<Dec>>
    decreases evs.len() - i,
{
    if i < 0 || i >= evs.len() {
        s
    } else {
        let ev = evs[i];
        let next = match get_last_spec(pools, kv_entity(Table::Pair, ev.pool_address@)) {
            None => s,
            Some(pool) => if pool.token0 is Some && pool.token1 is Some {
                let t0 = pool@.token0.unwrap();
                let t1 = pool@.token1.unwrap();
                match Dec::spec_from_raw_u(ev.sqrt_price, t0.decimals as nat) {
                    None => s,
                    Some(r0) => match Dec::spec_from_raw_u(ev.tick, t1.decimals as nat) {
                        None => s,
                        Some(r1) => s.push(
                            EntryV {
                                key: kv_two_addr(
                                    Table::Pool,
                                    ev.pool_address@,
                                    t0.address,
                                    Field::Native,
                                ),
                                ordinal: ev.ordinal,
                                value: r0,
                            },
                        ).push(
                            EntryV {
                                key: kv_two_addr(
                                    Table::Pool,
                                    ev.pool_address@,
                                    t1.address,
                                    Field::Native,
                                ),
                                ordinal: ev.ordinal,
                                value: r1,
                            },
                        ),
                    },
                }
            } else {
                s
            },
        };
        native_amounts_fold(next, pools, evs, i + 1)
    }
}

/// Writes each known pool's reserve snapshot, scaled to whole tokens,
/// under the two per-token native-amount keys. A snapshot of an unknown
/// or tokenless pool, or one whose scaled reserve cannot be represented,
/// is skipped.
pub fn store_native_amounts(events: &Events, pools_store: &Store<Pool>, store: &mut Store<Dec>)
    requires
        store_values_wf(old(store)@),
    ensures
        final(store)@ == native_amounts_fold(
            old(store)@,
            pools_store@,
            events.pool_sqrt_prices@,
            0,
        ),
        store_values_wf(final(store)@),
{
    let ghost evs = events.pool_sqrt_prices@;
    let total = events.pool_sqrt_prices.len();
    let mut i: usize = 0;
    while i < total
        invariant
            0 <= i <= total,
            total == evs.len(),
            events.pool_sqrt_prices@ == evs,
            store_values_wf(store@),
            native_amounts_fold(store@, pools_store@, evs, i as int) == native_amounts_fold(
                old(store)@,
                pools_store@,
                evs,
                0,
            ),
        decreases total - i,
    {
        let ev = &events.pool_sqrt_prices[i];
        let pool_key = Key::entity(Table::Pair, ev.pool_address.clone());
        match pools_store.get_last(&pool_key) {
            None => {},
            Some(pool) => {
                match (&pool.token0, &pool.token1) {
                    (Some(t0), Some(t1)) => {
                        match Dec::from_raw(ev.sqrt_price, t0.decimals) {
                            None => {},
                            Some(r0) => {
                                match Dec::from_raw(ev.tick, t1.decimals) {
                                    None => {},
                                    Some(r1) => {
                                        proof {
                                            crate::dec::lemma_from_raw_wf(
                                                ev.sqrt_price as int,
                                                t0.decimals as nat,
                                            );
                                            crate::dec::lemma_from_raw_wf(
                                                ev.tick as int,
                                                t1.decimals as nat,
                                            );
                                        }
                                        let k0 = Key::two_addr(
                                            Table::Pool,
                                            ev.pool_address.clone(),
                                            t0.address.clone(),
                                            Field::Native,
                                        );
                                        store.set(k0, ev.ordinal, r0);
                                        let k1 = Key::two_addr(
                                            Table::Pool,
                                            ev.pool_address.clone(),
                                            t1.address.clone(),
                                            Field::Native,
                                        );
                                        store.set(k1, ev.ordinal, r1);
                                    },
                                }
                            },
                        }
                    },
                    _ => {},
                }
            },
        }
        i = i + 1;
    }
}

/// The event fold of [`store_prices`], from position `i`: each reserve
/// snapshot of a known pool with nonzero reserves yields both reserve
/// ratios, stored under the per-pool and pair keys, and (except for the
/// initialization snapshot) under the pool day and hour windows.
pub open spec fn prices_fold(
    s: Seq<EntryV<Dec>>,
    pools: Seq<EntryV<Pool>>,
    evs: Seq<PoolSqrtPrice>,
    ts: u64,
    i: int,
) -> Seq<EntryV<Dec>>
    decreases evs.len() - i,
{
    if i < 0 || i >= evs.len() {
        s
    } else {
        let ev = evs[i];
        let next = match get_last_spec(pools, kv_entity(Table::Pair, ev.pool_address@)) {
            None => s,
            Some(pool) => if pool.token0 is Some && pool.token1 is Some {
                let t0 = pool@.token0.unwrap();
                let t1 = pool@.token1.unwrap();
                match Dec::spec_from_raw_u(ev.sqrt_price, t0.decimals as nat) {
                    None => s,
                    Some(r0) => match Dec::spec_from_raw_u(ev.tick, t1.decimals as nat) {
                        None => s,
                        Some(r1) => if r0.is_zero_spec() || r1.is_zero_spec() {
                            s
                        } else {
                            match r0.spec_div(r1) {
                                None => s,
                                Some(t0p) => match r1.spec_div(r0) {
                                    None => s,
                                    Some(t1p) => {
                                        let s1 = set_many_model(
                                            s,
                                            seq![
                                                kv_two_addr(
                                                    Table::Pool,
                                                    ev.pool_address@,
                                                    t0.address,
                                                    Field::Token0,
                                                ),
                                                kv_two_addr(
                                                    Table::Pair,
                                                    t0.address,
                                                    t1.address,
                                                    Field::NoField,
                                                ),
                                            ],
                                            ev.ordinal,
                                            t0p,
                                        );
                                        let s2 = set_many_model(
                                            s1,
                                            seq![
                                                kv_two_addr(
                                                    Table::Pool,
                                                    ev.pool_address@,
                                                    t1.address,
                                                    Field::Token1,
                                                ),
                                                kv_two_addr(
                                                    Table::Pair,
                                                    t1.address,
                                                    t0.address,
                                                    Field::NoField,
                                                ),
                                            ],
                                            ev.ordinal,
                                            t1p,
                                        );
                                        if ev.initialized {
                                            s2
                                        } else {
                                            let s3 = set_many_model(
                                                s2,
                                                seq![
                                                    kv_window(
                                                        Table::PoolDayData,
                                                        day_of(ts),
                                                        ev.pool_address@,
                                                        Field::Token0,
                                                    ),
                                                    kv_window(
                                                        Table::PoolHourData,
                                                        hour_of(ts),
                                                        ev.pool_address@,
                                                        Field::Token0,
                                                    ),
                                                ],
                                                ev.ordinal,
                                                t0p,
                                            );
                                            set_many_model(
                                                s3,
                                                seq![
                                                    kv_window(
                                                        Table::PoolDayData,
                                                        day_of(ts),
                                                        ev.pool_address@,
                                                        Field::Token1,
                                                    ),
                                                    kv_window(
                                                        Table::PoolHourData,
                                                        hour_of(ts),
                                                        ev.pool_address@,
                                                        Field::Token1,
                                                    ),
                                                ],
                                                ev.ordinal,
                                                t1p,
                                            )
                                        }
                                    },
                                },
                            }
                        },
                    },
                }
            } else {
                s
            },
        };
        prices_fold(next, pools, evs, ts, i + 1)
    }
}

/// Model of [`store_prices`].
pub open spec fn prices_model(
    s: Seq<EntryV<Dec>>,
    pools: Seq<EntryV<Pool>>,
    evs: Seq<PoolSqrtPrice>,
    ts: u64,
) -> Seq<EntryV<Dec>> {
    prices_fold(prune_pool_windows(s, ts), pools, evs, ts, 0)
}

/// The day/hour pool window keys carrying one price field.
fn pool_window_pair_keys(
    pool_address: &String,
    day_id: u64,
    hour_id: u64,
    field: Field,
    Ghost(ts): Ghost<u64>,
) -> (r: Vec<Key>)
    requires
        day_id == day_of(ts),
        hour_id == hour_of(ts),
    ensures
        key_views(r@) == seq![
            kv_window(Table::PoolDayData, day_of(ts), pool_address@, field),
            kv_window(Table::PoolHourData, hour_of(ts), pool_address@, field),
        ],
{
    let mut keys: Vec<Key> = Vec::new();
    keys.push(Key::window(Table::PoolDayData, day_id, pool_address.clone(), field));
    keys.push(Key::window(Table::PoolHourData, hour_id, pool_address.clone(), field));
    proof {
        let kvs = key_views(keys@);
        let expect = seq![
            kv_window(Table::PoolDayData, day_of(ts), pool_address@, field),
            kv_window(Table::PoolHourData, hour_of(ts), pool_address@, field),
        ];
        assert(kvs.len() == 2);
        assert forall|j: int| 0 <= j < 2 implies kvs[j] == #[trigger] expect[j] by {
            assert(kvs[j] == keys@[j]@);
        }
        assert(kvs =~= expect);
    }
    keys
}

/// Derives both reserve-ratio prices from every reserve snapshot of a
/// known pool and stores them under the pool, pair, and (except on
/// initialization) window keys, after pruning the previous pool buckets.
#[verifier::rlimit(100)]
#[verifier::spinoff_prover]
pub fn store_prices(
    timestamp_seconds: u64,
    events: &Events,
    pools_store: &Store<Pool>,
    store: &mut Store<Dec>,
)
    requires
        timestamp_seconds >= 86400,
        store_values_wf(old(store)@),
    ensures
        final(store)@ == prices_model(
            old(store)@,
            pools_store@,
            events.pool_sqrt_prices@,
            timestamp_seconds,
        ),
        store_values_wf(final(store)@),
{
    let ts = timestamp_seconds;
    let day_id = ts / 86400;
    let hour_id = ts / 3600;
    proof {
        assert(day_id == day_of(ts));
        assert(hour_id == hour_of(ts));
        crate::store::lemma_remove_bucket_wf(store@, Table::PoolDayData, (day_id - 1) as u64);
    }
    store.delete_bucket(Table::PoolDayData, day_id - 1);
    proof {
        crate::store::lemma_remove_bucket_wf(store@, Table::PoolHourData, (hour_id - 1) as u64);
    }
    store.delete_bucket(Table::PoolHourData, hour_id - 1);
    let ghost pruned = store@;
    proof {
        assert(pruned == prune_pool_windows(old(store)@, ts));
    }
    let ghost evs = events.pool_sqrt_prices@;
    let total = events.pool_sqrt_prices.len();
    let mut i: usize = 0;
    while i < total
        invariant
            0 <= i <= total,
            total == evs.len(),
            events.pool_sqrt_prices@ == evs,
            store_values_wf(store@),
            day_id == day_of(ts) && hour_id == hour_of(ts),
            prices_fold(store@, pools_store@, evs, ts, i as int) == prices_fold(
                pruned,
                pools_store@,
                evs,
                ts,
                0,
            ),
        decreases total - i,
    {
        let ev = &events.pool_sqrt_prices[i];
        let pool_key = Key::entity(Table::Pair, ev.pool_address.clone());
        match pools_store.get_last(&pool_key) {
            None => {},
            Some(pool) => {
                match (&pool.token0, &pool.token1) {
                    (Some(t0), Some(t1)) => {
                        match Dec::from_raw(ev.sqrt_price, t0.decimals) {
                            None => {},
                            Some(r0) => {
                                match Dec::from_raw(ev.tick, t1.decimals) {
                                    None => {},
                                    Some(r1) => {
                                        proof {
                                            crate::dec::lemma_from_raw_wf(
                                                ev.sqrt_price as int,
                                                t0.decimals as nat,
                                            );
                                            crate::dec::lemma_from_raw_wf(
                                                ev.tick as int,
                                                t1.decimals as nat,
                                            );
                                        }
                                        if !r0.is_zero() && !r1.is_zero() {
                                            let t0p_opt = r0.div(r1);
                                            let t1p_opt = r1.div(r0);
                                            match (t0p_opt, t1p_opt) {
                                                (Some(t0p), Some(t1p)) => {
                                                    proof {
                                                        crate::dec::lemma_div_frac(r0, r1);
                                                        crate::dec::lemma_div_frac(r1, r0);
                                                    }
                                                    let mut keys1: Vec<Key> = Vec::new();
                                                    keys1.push(
                                                        Key::two_addr(
                                                            Table::Pool,
                                                            ev.pool_address.clone(),
                                                            t0.address.clone(),
                                                            Field::Token0,
                                                        ),
                                                    );
                                                    keys1.push(
                                                        Key::two_addr(
                                                            Table::Pair,
                                                            t0.address.clone(),
                                                            t1.address.clone(),
                                                            Field::NoField,
                                                        ),
                                                    );
                                                    proof {
                                                        assert(key_views(keys1@) =~= seq![
                                                            kv_two_addr(
                                                                Table::Pool,
                                                                evs[i as int].pool_address@,
                                                                pool@.token0.unwrap().address,
                                                                Field::Token0,
                                                            ),
                                                            kv_two_addr(
                                                                Table::Pair,
                                                                pool@.token0.unwrap().address,
                                                                pool@.token1.unwrap().address,
                                                                Field::NoField,
                                                            ),
                                                        ]);
                                                    }
                                                    store.set_many(keys1, ev.ordinal, t0p);
                                                    let mut keys2: Vec<Key> = Vec::new();
                                                    keys2.push(
                                                        Key::two_addr(
                                                            Table::Pool,
                                                            ev.pool_address.clone(),
                                                            t1.address.clone(),
                                                            Field::Token1,
                                                        ),
                                                    );
                                                    keys2.push(
                                                        Key::two_addr(
                                                            Table::Pair,
                                                            t1.address.clone(),
                                                            t0.address.clone(),
                                                            Field::NoField,
                                                        ),
                                                    );
                                                    proof {
                                                        assert(key_views(keys2@) =~= seq![
                                                            kv_two_addr(
                                                                Table::Pool,
                                                                evs[i as int].pool_address@,
                                                                pool@.token1.unwrap().address,
                                                                Field::Token1,
                                                            ),
                                                            kv_two_addr(
                                                                Table::Pair,
                                                                pool@.token1.unwrap().address,
                                                                pool@.token0.unwrap().address,
                                                                Field::NoField,
                                                            ),
                                                        ]);
                                                    }
                                                    store.set_many(keys2, ev.ordinal, t1p);
                                                    if !ev.initialized {
                                                        let keys3 = pool_window_pair_keys(
                                                            &ev.pool_address,
                                                            day_id,
                                                            hour_id,
                                                            Field::Token0,
                                                            Ghost(ts),
                                                        );
                                                        store.set_many(keys3, ev.ordinal, t0p);
                                                        let keys4 = pool_window_pair_keys(
                                                            &ev.pool_address,
                                                            day_id,
                                                            hour_id,
                                                            Field::Token1,
                                                            Ghost(ts),
                                                        );
                                                        store.set_many(keys4, ev.ordinal, t1p);
                                                    }
                                                },
                                                _ => {},
                                            }
                                        }
                                    },
                                }
                            },
                        }
                    },
                    _ => {},
                }
            },
        }
        i = i + 1;
    }
}

/// Every entry of the given table lies in bucket `d`.
pub open spec fn table_entries_in(s: Seq<EntryV<Dec>>, tbl: Table, d: u64) -> bool {
    forall|j: int|
        0 <= j < s.len() && (#[trigger] s[j]).key.table == tbl ==> s[j].key.bucket == d
}

/// One write preserves a per-table bucket bound when its key does.
proof fn lemma_push_table(s: Seq<EntryV<Dec>>, e: EntryV<Dec>, tbl: Table, d: u64)
    requires
        table_entries_in(s, tbl, d),
        e.key.table == tbl ==> e.key.bucket == d,
    ensures
        table_entries_in(s.push(e), tbl, d),
{
    let r = s.push(e);
    assert forall|j: int|
        0 <= j < r.len() && (#[trigger] r[j]).key.table == tbl implies r[j].key.bucket == d by {
        if j < s.len() {
            assert(r[j] == s[j]);
        }
    }
}

/// A multi-key write preserves a per-table bucket bound when every key
/// does.
proof fn lemma_set_many_table(
    s: Seq<EntryV<Dec>>,
    keys: Seq<KeyV>,
    ordinal: u64,
    value: Dec,
    tbl: Table,
    d: u64,
)
    requires
        table_entries_in(s, tbl, d),
        forall|j: int|
            0 <= j < keys.len() && (#[trigger] keys[j]).table == tbl ==> keys[j].bucket == d,
    ensures
        table_entries_in(set_many_model(s, keys, ordinal, value), tbl, d),
    decreases keys.len(),
{
    if keys.len() > 0 {
        lemma_push_table(s, EntryV { key: keys[0], ordinal, value }, tbl, d);
        let s2 = s.push(EntryV { key: keys[0], ordinal, value });
        assert forall|j: int|
            0 <= j < keys.skip(1).len() && (#[trigger] keys.skip(1)[j]).table
                == tbl implies keys.skip(1)[j].bucket == d by {
            assert(keys.skip(1)[j] == keys[j + 1]);
        }
        lemma_set_many_table(s2, keys.skip(1), ordinal, value, tbl, d);
    }
}

/// The price fold writes pool day figures only into the current bucket.
proof fn lemma_prices_fold_day(
    s: Seq<EntryV<Dec>>,
    pools: Seq<EntryV<Pool>>,
    evs: Seq<PoolSqrtPrice>,
    ts: u64,
    i: int,
)
    requires
        table_entries_in(s, Table::PoolDayData, day_of(ts)),
    ensures
        table_entries_in(prices_fold(s, pools, evs, ts, i), Table::PoolDayData, day_of(ts)),
    decreases evs.len() - i,
{
    if 0 <= i < evs.len() {
        let ev = evs[i];
        let d = day_of(ts);
        let next = match get_last_spec(pools, kv_entity(Table::Pair, ev.pool_address@)) {
            None => s,
            Some(pool) => if pool.token0 is Some && pool.token1 is Some {
                let t0 = pool@.token0.unwrap();
                let t1 = pool@.token1.unwrap();
                match Dec::spec_from_raw_u(ev.sqrt_price, t0.decimals as nat) {
                    None => s,
                    Some(r0) => match Dec::spec_from_raw_u(ev.tick, t1.decimals as nat) {
                        None => s,
                        Some(r1) => if r0.is_zero_spec() || r1.is_zero_spec() {
                            s
                        } else {
                            match r0.spec_div(r1) {
                                None => s,
                                Some(t0p) => match r1.spec_div(r0) {
                                    None => s,
                                    Some(t1p) => {
                                        let keys1 = seq![
                                            kv_two_addr(
                                                Table::Pool,
                                                ev.pool_address@,
                                                t0.address,
                                                Field::Token0,
                                            ),
                                            kv_two_addr(
                                                Table::Pair,
                                                t0.address,
                                                t1.address,
                                                Field::NoField,
                                            ),
                                        ];
                                        let keys2 = seq![
                                            kv_two_addr(
                                                Table::Pool,
                                                ev.pool_address@,
                                                t1.address,
                                                Field::Token1,
                                            ),
                                            kv_two_addr(
                                                Table::Pair,
                                                t1.address,
                                                t0.address,
                                                Field::NoField,
                                            ),
                                        ];
                                        let s1 = set_many_model(s, keys1, ev.ordinal, t0p);
                                        let s2 = set_many_model(s1, keys2, ev.ordinal, t1p);
                                        lemma_set_many_table(
                                            s,
                                            keys1,
                                            ev.ordinal,
                                            t0p,
                                            Table::PoolDayData,
                                            d,
                                        );
                                        lemma_set_many_table(
                                            s1,
                                            keys2,
                                            ev.ordinal,
                                            t1p,
                                            Table::PoolDayData,
                                            d,
                                        );
                                        if ev.initialized {
                                            s2
                                        } else {
                                            let keys3 = seq![
                                                kv_window(
                                                    Table::PoolDayData,
                                                    day_of(ts),
                                                    ev.pool_address@,
                                                    Field::Token0,
                                                ),
                                                kv_window(
                                                    Table::PoolHourData,
                                                    hour_of(ts),
                                                    ev.pool_address@,
                                                    Field::Token0,
                                                ),
                                            ];
                                            let keys4 = seq![
                                                kv_window(
                                                    Table::PoolDayData,
                                                    day_of(ts),
                                                    ev.pool_address@,
                                                    Field::Token1,
                                                ),
                                                kv_window(
                                                    Table::PoolHourData,
                                                    hour_of(ts),
                                                    ev.pool_address@,
                                                    Field::Token1,
                                                ),
                                            ];
                                            let s3 = set_many_model(s2, keys3, ev.ordinal, t0p);
                                            lemma_set_many_table(
                                                s2,
                                                keys3,
                                                ev.ordinal,
                                                t0p,
                                                Table::PoolDayData,
                                                d,
                                            );
                                            lemma_set_many_table(
                                                s3,
                                                keys4,
                                                ev.ordinal,
                                                t1p,
                                                Table::PoolDayData,
                                                d,
                                            );
                                            set_many_model(s3, keys4, ev.ordinal, t1p)
                                        }
                                    },
                                },
                            }
                        },
                    },
                }
            } else {
                s
            },
        };
        assert(table_entries_in(next, Table::PoolDayData, d));
        lemma_prices_fold_day(next, pools, evs, ts, i + 1);
    }
}

/// Bucket retention of the price windows, the day granularity: once
/// [`store_prices`] has run at `ts`, no pool day figure of the previous
/// day bucket remains; and when the store held only the current and
/// previous day buckets beforehand (the steady state the step itself
/// maintains), every pool day figure now lies in the current bucket.
pub proof fn lemma_prices_day_bucket_retention(
    s: Seq<EntryV<Dec>>,
    pools: Seq<EntryV<Pool>>,
    evs: Seq<PoolSqrtPrice>,
    ts: u64,
)
    requires
        day_of(ts) >= 1,
        forall|j: int|
            0 <= j < s.len() && (#[trigger] s[j]).key.table == Table::PoolDayData ==> s[
                j
            ].key.bucket == (day_of(ts) - 1) as u64 || s[j].key.bucket == day_of(ts),
    ensures
        table_entries_in(prices_model(s, pools, evs, ts), Table::PoolDayData, day_of(ts)),
        forall|j: int|
            0 <= j < prices_model(s, pools, evs, ts).len() ==> !((#[trigger] prices_model(
                s,
                pools,
                evs,
                ts,
            )[j]).key.table == Table::PoolDayData && prices_model(s, pools, evs, ts)[j].key.bucket
                == (day_of(ts) - 1) as u64),
{
    let d = day_of(ts);
    let b = (d - 1) as u64;
    let s1 = remove_bucket_spec(s, Table::PoolDayData, b);
    let s2 = remove_bucket_spec(s1, Table::PoolHourData, (hour_of(ts) - 1) as u64);
    crate::store::lemma_remove_bucket(s, Table::PoolDayData, b);
    crate::store::lemma_remove_bucket(s1, Table::PoolHourData, (hour_of(ts) - 1) as u64);
    assert forall|j: int|
        0 <= j < s2.len() && (#[trigger] s2[j]).key.table == Table::PoolDayData implies s2[
        j
    ].key.bucket == d by {
        let i1 = choose|i: int| 0 <= i < s1.len() && #[trigger] s1[i] == s2[j];
        let i0 = choose|i: int| 0 <= i < s.len() && #[trigger] s[i] == s1[i1];
        assert(!(s1[i1].key.table == Table::PoolDayData && s1[i1].key.bucket == b));
    }
    assert(s2 == prune_pool_windows(s, ts));
    lemma_prices_fold_day(s2, pools, evs, ts, 0);
}

/// The event fold of [`store_pool_liquidities`], from position `i`: each
/// reserve snapshot of a known pool stores the raw reserve sum under the
/// pool, both pair orders, and the pool day and hour windows.
pub open spec fn pool_liquidities_step(
    s: Seq<EntryV<u128>>,
    pools: Seq<EntryV<Pool>>,
    ev: PoolSqrtPrice,
    ts: u64,
) -> Seq<EntryV<u128>> {
    {
        {
        let next = match get_last_spec(pools, kv_entity(Table::Pair, ev.pool_address@)) {
            None => s,
            Some(pool) => if pool.token0 is Some && pool.token1 is Some && ev.sqrt_price + ev.tick
                <= u128::MAX {
                let t0 = pool@.token0.unwrap();
                let t1 = pool@.token1.unwrap();
                let total = (ev.sqrt_price + ev.tick) as u128;
                s.push(
                    EntryV {
                        key: kv_entity(Table::Pool, ev.pool_address@),
                        ordinal: ev.ordinal,
                        value: total,
                    },
                ).push(
                    EntryV {
                        key: kv_two_addr(Table::Pair, t0.address, t1.address, Field::NoField),
                        ordinal: ev.ordinal,
                        value: total,
                    },
                ).push(
                    EntryV {
                        key: kv_two_addr(Table::Pair, t1.address, t0.address, Field::NoField),
                        ordinal: ev.ordinal,
                        value: total,
                    },
                ).push(
                    EntryV {
                        key: kv_window(
                            Table::PoolDayData,
                            day_of(ts),
                            ev.pool_address@,
                            Field::NoField,
                        ),
                        ordinal: ev.ordinal,
                        value: total,
                    },
                ).push(
                    EntryV {
                        key: kv_window(
                            Table::PoolHourData,
                            hour_of(ts),
                            ev.pool_address@,
                            Field::NoField,
                        ),
                        ordinal: ev.ordinal,
                        value: total,
                    },
                )
            } else {
                s
            },
        };
        next
        }
    }
}

/// The event fold of [`store_pool_liquidities`], from position `i`.
pub open spec fn pool_liquidities_fold(
    s: Seq<EntryV<u128>>,
    pools: Seq<EntryV<Pool>>,
    evs: Seq<PoolSqrtPrice>,
    ts: u64,
    i: int,
) -> Seq<EntryV<u128>>
    decreases evs.len() - i,
{
    if i < 0 || i >= evs.len() {
        s
    } else {
        pool_liquidities_fold(pool_liquidities_step(s, pools, evs[i], ts), pools, evs, ts, i + 1)
    }
}

/// Model of [`store_pool_liquidities`].
pub open spec fn pool_liquidities_model(
    s: Seq<EntryV<u128>>,
    pools: Seq<EntryV<Pool>>,
    evs: Seq<PoolSqrtPrice>,
    ts: u64,
) -> Seq<EntryV<u128>> {
    let s1 = remove_bucket_spec(s, Table::PoolDayData, (day_of(ts) - 1) as u64);
    let s2 = remove_bucket_spec(s1, Table::PoolHourData, (hour_of(ts) - 1) as u64);
    pool_liquidities_fold(s2, pools, evs, ts, 0)
}

/// Stores each known pool's total raw reserves (the V2 liquidity figure)
/// under the pool, pair and pool-window keys, after pruning the previous
/// pool buckets. A snapshot whose reserve sum does not fit the raw range
/// is skipped.
#[verifier::rlimit(100)]
#[verifier::spinoff_prover]
/// One event step of [`store_pool_liquidities`].
fn pool_liquidities_step_exec(
    ev: &PoolSqrtPrice,
    pools_store: &Store<Pool>,
    store: &mut Store<u128>,
    day_id: u64,
    hour_id: u64,
    Ghost(ts): Ghost<u64>,
)
    requires
        day_id == day_of(ts),
        hour_id == hour_of(ts),
    ensures
        final(store)@ == pool_liquidities_step(old(store)@, pools_store@, *ev, ts),
{
    let ghost s0 = store@;
    let pool_key = Key::entity(Table::Pair, ev.pool_address.clone());
    match pools_store.get_last(&pool_key) {
        None => {},
        Some(pool) => {
            match (&pool.token0, &pool.token1) {
                (Some(t0), Some(t1)) => {
                    match ev.sqrt_price.checked_add(ev.tick) {
                        None => {},
                        Some(total) => {
                            store.set(
                                Key::entity(Table::Pool, ev.pool_address.clone()),
                                ev.ordinal,
                                total,
                            );
                            store.set(
                                Key::two_addr(
                                    Table::Pair,
                                    t0.address.clone(),
                                    t1.address.clone(),
                                    Field::NoField,
                                ),
                                ev.ordinal,
                                total,
                            );
                            store.set(
                                Key::two_addr(
                                    Table::Pair,
                                    t1.address.clone(),
                                    t0.address.clone(),
                                    Field::NoField,
                                ),
                                ev.ordinal,
                                total,
                            );
                            store.set(
                                Key::window(
                                    Table::PoolDayData,
                                    day_id,
                                    ev.pool_address.clone(),
                                    Field::NoField,
                                ),
                                ev.ordinal,
                                total,
                            );
                            store.set(
                                Key::window(
                                    Table::PoolHourData,
                                    hour_id,
                                    ev.pool_address.clone(),
                                    Field::NoField,
                                ),
                                ev.ordinal,
                                total,
                            );
                        },
                    }
                },
                _ => {},
            }
        },
    }
    proof {
        assert(store@ =~~= pool_liquidities_step(s0, pools_store@, *ev, ts));
    }
}

/// Stores each known pool's total raw reserves (the V2 liquidity figure)
/// under the pool, pair and pool-window keys, after pruning the previous
/// pool buckets. A snapshot whose reserve sum does not fit the raw range
/// is skipped.
pub fn store_pool_liquidities(
    timestamp_seconds: u64,
    events: &Events,
    pools_store: &Store<Pool>,
    store: &mut Store<u128>,
)
    requires
        timestamp_seconds >= 86400,
    ensures
        final(store)@ == pool_liquidities_model(
            old(store)@,
            pools_store@,
            events.pool_sqrt_prices@,
            timestamp_seconds,
        ),
{
    let ts = timestamp_seconds;
    let day_id = ts / 86400;
    let hour_id = ts / 3600;
    proof {
        assert(day_id == day_of(ts));
        assert(hour_id == hour_of(ts));
    }
    store.delete_bucket(Table::PoolDayData, day_id - 1);
    store.delete_bucket(Table::PoolHourData, hour_id - 1);
    let ghost pruned = store@;
    let ghost evs = events.pool_sqrt_prices@;
    let total_evs = events.pool_sqrt_prices.len();
    let mut i: usize = 0;
    while i < total_evs
        invariant
            0 <= i <= total_evs,
            total_evs == evs.len(),
            events.pool_sqrt_prices@ == evs,
            day_id == day_of(ts) && hour_id == hour_of(ts),
            pool_liquidities_fold(store@, pools_store@, evs, ts, i as int) == pool_liquidities_fold(
                pruned,
                pools_store@,
                evs,
                ts,
                0,
            ),
        decreases total_evs - i,
    {
        let ev = &events.pool_sqrt_prices[i];
        pool_liquidities_step_exec(ev, pools_store, store, day_id, hour_id, Ghost(ts));
        i = i + 1;
    }
}


/// One delta step of [`store_token_tvl`]: a change of a per-token pool
/// reserve adds its difference to the pool's per-token TVL and the
/// token's total TVL.
pub open spec fn token_tvl_step(
    s: Seq<EntryV<Dec>>,
    pools: Seq<EntryV<Pool>>,
    d: Delta,
) -> Seq<EntryV<Dec>> {
    let k = d.key@;
    if k.table == Table::Pool && k.field == Field::Native && k.addr2.len() > 0 {
        match get_last_spec(pools, kv_entity(Table::Pair, k.addr)) {
            None => s,
            Some(pool) => if pool.token0 is Some && pool.token1 is Some {
                let t0 = pool@.token0.unwrap().address;
                let t1 = pool@.token1.unwrap().address;
                let which: Option<Field> = if k.addr2 == t0 {
                    Some(Field::Token0)
                } else if k.addr2 == t1 {
                    Some(Field::Token1)
                } else {
                    None
                };
                match which {
                    None => s,
                    Some(f) => match d.new_value.spec_sub(d.old_value) {
                        None => s,
                        Some(diff) => add_many_model(
                            s,
                            seq![
                                kv_two_addr(Table::Pool, k.addr, k.addr2, f),
                                kv_entity(Table::Token, k.addr2),
                            ],
                            d.ordinal,
                            diff,
                        ),
                    },
                }
            } else {
                s
            },
        }
    } else {
        s
    }
}

/// The delta fold of [`store_token_tvl`], from position `i`.
pub open spec fn token_tvl_fold(
    s: Seq<EntryV<Dec>>,
    pools: Seq<EntryV<Pool>>,
    ds: Seq<Delta>,
    i: int,
) -> Seq<EntryV<Dec>>
    decreases ds.len() - i,
{
    if i < 0 || i >= ds.len() {
        s
    } else {
        token_tvl_fold(token_tvl_step(s, pools, ds[i]), pools, ds, i + 1)
    }
}

/// All delta values are well-formed numbers.
pub open spec fn deltas_wf(ds: Seq<Delta>) -> bool {
    forall|i: int|
        0 <= i < ds.len() ==> (#[trigger] ds[i]).old_value.wf() && ds[i].new_value.wf()
}

/// One delta step of [`store_token_tvl`], executed.
fn token_tvl_step_exec(d: &Delta, pools_store: &Store<Pool>, output: &mut Store<Dec>)
    requires
        store_values_wf(old(output)@),
        d.old_value.wf(),
        d.new_value.wf(),
    ensures
        final(output)@ == token_tvl_step(old(output)@, pools_store@, *d),
        store_values_wf(final(output)@),
{
    let is_native = match d.key.table {
        Table::Pool => d.key.field == Field::Native,
        _ => false,
    };
    if !is_native {
        return ;
    }
    if d.key.addr2.as_str().unicode_len() == 0 {
        return ;
    }
    let pool_key = Key::entity(Table::Pair, d.key.addr.clone());
    match pools_store.get_last(&pool_key) {
        None => {},
        Some(pool) => {
            match (&pool.token0, &pool.token1) {
                (Some(t0), Some(t1)) => {
                    let which: Option<Field> = if crate::text::str_eq(
                        d.key.addr2.as_str(),
                        t0.address.as_str(),
                    ) {
                        Some(Field::Token0)
                    } else if crate::text::str_eq(d.key.addr2.as_str(), t1.address.as_str()) {
                        Some(Field::Token1)
                    } else {
                        None
                    };
                    match which {
                        None => {},
                        Some(f) => {
                            match d.new_value.sub(d.old_value) {
                                None => {},
                                Some(diff) => {
                                    proof {
                                        crate::dec::lemma_sub_frac(d.new_value, d.old_value);
                                    }
                                    let mut keys: Vec<Key> = Vec::new();
                                    keys.push(
                                        Key::two_addr(
                                            Table::Pool,
                                            d.key.addr.clone(),
                                            d.key.addr2.clone(),
                                            f,
                                        ),
                                    );
                                    keys.push(Key::entity(Table::Token, d.key.addr2.clone()));
                                    proof {
                                        let kvs = key_views(keys@);
                                        let expect = seq![
                                            kv_two_addr(Table::Pool, d.key@.addr, d.key@.addr2, f),
                                            kv_entity(Table::Token, d.key@.addr2),
                                        ];
                                        assert(kvs.len() == 2);
                                        assert(kvs[0] == keys@[0]@);
                                        assert(kvs[1] == keys@[1]@);
                                        assert(kvs =~= expect);
                                    }
                                    output.add_many(keys, d.ordinal, diff);
                                },
                            }
                        },
                    }
                },
                _ => {},
            }
        },
    }
}

/// Accumulates each reserve change onto the pool's per-token TVL and the
/// token's total TVL.
pub fn store_token_tvl(
    reserve_deltas: &Vec<Delta>,
    pools_store: &Store<Pool>,
    output: &mut Store<Dec>,
)
    requires
        store_values_wf(old(output)@),
        deltas_wf(reserve_deltas@),
    ensures
        final(output)@ == token_tvl_fold(old(output)@, pools_store@, reserve_deltas@, 0),
        store_values_wf(final(output)@),
{
    let ghost ds = reserve_deltas@;
    let total = reserve_deltas.len();
    let mut i: usize = 0;
    while i < total
        invariant
            0 <= i <= total,
            total == ds.len(),
            reserve_deltas@ == ds,
            deltas_wf(ds),
            store_values_wf(output@),
            token_tvl_fold(output@, pools_store@, ds, i as int) == token_tvl_fold(
                old(output)@,
                pools_store@,
                ds,
                0,
            ),
        decreases total - i,
    {
        let d = &reserve_deltas[i];
        token_tvl_step_exec(d, pools_store, output);
        i = i + 1;
    }
}

/// One delta step of [`store_derived_factory_tvl`]: a pool TVL change is
/// folded into the factory totals (and the day window for tracked USD).
pub open spec fn factory_tvl_step(s: Seq<EntryV<Dec>>, d: Delta, ts: u64) -> Seq<EntryV<Dec>> {
    let k = d.key@;
    if k.table != Table::Pool {
        s
    } else {
        match d.new_value.spec_sub(d.old_value) {
            None => s,
            Some(diff) => if k.field == Field::TotalValueLockedEth {
                add_model(
                    s,
                    kv_entity_field(
                        Table::Factory,
                        Seq::<char>::empty(),
                        Field::TotalValueLockedEth,
                    ),
                    d.ordinal,
                    diff,
                )
            } else if k.field == Field::TotalValueLockedEthUntracked {
                add_model(
                    s,
                    kv_entity_field(
                        Table::Factory,
                        Seq::<char>::empty(),
                        Field::TotalValueLockedEthUntracked,
                    ),
                    d.ordinal,
                    diff,
                )
            } else if k.field == Field::TotalValueLockedUsd {
                add_many_model(
                    s,
                    seq![
                        kv_entity_field(
                            Table::Factory,
                            Seq::<char>::empty(),
                            Field::TotalValueLockedUsd,
                        ),
                        kv_window(
                            Table::UniswapDayData,
                            day_of(ts),
                            Seq::<char>::empty(),
                            Field::TotalValueLockedUsd,
                        ),
                    ],
                    d.ordinal,
                    diff,
                )
            } else if k.field == Field::TotalValueLockedUsdUntracked {
                add_model(
                    s,
                    kv_entity_field(
                        Table::Factory,
                        Seq::<char>::empty(),
                        Field::TotalValueLockedUsdUntracked,
                    ),
                    d.ordinal,
                    diff,
                )
            } else {
                s
            },
        }
    }
}

/// The delta fold of [`store_derived_factory_tvl`], from position `i`.
pub open spec fn factory_tvl_fold(s: Seq<EntryV<Dec>>, ds: Seq<Delta>, ts: u64, i: int) -> Seq<
    EntryV<Dec>,
>
    decreases ds.len() - i,
{
    if i < 0 || i >= ds.len() {
        s
    } else {
        factory_tvl_fold(factory_tvl_step(s, ds[i], ts), ds, ts, i + 1)
    }
}

/// Model of [`store_derived_factory_tvl`].
pub open spec fn factory_tvl_model(s: Seq<EntryV<Dec>>, ds: Seq<Delta>, ts: u64) -> Seq<
    EntryV<Dec>,
> {
    factory_tvl_fold(
        remove_bucket_spec(s, Table::UniswapDayData, (day_of(ts) - 1) as u64),
        ds,
        ts,
        0,
    )
}

/// One delta step of [`store_derived_factory_tvl`], executed.
fn factory_tvl_step_exec(d: &Delta, output: &mut Store<Dec>, day_id: u64, Ghost(ts): Ghost<u64>)
    requires
        store_values_wf(old(output)@),
        d.old_value.wf(),
        d.new_value.wf(),
        day_id == day_of(ts),
    ensures
        final(output)@ == factory_tvl_step(old(output)@, *d, ts),
        store_values_wf(final(output)@),
{
    let is_pool = match d.key.table {
        Table::Pool => true,
        _ => false,
    };
    if !is_pool {
        return ;
    }
    match d.new_value.sub(d.old_value) {
        None => {},
        Some(diff) => {
            proof {
                crate::dec::lemma_sub_frac(d.new_value, d.old_value);
            }
            if d.key.field == Field::TotalValueLockedEth {
                output.add_value(
                    Key::entity_field(Table::Factory, String::new(), Field::TotalValueLockedEth),
                    d.ordinal,
                    diff,
                );
            } else if d.key.field == Field::TotalValueLockedEthUntracked {
                output.add_value(
                    Key::entity_field(
                        Table::Factory,
                        String::new(),
                        Field::TotalValueLockedEthUntracked,
                    ),
                    d.ordinal,
                    diff,
                );
            } else if d.key.field == Field::TotalValueLockedUsd {
                let mut keys: Vec<Key> = Vec::new();
                keys.push(
                    Key::entity_field(Table::Factory, String::new(), Field::TotalValueLockedUsd),
                );
                keys.push(
                    Key::window(
                        Table::UniswapDayData,
                        day_id,
                        String::new(),
                        Field::TotalValueLockedUsd,
                    ),
                );
                proof {
                    let kvs = key_views(keys@);
                    let expect = seq![
                        kv_entity_field(
                            Table::Factory,
                            Seq::<char>::empty(),
                            Field::TotalValueLockedUsd,
                        ),
                        kv_window(
                            Table::UniswapDayData,
                            day_of(ts),
                            Seq::<char>::empty(),
                            Field::TotalValueLockedUsd,
                        ),
                    ];
                    assert(kvs.len() == 2);
                    assert(kvs[0] == keys@[0]@);
                    assert(kvs[1] == keys@[1]@);
                    assert(kvs =~= expect);
                }
                output.add_many(keys, d.ordinal, diff);
            } else if d.key.field == Field::TotalValueLockedUsdUntracked {
                output.add_value(
                    Key::entity_field(
                        Table::Factory,
                        String::new(),
                        Field::TotalValueLockedUsdUntracked,
                    ),
                    d.ordinal,
                    diff,
                );
            }
        },
    }
}

/// Folds pool TVL changes into the factory-wide totals, after pruning the
/// previous protocol day bucket.
pub fn store_derived_factory_tvl(
    timestamp_seconds: u64,
    derived_tvl_deltas: &Vec<Delta>,
    output: &mut Store<Dec>,
)
    requires
        timestamp_seconds >= 86400,
        store_values_wf(old(output)@),
        deltas_wf(derived_tvl_deltas@),
    ensures
        final(output)@ == factory_tvl_model(old(output)@, derived_tvl_deltas@, timestamp_seconds),
        store_values_wf(final(output)@),
{
    let ts = timestamp_seconds;
    let day_id = ts / 86400;
    proof {
        assert(day_id == day_of(ts));
        crate::store::lemma_remove_bucket_wf(output@, Table::UniswapDayData, (day_id - 1) as u64);
    }
    output.delete_bucket(Table::UniswapDayData, day_id - 1);
    let ghost pruned = output@;
    let ghost ds = derived_tvl_deltas@;
    let total = derived_tvl_deltas.len();
    let mut i: usize = 0;
    while i < total
        invariant
            0 <= i <= total,
            total == ds.len(),
            derived_tvl_deltas@ == ds,
            deltas_wf(ds),
            store_values_wf(output@),
            day_id == day_of(ts),
            factory_tvl_fold(output@, ds, ts, i as int) == factory_tvl_fold(pruned, ds, ts, 0),
        decreases total - i,
    {
        let d = &derived_tvl_deltas[i];
        factory_tvl_step_exec(d, output, day_id, Ghost(ts));
        i = i + 1;
    }
}


/// The stable two-way merge of delta feeds by ordinal (ties and exhausted
/// feeds prefer the first feed, as a stable sort of the concatenation
/// does when both feeds are already ordinal-ordered).
pub open spec fn merge_deltas_spec(a: Seq<Delta>, b: Seq<Delta>) -> Seq<Delta>
    decreases a.len() + b.len(),
{
    if a.len() == 0 {
        b
    } else if b.len() == 0 {
        a
    } else if a[0].ordinal <= b[0].ordinal {
        seq![a[0]] + merge_deltas_spec(a.skip(1), b)
    } else {
        seq![b[0]] + merge_deltas_spec(a, b.skip(1))
    }
}

/// Merges two ordinal-ordered delta feeds into one.
pub fn merge_deltas_by_ordinal(a: Vec<Delta>, b: Vec<Delta>) -> (r: Vec<Delta>)
    ensures
        r@ == merge_deltas_spec(a@, b@),
{
    let ghost a0 = a@;
    let ghost b0 = b@;
    let mut left = a;
    let mut right = b;
    let mut out: Vec<Delta> = Vec::new();
    proof {
        assert(out@ + merge_deltas_spec(left@, right@) =~= merge_deltas_spec(a0, b0));
    }
    while left.len() > 0 || right.len() > 0
        invariant
            out@ + merge_deltas_spec(left@, right@) == merge_deltas_spec(a0, b0),
        decreases left@.len() + right@.len(),
    {
        let ghost l0 = left@;
        let ghost r0 = right@;
        let ghost out0 = out@;
        let take_left: bool = if left.len() == 0 {
            false
        } else if right.len() == 0 {
            true
        } else {
            left[0].ordinal <= right[0].ordinal
        };
        if take_left {
            let d = left.remove(0);
            out.push(d);
            proof {
                assert(left@ =~= l0.skip(1));
                if r0.len() == 0 {
                    assert(merge_deltas_spec(l0, r0) == l0);
                    assert(merge_deltas_spec(left@, right@) =~= l0.skip(1));
                    assert(out@ + merge_deltas_spec(left@, right@) =~= out0 + merge_deltas_spec(
                        l0,
                        r0,
                    ));
                } else {
                    assert(merge_deltas_spec(l0, r0) == seq![l0[0]] + merge_deltas_spec(
                        l0.skip(1),
                        r0,
                    ));
                    assert(out@ + merge_deltas_spec(left@, right@) =~= out0 + merge_deltas_spec(
                        l0,
                        r0,
                    ));
                }
            }
        } else {
            let d = right.remove(0);
            out.push(d);
            proof {
                assert(right@ =~= r0.skip(1));
                if l0.len() == 0 {
                    assert(merge_deltas_spec(l0, r0) == r0);
                    assert(merge_deltas_spec(left@, right@) =~= r0.skip(1));
                    assert(out@ + merge_deltas_spec(left@, right@) =~= out0 + merge_deltas_spec(
                        l0,
                        r0,
                    ));
                } else {
                    assert(merge_deltas_spec(l0, r0) == seq![r0[0]] + merge_deltas_spec(
                        l0,
                        r0.skip(1),
                    ));
                    assert(out@ + merge_deltas_spec(left@, right@) =~= out0 + merge_deltas_spec(
                        l0,
                        r0,
                    ));
                }
            }
        }
    }
    proof {
        assert(merge_deltas_spec(left@, right@) =~= Seq::<Delta>::empty());
        assert(out@ =~= out@ + merge_deltas_spec(left@, right@));
    }
    out
}

/// Whether a price delta feeds the extrema windows, and under which
/// window key parts: pool windows contribute only through their token0
/// price; token windows always contribute.
pub open spec fn extrema_window_parts(d: Delta) -> Option<(Table, u64, Seq<char>)> {
    let k = d.key@;
    if d.operation == DeltaOp::Delete {
        None
    } else if k.table == Table::PoolDayData || k.table == Table::PoolHourData {
        if k.field == Field::Token0 {
            Some((k.table, k.bucket, k.addr))
        } else {
            None
        }
    } else if k.table == Table::TokenDayData || k.table == Table::TokenHourData || k.table
        == Table::TokenMinuteData {
        Some((k.table, k.bucket, k.addr))
    } else {
        None
    }
}

/// One delta step of [`store_min_windows`]: on bucket creation the open
/// figure is seeded once; the low figure takes every tick.
pub open spec fn min_windows_step(s: Seq<EntryV<Dec>>, d: Delta) -> Seq<EntryV<Dec>> {
    match extrema_window_parts(d) {
        None => s,
        Some((table, bucket, addr)) => {
            let s1 = if d.operation == DeltaOp::Create {
                crate::store::min_model(
                    s,
                    kv_window(table, bucket, addr, Field::Open),
                    d.ordinal,
                    d.new_value,
                )
            } else {
                s
            };
            crate::store::min_model(
                s1,
                kv_window(table, bucket, addr, Field::Low),
                d.ordinal,
                d.new_value,
            )
        },
    }
}

/// One delta step of [`store_max_windows`]: the high figure takes every
/// tick.
pub open spec fn max_windows_step(s: Seq<EntryV<Dec>>, d: Delta) -> Seq<EntryV<Dec>> {
    match extrema_window_parts(d) {
        None => s,
        Some((table, bucket, addr)) => crate::store::max_model(
            s,
            kv_window(table, bucket, addr, Field::High),
            d.ordinal,
            d.new_value,
        ),
    }
}

/// The delta fold of [`store_min_windows`], from position `i`.
pub open spec fn min_windows_fold(s: Seq<EntryV<Dec>>, ds: Seq<Delta>, i: int) -> Seq<EntryV<Dec>>
    decreases ds.len() - i,
{
    if i < 0 || i >= ds.len() {
        s
    } else {
        min_windows_fold(min_windows_step(s, ds[i]), ds, i + 1)
    }
}

/// The delta fold of [`store_max_windows`], from position `i`.
pub open spec fn max_windows_fold(s: Seq<EntryV<Dec>>, ds: Seq<Delta>, i: int) -> Seq<EntryV<Dec>>
    decreases ds.len() - i,
{
    if i < 0 || i >= ds.len() {
        s
    } else {
        max_windows_fold(max_windows_step(s, ds[i]), ds, i + 1)
    }
}

/// Model of [`store_min_windows`].
pub open spec fn min_windows_model(
    s: Seq<EntryV<Dec>>,
    prices: Seq<Delta>,
    eth_prices: Seq<Delta>,
    ts: u64,
) -> Seq<EntryV<Dec>> {
    min_windows_fold(prune_all_price_windows(s, ts), merge_deltas_spec(prices, eth_prices), 0)
}

/// Model of [`store_max_windows`].
pub open spec fn max_windows_model(
    s: Seq<EntryV<Dec>>,
    prices: Seq<Delta>,
    eth_prices: Seq<Delta>,
    ts: u64,
) -> Seq<EntryV<Dec>> {
    max_windows_fold(prune_all_price_windows(s, ts), merge_deltas_spec(prices, eth_prices), 0)
}

/// The retention prune of the five price window tables.
pub open spec fn prune_all_price_windows(s: Seq<EntryV<Dec>>, ts: u64) -> Seq<EntryV<Dec>> {
    let s1 = remove_bucket_spec(s, Table::PoolDayData, (day_of(ts) - 1) as u64);
    let s2 = remove_bucket_spec(s1, Table::PoolHourData, (hour_of(ts) - 1) as u64);
    let s3 = remove_bucket_spec(s2, Table::TokenDayData, (day_of(ts) - 1) as u64);
    let s4 = remove_bucket_spec(s3, Table::TokenHourData, (hour_of(ts) - 1) as u64);
    remove_bucket_spec(s4, Table::TokenMinuteData, (minute_of(ts) - 1) as u64)
}

/// One delta step of [`store_min_windows`], executed.
fn min_windows_step_exec(d: &Delta, output: &mut Store<Dec>)
    requires
        store_values_wf(old(output)@),
        d.new_value.wf(),
    ensures
        final(output)@ == min_windows_step(old(output)@, *d),
        store_values_wf(final(output)@),
{
    if d.operation == DeltaOp::Delete {
        return ;
    }
    let pool_window = match d.key.table {
        Table::PoolDayData => true,
        Table::PoolHourData => true,
        _ => false,
    };
    let token_window = match d.key.table {
        Table::TokenDayData => true,
        Table::TokenHourData => true,
        Table::TokenMinuteData => true,
        _ => false,
    };
    if pool_window && !(d.key.field == Field::Token0) {
        return ;
    }
    if !pool_window && !token_window {
        return ;
    }
    if d.operation == DeltaOp::Create {
        output.min_value(
            Key::window(d.key.table, d.key.bucket, d.key.addr.clone(), Field::Open),
            d.ordinal,
            d.new_value,
        );
    }
    output.min_value(
        Key::window(d.key.table, d.key.bucket, d.key.addr.clone(), Field::Low),
        d.ordinal,
        d.new_value,
    );
}

/// One delta step of [`store_max_windows`], executed.
fn max_windows_step_exec(d: &Delta, output: &mut Store<Dec>)
    requires
        store_values_wf(old(output)@),
        d.new_value.wf(),
    ensures
        final(output)@ == max_windows_step(old(output)@, *d),
        store_values_wf(final(output)@),
{
    if d.operation == DeltaOp::Delete {
        return ;
    }
    let pool_window = match d.key.table {
        Table::PoolDayData => true,
        Table::PoolHourData => true,
        _ => false,
    };
    let token_window = match d.key.table {
        Table::TokenDayData => true,
        Table::TokenHourData => true,
        Table::TokenMinuteData => true,
        _ => false,
    };
    if pool_window && !(d.key.field == Field::Token0) {
        return ;
    }
    if !pool_window && !token_window {
        return ;
    }
    output.max_value(
        Key::window(d.key.table, d.key.bucket, d.key.addr.clone(), Field::High),
        d.ordinal,
        d.new_value,
    );
}

/// Maintains the open and low price figures of every touched window from
/// the merged price change feeds, after pruning the previous buckets.
/// The open figure is written only when a window key is first created and
/// is never lowered afterwards by this pass alone on the same tick set.
pub fn store_min_windows(
    timestamp_seconds: u64,
    prices_deltas: Vec<Delta>,
    eth_prices_deltas: Vec<Delta>,
    output: &mut Store<Dec>,
)
    requires
        timestamp_seconds >= 86400,
        store_values_wf(old(output)@),
        deltas_wf(prices_deltas@),
        deltas_wf(eth_prices_deltas@),
    ensures
        final(output)@ == min_windows_model(
            old(output)@,
            prices_deltas@,
            eth_prices_deltas@,
            timestamp_seconds,
        ),
        store_values_wf(final(output)@),
{
    let ts = timestamp_seconds;
    let day_id = ts / 86400;
    let hour_id = ts / 3600;
    let minute_id = ts / 60;
    let ghost pd = prices_deltas@;
    let ghost ed = eth_prices_deltas@;
    proof {
        assert(day_id == day_of(ts));
        assert(hour_id == hour_of(ts));
        assert(minute_id == minute_of(ts));
        crate::store::lemma_remove_bucket_wf(output@, Table::PoolDayData, (day_id - 1) as u64);
    }
    output.delete_bucket(Table::PoolDayData, day_id - 1);
    proof {
        crate::store::lemma_remove_bucket_wf(output@, Table::PoolHourData, (hour_id - 1) as u64);
    }
    output.delete_bucket(Table::PoolHourData, hour_id - 1);
    proof {
        crate::store::lemma_remove_bucket_wf(output@, Table::TokenDayData, (day_id - 1) as u64);
    }
    output.delete_bucket(Table::TokenDayData, day_id - 1);
    proof {
        crate::store::lemma_remove_bucket_wf(output@, Table::TokenHourData, (hour_id - 1) as u64);
    }
    output.delete_bucket(Table::TokenHourData, hour_id - 1);
    proof {
        crate::store::lemma_remove_bucket_wf(
            output@,
            Table::TokenMinuteData,
            (minute_id - 1) as u64,
        );
    }
    output.delete_bucket(Table::TokenMinuteData, minute_id - 1);
    let ghost pruned = output@;
    proof {
        assert(pruned == prune_all_price_windows(old(output)@, ts));
    }
    let deltas = merge_deltas_by_ordinal(prices_deltas, eth_prices_deltas);
    proof {
        lemma_merge_deltas_wf(pd, ed);
    }
    let ghost ds = deltas@;
    let total = deltas.len();
    let mut i: usize = 0;
    while i < total
        invariant
            0 <= i <= total,
            total == ds.len(),
            deltas@ == ds,
            deltas_wf(ds),
            store_values_wf(output@),
            min_windows_fold(output@, ds, i as int) == min_windows_fold(pruned, ds, 0),
        decreases total - i,
    {
        let d = &deltas[i];
        min_windows_step_exec(d, output);
        i = i + 1;
    }
}

/// Maintains the high price figure of every touched window from the
/// merged price change feeds, after pruning the previous buckets.
pub fn store_max_windows(
    timestamp_seconds: u64,
    prices_deltas: Vec<Delta>,
    eth_prices_deltas: Vec<Delta>,
    output: &mut Store<Dec>,
)
    requires
        timestamp_seconds >= 86400,
        store_values_wf(old(output)@),
        deltas_wf(prices_deltas@),
        deltas_wf(eth_prices_deltas@),
    ensures
        final(output)@ == max_windows_model(
            old(output)@,
            prices_deltas@,
            eth_prices_deltas@,
            timestamp_seconds,
        ),
        store_values_wf(final(output)@),
{
    let ts = timestamp_seconds;
    let day_id = ts / 86400;
    let hour_id = ts / 3600;
    let minute_id = ts / 60;
    let ghost pd = prices_deltas@;
    let ghost ed = eth_prices_deltas@;
    proof {
        assert(day_id == day_of(ts));
        assert(hour_id == hour_of(ts));
        assert(minute_id == minute_of(ts));
        crate::store::lemma_remove_bucket_wf(output@, Table::PoolDayData, (day_id - 1) as u64);
    }
    output.delete_bucket(Table::PoolDayData, day_id - 1);
    proof {
        crate::store::lemma_remove_bucket_wf(output@, Table::PoolHourData, (hour_id - 1) as u64);
    }
    output.delete_bucket(Table::PoolHourData, hour_id - 1);
    proof {
        crate::store::lemma_remove_bucket_wf(output@, Table::TokenDayData, (day_id - 1) as u64);
    }
    output.delete_bucket(Table::TokenDayData, day_id - 1);
    proof {
        crate::store::lemma_remove_bucket_wf(output@, Table::TokenHourData, (hour_id - 1) as u64);
    }
    output.delete_bucket(Table::TokenHourData, hour_id - 1);
    proof {
        crate::store::lemma_remove_bucket_wf(
            output@,
            Table::TokenMinuteData,
            (minute_id - 1) as u64,
        );
    }
    output.delete_bucket(Table::TokenMinuteData, minute_id - 1);
    let ghost pruned = output@;
    proof {
        assert(pruned == prune_all_price_windows(old(output)@, ts));
    }
    let deltas = merge_deltas_by_ordinal(prices_deltas, eth_prices_deltas);
    proof {
        lemma_merge_deltas_wf(pd, ed);
    }
    let ghost ds = deltas@;
    let total = deltas.len();
    let mut i: usize = 0;
    while i < total
        invariant
            0 <= i <= total,
            total == ds.len(),
            deltas@ == ds,
            deltas_wf(ds),
            store_values_wf(output@),
            max_windows_fold(output@, ds, i as int) == max_windows_fold(pruned, ds, 0),
        decreases total - i,
    {
        let d = &deltas[i];
        max_windows_step_exec(d, output);
        i = i + 1;
    }
}

/// A merge of well-formed delta feeds is well-formed.
pub proof fn lemma_merge_deltas_wf(a: Seq<Delta>, b: Seq<Delta>)
    requires
        deltas_wf(a),
        deltas_wf(b),
    ensures
        deltas_wf(merge_deltas_spec(a, b)),
    decreases a.len() + b.len(),
{
    if a.len() == 0 || b.len() == 0 {
    } else if a[0].ordinal <= b[0].ordinal {
        assert(deltas_wf(a.skip(1))) by {
            assert forall|i: int| 0 <= i < a.skip(1).len() implies (#[trigger] a.skip(1)[i]).old_value.wf()
                && a.skip(1)[i].new_value.wf() by {
                assert(a.skip(1)[i] == a[i + 1]);
            }
        }
        lemma_merge_deltas_wf(a.skip(1), b);
        let m = merge_deltas_spec(a, b);
        let rest = merge_deltas_spec(a.skip(1), b);
        assert forall|i: int| 0 <= i < m.len() implies (#[trigger] m[i]).old_value.wf()
            && m[i].new_value.wf() by {
            if i == 0 {
                assert(m[0] == a[0]);
            } else {
                assert(m[i] == rest[i - 1]);
            }
        }
    } else {
        assert(deltas_wf(b.skip(1))) by {
            assert forall|i: int| 0 <= i < b.skip(1).len() implies (#[trigger] b.skip(1)[i]).old_value.wf()
                && b.skip(1)[i].new_value.wf() by {
                assert(b.skip(1)[i] == b[i + 1]);
            }
        }
        lemma_merge_deltas_wf(a, b.skip(1));
        let m = merge_deltas_spec(a, b);
        let rest = merge_deltas_spec(a, b.skip(1));
        assert forall|i: int| 0 <= i < m.len() implies (#[trigger] m[i]).old_value.wf()
            && m[i].new_value.wf() by {
            if i == 0 {
                assert(m[0] == b[0]);
            } else {
                assert(m[i] == rest[i - 1]);
            }
        }
    }
}


/// Every amount carried by a batch of pool events is well-formed.
pub open spec fn pool_events_wf(evs: Seq<PoolEvent>) -> bool {
    forall|i: int|
        0 <= i < evs.len() ==> match (#[trigger] evs[i]).kind@ {
            crate::pb::PoolEventTypeV::Swap { amount_0, amount_1, .. } => amount_0.wf()
                && amount_1.wf(),
            crate::pb::PoolEventTypeV::Mint { amount_0, amount_1, .. } => amount_0.wf()
                && amount_1.wf(),
            crate::pb::PoolEventTypeV::Burn { amount_0, amount_1, .. } => amount_0.wf()
                && amount_1.wf(),
        }
}

/// The per-token volume keys of one swap (token side given by `tok` and
/// its volume field).
pub open spec fn swap_token_volume_keys(
    ev: PoolEvent,
    tok: Seq<char>,
    side_field: Field,
    ts: u64,
) -> Seq<KeyV> {
    seq![
        kv_entity_field(Table::Pool, ev.pool_address@, side_field),
        kv_entity_field(Table::Token, tok, Field::Volume),
        kv_window2(Table::PoolDayData, day_of(ts), ev.pool_address@, tok, side_field),
        kv_window(Table::TokenDayData, day_of(ts), tok, Field::Volume),
        kv_window2(Table::PoolHourData, hour_of(ts), ev.pool_address@, tok, side_field),
        kv_window(Table::TokenHourData, hour_of(ts), tok, Field::Volume),
        kv_window(Table::TokenMinuteData, minute_of(ts), tok, Field::Volume),
    ]
}

/// The USD volume keys of one swap, across all scopes.
pub open spec fn swap_usd_volume_keys(ev: PoolEvent, ts: u64) -> Seq<KeyV> {
    seq![
        kv_entity_field(Table::Pool, ev.pool_address@, Field::VolumeUsd),
        kv_entity_field(Table::Token, ev.token0@, Field::TokenVolumeUsd),
        kv_entity_field(Table::Token, ev.token1@, Field::TokenVolumeUsd),
        kv_entity_field(Table::Factory, Seq::<char>::empty(), Field::TotalVolumeUsd),
        kv_window(Table::UniswapDayData, day_of(ts), Seq::<char>::empty(), Field::VolumeUsd),
        kv_window(Table::PoolDayData, day_of(ts), ev.pool_address@, Field::VolumeUsd),
        kv_window(Table::TokenDayData, day_of(ts), ev.token0@, Field::VolumeUsd),
        kv_window(Table::TokenDayData, day_of(ts), ev.token1@, Field::VolumeUsd),
        kv_window(Table::PoolHourData, hour_of(ts), ev.pool_address@, Field::VolumeUsd),
        kv_window(Table::TokenHourData, hour_of(ts), ev.token0@, Field::VolumeUsd),
        kv_window(Table::TokenHourData, hour_of(ts), ev.token1@, Field::VolumeUsd),
        kv_window(Table::TokenMinuteData, minute_of(ts), ev.token0@, Field::VolumeUsd),
        kv_window(Table::TokenMinuteData, minute_of(ts), ev.token1@, Field::VolumeUsd),
    ]
}

/// The untracked USD volume keys of one swap.
pub open spec fn swap_untracked_volume_keys(ev: PoolEvent, ts: u64) -> Seq<KeyV> {
    seq![
        kv_entity_field(Table::Factory, Seq::<char>::empty(), Field::FactoryUntrackedVolumeUsd),
        kv_entity_field(Table::Pool, ev.pool_address@, Field::VolumeUntrackedUsd),
        kv_entity_field(Table::Token, ev.token0@, Field::TokenVolumeUntrackedUsd),
        kv_entity_field(Table::Token, ev.token1@, Field::TokenVolumeUntrackedUsd),
        kv_window(Table::TokenDayData, day_of(ts), ev.token0@, Field::TokenVolumeUntrackedUsd),
        kv_window(Table::TokenDayData, day_of(ts), ev.token1@, Field::TokenVolumeUntrackedUsd),
        kv_window(Table::TokenHourData, hour_of(ts), ev.token0@, Field::TokenVolumeUntrackedUsd),
        kv_window(Table::TokenHourData, hour_of(ts), ev.token1@, Field::TokenVolumeUntrackedUsd),
        kv_window(
            Table::TokenMinuteData,
            minute_of(ts),
            ev.token0@,
            Field::TokenVolumeUntrackedUsd,
        ),
        kv_window(
            Table::TokenMinuteData,
            minute_of(ts),
            ev.token1@,
            Field::TokenVolumeUntrackedUsd,
        ),
    ]
}

/// The ETH volume keys of one swap.
pub open spec fn swap_eth_volume_keys(ts: u64) -> Seq<KeyV> {
    seq![
        kv_entity_field(Table::Factory, Seq::<char>::empty(), Field::TotalVolumeEth),
        kv_window(Table::UniswapDayData, day_of(ts), Seq::<char>::empty(), Field::VolumeEth),
    ]
}

/// The USD fee keys of one swap, across all scopes.
pub open spec fn swap_usd_fee_keys(ev: PoolEvent, ts: u64) -> Seq<KeyV> {
    seq![
        kv_entity_field(Table::Pool, ev.pool_address@, Field::FeesUsd),
        kv_entity_field(Table::Token, ev.token0@, Field::FeesUsd),
        kv_entity_field(Table::Token, ev.token1@, Field::FeesUsd),
        kv_entity_field(Table::Factory, Seq::<char>::empty(), Field::TotalFeesUsd),
        kv_window(Table::UniswapDayData, day_of(ts), Seq::<char>::empty(), Field::FeesUsd),
        kv_window(Table::PoolDayData, day_of(ts), ev.pool_address@, Field::FeesUsd),
        kv_window(Table::TokenDayData, day_of(ts), ev.token0@, Field::FeesUsd),
        kv_window(Table::TokenDayData, day_of(ts), ev.token1@, Field::FeesUsd),
        kv_window(Table::PoolHourData, hour_of(ts), ev.pool_address@, Field::FeesUsd),
        kv_window(Table::TokenHourData, hour_of(ts), ev.token0@, Field::FeesUsd),
        kv_window(Table::TokenHourData, hour_of(ts), ev.token1@, Field::FeesUsd),
        kv_window(Table::TokenMinuteData, minute_of(ts), ev.token0@, Field::FeesUsd),
        kv_window(Table::TokenMinuteData, minute_of(ts), ev.token1@, Field::FeesUsd),
    ]
}

/// The derived figures of one swap: ETH volume, USD volume, untracked
/// USD volume (each half the two-sided value), and the ETH and USD fees
/// at the pool's fee tier (in hundredths of a basis point). `None` when a
/// figure cannot be represented.
pub open spec fn swap_figures(vol: AdjustedAmounts, fee: u64) -> Option<(Dec, Dec, Dec, Dec, Dec)> {
    let two = Dec { num: 2, den: 1 };
    let million = Dec { num: 1000000, den: 1 };
    if fee >= crate::dec::COMPONENT_BOUND as u64 {
        None
    } else {
        let fee_tier = Dec { num: fee as i128, den: 1 };
        match vol.delta_tvl_eth.spec_div(two) {
            None => None,
            Some(volume_eth) => match vol.delta_tvl_usd.spec_div(two) {
                None => None,
                Some(volume_usd) => match vol.stable_usd_untracked.spec_div(two) {
                    None => None,
                    Some(volume_usd_untracked) => match volume_eth.spec_mul(fee_tier) {
                        None => None,
                        Some(fe1) => match fe1.spec_div(million) {
                            None => None,
                            Some(fee_eth) => match volume_usd.spec_mul(fee_tier) {
                                None => None,
                                Some(fu1) => match fu1.spec_div(million) {
                                    None => None,
                                    Some(fee_usd) => Some(
                                        (volume_eth, volume_usd, volume_usd_untracked, fee_eth, fee_usd),
                                    ),
                                },
                            },
                        },
                    },
                },
            },
        }
    }
}

/// The absolute value of a decimal, as a spec form.
pub open spec fn dec_abs(d: Dec) -> Dec {
    Dec { num: (if d.num < 0 { -d.num } else { d.num as int }) as i128, den: d.den }
}

/// One event step of [`store_swaps_volume`]: a Mint counts a liquidity
/// provider; a Swap — when its pool is registered, counted, and every
/// derived figure is available and representable — accumulates absolute
/// token volumes, USD/ETH volumes (half the two-sided value) and fees.
pub open spec fn swaps_volume_step(
    s: Seq<EntryV<Dec>>,
    pools: Seq<EntryV<Pool>>,
    tx_counts: Seq<EntryV<Dec>>,
    eth_prices: Seq<EntryV<Dec>>,
    ev: PoolEvent,
    ts: u64,
) -> Seq<EntryV<Dec>> {
    let ord = ev.log_ordinal;
    match get_last_spec(pools, kv_entity(Table::Pair, ev.pool_address@)) {
        None => s,
        Some(pool) => if get_last_spec(tx_counts, kv_entity(Table::Pool, ev.pool_address@))
            is None {
            s
        } else {
            match ev.kind@ {
                crate::pb::PoolEventTypeV::Mint { .. } => add_model(
                    s,
                    kv_entity_field(
                        Table::Pool,
                        ev.pool_address@,
                        Field::LiquidityProviderCount,
                    ),
                    ord,
                    Dec { num: 1, den: 1 },
                ),
                crate::pb::PoolEventTypeV::Burn { .. } => s,
                crate::pb::PoolEventTypeV::Swap { amount_0, amount_1, .. } => {
                    match get_at_spec(eth_prices, crate::keys::kv_bundle(), ord) {
                        None => s,
                        Some(eth_usd) => match get_at_spec(
                            eth_prices,
                            kv_entity_field(Table::Token, ev.token0@, Field::DerivedPriceEth),
                            ord,
                        ) {
                            None => s,
                            Some(p0) => match get_at_spec(
                                eth_prices,
                                kv_entity_field(Table::Token, ev.token1@, Field::DerivedPriceEth),
                                ord,
                            ) {
                                None => s,
                                Some(p1) => {
                                    let a0 = dec_abs(amount_0);
                                    let a1 = dec_abs(amount_1);
                                    match adjusted_amounts_spec(a0, a1, p0, p1, eth_usd) {
                                        None => s,
                                        Some(vol) => match swap_figures(vol, ev.fee) {
                                            None => s,
                                            Some(figures) => {
                                                let s1 = add_many_model(
                                                    s,
                                                    swap_token_volume_keys(
                                                        ev,
                                                        ev.token0@,
                                                        Field::VolumeToken0,
                                                        ts,
                                                    ),
                                                    ord,
                                                    a0,
                                                );
                                                let s2 = add_many_model(
                                                    s1,
                                                    swap_token_volume_keys(
                                                        ev,
                                                        ev.token1@,
                                                        Field::VolumeToken1,
                                                        ts,
                                                    ),
                                                    ord,
                                                    a1,
                                                );
                                                let s3 = add_many_model(
                                                    s2,
                                                    swap_usd_volume_keys(ev, ts),
                                                    ord,
                                                    figures.1,
                                                );
                                                let s4 = add_many_model(
                                                    s3,
                                                    swap_untracked_volume_keys(ev, ts),
                                                    ord,
                                                    figures.2,
                                                );
                                                let s5 = add_many_model(
                                                    s4,
                                                    swap_eth_volume_keys(ts),
                                                    ord,
                                                    figures.0,
                                                );
                                                let s6 = add_many_model(
                                                    s5,
                                                    swap_usd_fee_keys(ev, ts),
                                                    ord,
                                                    figures.4,
                                                );
                                                add_model(
                                                    s6,
                                                    kv_entity_field(
                                                        Table::Factory,
                                                        Seq::<char>::empty(),
                                                        Field::TotalFeesEth,
                                                    ),
                                                    ord,
                                                    figures.3,
                                                )
                                            },
                                        },
                                    }
                                },
                            },
                        },
                    }
                },
            }
        },
    }
}

/// The event fold of [`store_swaps_volume`], from position `i`.
pub open spec fn swaps_volume_fold(
    s: Seq<EntryV<Dec>>,
    pools: Seq<EntryV<Pool>>,
    tx_counts: Seq<EntryV<Dec>>,
    eth_prices: Seq<EntryV<Dec>>,
    evs: Seq<PoolEvent>,
    ts: u64,
    i: int,
) -> Seq<EntryV<Dec>>
    decreases evs.len() - i,
{
    if i < 0 || i >= evs.len() {
        s
    } else {
        swaps_volume_fold(
            swaps_volume_step(s, pools, tx_counts, eth_prices, evs[i], ts),
            pools,
            tx_counts,
            eth_prices,
            evs,
            ts,
            i + 1,
        )
    }
}

/// Model of [`store_swaps_volume`].
pub open spec fn swaps_volume_model(
    s: Seq<EntryV<Dec>>,
    pools: Seq<EntryV<Pool>>,
    tx_counts: Seq<EntryV<Dec>>,
    eth_prices: Seq<EntryV<Dec>>,
    evs: Seq<PoolEvent>,
    ts: u64,
) -> Seq<EntryV<Dec>> {
    swaps_volume_fold(prune_all_windows(s, ts), pools, tx_counts, eth_prices, evs, ts, 0)
}


/// The per-token volume key list of one swap.
fn swap_token_volume_key_vec(
    ev: &PoolEvent,
    tok: &String,
    side_field: Field,
    day_id: u64,
    hour_id: u64,
    minute_id: u64,
    Ghost(ts): Ghost<u64>,
) -> (r: Vec<Key>)
    requires
        day_id == day_of(ts),
        hour_id == hour_of(ts),
        minute_id == minute_of(ts),
    ensures
        key_views(r@) == swap_token_volume_keys(*ev, tok@, side_field, ts),
{
    let mut keys: Vec<Key> = Vec::new();
    keys.push(Key::entity_field(Table::Pool, ev.pool_address.clone(), side_field));
    keys.push(Key::entity_field(Table::Token, tok.clone(), Field::Volume));
    keys.push(
        Key::window2(Table::PoolDayData, day_id, ev.pool_address.clone(), tok.clone(), side_field),
    );
    keys.push(Key::window(Table::TokenDayData, day_id, tok.clone(), Field::Volume));
    keys.push(
        Key::window2(
            Table::PoolHourData,
            hour_id,
            ev.pool_address.clone(),
            tok.clone(),
            side_field,
        ),
    );
    keys.push(Key::window(Table::TokenHourData, hour_id, tok.clone(), Field::Volume));
    keys.push(Key::window(Table::TokenMinuteData, minute_id, tok.clone(), Field::Volume));
    proof {
        let kvs = key_views(keys@);
        let expect = swap_token_volume_keys(*ev, tok@, side_field, ts);
        assert(kvs.len() == 7);
        assert forall|j: int| 0 <= j < 7 implies kvs[j] == #[trigger] expect[j] by {
            assert(kvs[j] == keys@[j]@);
        }
        assert(kvs =~= expect);
    }
    keys
}

/// The USD volume key list of one swap.
fn swap_usd_volume_key_vec(
    ev: &PoolEvent,
    day_id: u64,
    hour_id: u64,
    minute_id: u64,
    Ghost(ts): Ghost<u64>,
) -> (r: Vec<Key>)
    requires
        day_id == day_of(ts),
        hour_id == hour_of(ts),
        minute_id == minute_of(ts),
    ensures
        key_views(r@) == swap_usd_volume_keys(*ev, ts),
{
    let mut keys: Vec<Key> = Vec::new();
    keys.push(Key::entity_field(Table::Pool, ev.pool_address.clone(), Field::VolumeUsd));
    keys.push(Key::entity_field(Table::Token, ev.token0.clone(), Field::TokenVolumeUsd));
    keys.push(Key::entity_field(Table::Token, ev.token1.clone(), Field::TokenVolumeUsd));
    keys.push(Key::entity_field(Table::Factory, String::new(), Field::TotalVolumeUsd));
    keys.push(Key::window(Table::UniswapDayData, day_id, String::new(), Field::VolumeUsd));
    keys.push(Key::window(Table::PoolDayData, day_id, ev.pool_address.clone(), Field::VolumeUsd));
    keys.push(Key::window(Table::TokenDayData, day_id, ev.token0.clone(), Field::VolumeUsd));
    keys.push(Key::window(Table::TokenDayData, day_id, ev.token1.clone(), Field::VolumeUsd));
    keys.push(
        Key::window(Table::PoolHourData, hour_id, ev.pool_address.clone(), Field::VolumeUsd),
    );
    keys.push(Key::window(Table::TokenHourData, hour_id, ev.token0.clone(), Field::VolumeUsd));
    keys.push(Key::window(Table::TokenHourData, hour_id, ev.token1.clone(), Field::VolumeUsd));
    keys.push(Key::window(Table::TokenMinuteData, minute_id, ev.token0.clone(), Field::VolumeUsd));
    keys.push(Key::window(Table::TokenMinuteData, minute_id, ev.token1.clone(), Field::VolumeUsd));
    proof {
        let kvs = key_views(keys@);
        let expect = swap_usd_volume_keys(*ev, ts);
        assert(kvs.len() == 13);
        assert forall|j: int| 0 <= j < 13 implies kvs[j] == #[trigger] expect[j] by {
            assert(kvs[j] == keys@[j]@);
        }
        assert(kvs =~= expect);
    }
    keys
}

/// The untracked USD volume key list of one swap.
fn swap_untracked_volume_key_vec(
    ev: &PoolEvent,
    day_id: u64,
    hour_id: u64,
    minute_id: u64,
    Ghost(ts): Ghost<u64>,
) -> (r: Vec<Key>)
    requires
        day_id == day_of(ts),
        hour_id == hour_of(ts),
        minute_id == minute_of(ts),
    ensures
        key_views(r@) == swap_untracked_volume_keys(*ev, ts),
{
    let mut keys: Vec<Key> = Vec::new();
    keys.push(
        Key::entity_field(Table::Factory, String::new(), Field::FactoryUntrackedVolumeUsd),
    );
    keys.push(
        Key::entity_field(Table::Pool, ev.pool_address.clone(), Field::VolumeUntrackedUsd),
    );
    keys.push(
        Key::entity_field(Table::Token, ev.token0.clone(), Field::TokenVolumeUntrackedUsd),
    );
    keys.push(
        Key::entity_field(Table::Token, ev.token1.clone(), Field::TokenVolumeUntrackedUsd),
    );
    keys.push(
        Key::window(Table::TokenDayData, day_id, ev.token0.clone(), Field::TokenVolumeUntrackedUsd),
    );
    keys.push(
        Key::window(Table::TokenDayData, day_id, ev.token1.clone(), Field::TokenVolumeUntrackedUsd),
    );
    keys.push(
        Key::window(
            Table::TokenHourData,
            hour_id,
            ev.token0.clone(),
            Field::TokenVolumeUntrackedUsd,
        ),
    );
    keys.push(
        Key::window(
            Table::TokenHourData,
            hour_id,
            ev.token1.clone(),
            Field::TokenVolumeUntrackedUsd,
        ),
    );
    keys.push(
        Key::window(
            Table::TokenMinuteData,
            minute_id,
            ev.token0.clone(),
            Field::TokenVolumeUntrackedUsd,
        ),
    );
    keys.push(
        Key::window(
            Table::TokenMinuteData,
            minute_id,
            ev.token1.clone(),
            Field::TokenVolumeUntrackedUsd,
        ),
    );
    proof {
        let kvs = key_views(keys@);
        let expect = swap_untracked_volume_keys(*ev, ts);
        assert(kvs.len() == 10);
        assert forall|j: int| 0 <= j < 10 implies kvs[j] == #[trigger] expect[j] by {
            assert(kvs[j] == keys@[j]@);
        }
        assert(kvs =~= expect);
    }
    keys
}

/// The ETH volume key list of one swap.
fn swap_eth_volume_key_vec(day_id: u64, Ghost(ts): Ghost<u64>) -> (r: Vec<Key>)
    requires
        day_id == day_of(ts),
    ensures
        key_views(r@) == swap_eth_volume_keys(ts),
{
    let mut keys: Vec<Key> = Vec::new();
    keys.push(Key::entity_field(Table::Factory, String::new(), Field::TotalVolumeEth));
    keys.push(Key::window(Table::UniswapDayData, day_id, String::new(), Field::VolumeEth));
    proof {
        let kvs = key_views(keys@);
        let expect = swap_eth_volume_keys(ts);
        assert(kvs.len() == 2);
        assert(kvs[0] == keys@[0]@);
        assert(kvs[1] == keys@[1]@);
        assert(kvs =~= expect);
    }
    keys
}

/// The USD fee key list of one swap.
fn swap_usd_fee_key_vec(
    ev: &PoolEvent,
    day_id: u64,
    hour_id: u64,
    minute_id: u64,
    Ghost(ts): Ghost<u64>,
) -> (r: Vec<Key>)
    requires
        day_id == day_of(ts),
        hour_id == hour_of(ts),
        minute_id == minute_of(ts),
    ensures
        key_views(r@) == swap_usd_fee_keys(*ev, ts),
{
    let mut keys: Vec<Key> = Vec::new();
    keys.push(Key::entity_field(Table::Pool, ev.pool_address.clone(), Field::FeesUsd));
    keys.push(Key::entity_field(Table::Token, ev.token0.clone(), Field::FeesUsd));
    keys.push(Key::entity_field(Table::Token, ev.token1.clone(), Field::FeesUsd));
    keys.push(Key::entity_field(Table::Factory, String::new(), Field::TotalFeesUsd));
    keys.push(Key::window(Table::UniswapDayData, day_id, String::new(), Field::FeesUsd));
    keys.push(Key::window(Table::PoolDayData, day_id, ev.pool_address.clone(), Field::FeesUsd));
    keys.push(Key::window(Table::TokenDayData, day_id, ev.token0.clone(), Field::FeesUsd));
    keys.push(Key::window(Table::TokenDayData, day_id, ev.token1.clone(), Field::FeesUsd));
    keys.push(Key::window(Table::PoolHourData, hour_id, ev.pool_address.clone(), Field::FeesUsd));
    keys.push(Key::window(Table::TokenHourData, hour_id, ev.token0.clone(), Field::FeesUsd));
    keys.push(Key::window(Table::TokenHourData, hour_id, ev.token1.clone(), Field::FeesUsd));
    keys.push(Key::window(Table::TokenMinuteData, minute_id, ev.token0.clone(), Field::FeesUsd));
    keys.push(Key::window(Table::TokenMinuteData, minute_id, ev.token1.clone(), Field::FeesUsd));
    proof {
        let kvs = key_views(keys@);
        let expect = swap_usd_fee_keys(*ev, ts);
        assert(kvs.len() == 13);
        assert forall|j: int| 0 <= j < 13 implies kvs[j] == #[trigger] expect[j] by {
            assert(kvs[j] == keys@[j]@);
        }
        assert(kvs =~= expect);
    }
    keys
}

/// One event step of [`store_swaps_volume`], executed.
#[verifier::rlimit(100)]
#[verifier::spinoff_prover]
fn swaps_volume_step_exec(
    ev: &PoolEvent,
    pools_store: &Store<Pool>,
    tx_counts_store: &Store<Dec>,
    eth_prices_store: &Store<Dec>,
    output: &mut Store<Dec>,
    day_id: u64,
    hour_id: u64,
    minute_id: u64,
    Ghost(ts): Ghost<u64>,
)
    requires
        store_values_wf(old(output)@),
        store_values_wf(eth_prices_store@),
        day_id == day_of(ts),
        hour_id == hour_of(ts),
        minute_id == minute_of(ts),
        (match ev.kind@ {
            crate::pb::PoolEventTypeV::Swap { amount_0, amount_1, .. } => amount_0.wf()
                && amount_1.wf(),
            _ => true,
        }),
    ensures
        final(output)@ == swaps_volume_step(
            old(output)@,
            pools_store@,
            tx_counts_store@,
            eth_prices_store@,
            *ev,
            ts,
        ),
        store_values_wf(final(output)@),
{
    let ord = ev.log_ordinal;
    let pool_key = Key::entity(Table::Pair, ev.pool_address.clone());
    if pools_store.get_last(&pool_key).is_none() {
        return ;
    }
    let count_key = Key::entity(Table::Pool, ev.pool_address.clone());
    if tx_counts_store.get_last(&count_key).is_none() {
        return ;
    }
    match &ev.kind {
        crate::pb::PoolEventType::Mint { .. } => {
            output.add_value(
                Key::entity_field(
                    Table::Pool,
                    ev.pool_address.clone(),
                    Field::LiquidityProviderCount,
                ),
                ord,
                Dec::one(),
            );
        },
        crate::pb::PoolEventType::Burn { .. } => {},
        crate::pb::PoolEventType::Swap { amount_0, amount_1, .. } => {
            let bundle_key = Key::bundle();
            let eth_usd: Dec = match eth_prices_store.get_at(&bundle_key, ord) {
                None => {
                    return ;
                },
                Some(v) => {
                    proof {
                        crate::store::lemma_get_at_wf(eth_prices_store@, bundle_key@, ord);
                    }
                    *v
                },
            };
            let p0_key = Key::entity_field(
                Table::Token,
                ev.token0.clone(),
                Field::DerivedPriceEth,
            );
            let p0: Dec = match eth_prices_store.get_at(&p0_key, ord) {
                None => {
                    return ;
                },
                Some(v) => {
                    proof {
                        crate::store::lemma_get_at_wf(eth_prices_store@, p0_key@, ord);
                    }
                    *v
                },
            };
            let p1_key = Key::entity_field(
                Table::Token,
                ev.token1.clone(),
                Field::DerivedPriceEth,
            );
            let p1: Dec = match eth_prices_store.get_at(&p1_key, ord) {
                None => {
                    return ;
                },
                Some(v) => {
                    proof {
                        crate::store::lemma_get_at_wf(eth_prices_store@, p1_key@, ord);
                    }
                    *v
                },
            };
            let a0 = amount_0.abs();
            let a1 = amount_1.abs();
            let vol = match get_adjusted_amounts(a0, a1, p0, p1, eth_usd) {
                None => {
                    return ;
                },
                Some(v) => v,
            };
            if ev.fee >= 0x8000_0000_0000_0000u64 {
                return ;
            }
            let two = Dec::from_int(2);
            let million = Dec::from_int(1000000);
            let fee_tier = Dec { num: ev.fee as i128, den: 1 };
            let volume_eth = match vol.delta_tvl_eth.div(two) {
                None => {
                    return ;
                },
                Some(v) => {
                    proof {
                        crate::dec::lemma_div_frac(vol.delta_tvl_eth, two);
                    }
                    v
                },
            };
            let volume_usd = match vol.delta_tvl_usd.div(two) {
                None => {
                    return ;
                },
                Some(v) => {
                    proof {
                        crate::dec::lemma_div_frac(vol.delta_tvl_usd, two);
                    }
                    v
                },
            };
            let volume_usd_untracked = match vol.stable_usd_untracked.div(two) {
                None => {
                    return ;
                },
                Some(v) => {
                    proof {
                        crate::dec::lemma_div_frac(vol.stable_usd_untracked, two);
                    }
                    v
                },
            };
            let fe1 = match volume_eth.mul(fee_tier) {
                None => {
                    return ;
                },
                Some(v) => {
                    proof {
                        crate::dec::lemma_mul_frac(volume_eth, fee_tier);
                    }
                    v
                },
            };
            let fee_eth = match fe1.div(million) {
                None => {
                    return ;
                },
                Some(v) => {
                    proof {
                        crate::dec::lemma_div_frac(fe1, million);
                    }
                    v
                },
            };
            let fu1 = match volume_usd.mul(fee_tier) {
                None => {
                    return ;
                },
                Some(v) => {
                    proof {
                        crate::dec::lemma_mul_frac(volume_usd, fee_tier);
                    }
                    v
                },
            };
            let fee_usd = match fu1.div(million) {
                None => {
                    return ;
                },
                Some(v) => {
                    proof {
                        crate::dec::lemma_div_frac(fu1, million);
                    }
                    v
                },
            };
            let keys_a0 = swap_token_volume_key_vec(
                ev,
                &ev.token0,
                Field::VolumeToken0,
                day_id,
                hour_id,
                minute_id,
                Ghost(ts),
            );
            output.add_many(keys_a0, ord, a0);
            let keys_a1 = swap_token_volume_key_vec(
                ev,
                &ev.token1,
                Field::VolumeToken1,
                day_id,
                hour_id,
                minute_id,
                Ghost(ts),
            );
            output.add_many(keys_a1, ord, a1);
            let keys_usd = swap_usd_volume_key_vec(ev, day_id, hour_id, minute_id, Ghost(ts));
            output.add_many(keys_usd, ord, volume_usd);
            let keys_unt = swap_untracked_volume_key_vec(
                ev,
                day_id,
                hour_id,
                minute_id,
                Ghost(ts),
            );
            output.add_many(keys_unt, ord, volume_usd_untracked);
            let keys_eth = swap_eth_volume_key_vec(day_id, Ghost(ts));
            output.add_many(keys_eth, ord, volume_eth);
            let keys_fees = swap_usd_fee_key_vec(ev, day_id, hour_id, minute_id, Ghost(ts));
            output.add_many(keys_fees, ord, fee_usd);
            output.add_value(
                Key::entity_field(Table::Factory, String::new(), Field::TotalFeesEth),
                ord,
                fee_eth,
            );
        },
    }
}

/// Accumulates swap volumes and fees, and mint liquidity-provider counts,
/// across all scopes and windows, after pruning the previous buckets.
pub fn store_swaps_volume(
    timestamp_seconds: u64,
    events: &Events,
    pools_store: &Store<Pool>,
    tx_counts_store: &Store<Dec>,
    eth_prices_store: &Store<Dec>,
    output: &mut Store<Dec>,
)
    requires
        timestamp_seconds >= 86400,
        store_values_wf(old(output)@),
        store_values_wf(eth_prices_store@),
        pool_events_wf(events.pool_events@),
    ensures
        final(output)@ == swaps_volume_model(
            old(output)@,
            pools_store@,
            tx_counts_store@,
            eth_prices_store@,
            events.pool_events@,
            timestamp_seconds,
        ),
        store_values_wf(final(output)@),
{
    let ts = timestamp_seconds;
    let day_id = ts / 86400;
    let hour_id = ts / 3600;
    let minute_id = ts / 60;
    proof {
        assert(day_id == day_of(ts));
        assert(hour_id == hour_of(ts));
        assert(minute_id == minute_of(ts));
        crate::store::lemma_remove_bucket_wf(output@, Table::UniswapDayData, (day_id - 1) as u64);
    }
    output.delete_bucket(Table::UniswapDayData, day_id - 1);
    proof {
        crate::store::lemma_remove_bucket_wf(output@, Table::PoolDayData, (day_id - 1) as u64);
    }
    output.delete_bucket(Table::PoolDayData, day_id - 1);
    proof {
        crate::store::lemma_remove_bucket_wf(output@, Table::PoolHourData, (hour_id - 1) as u64);
    }
    output.delete_bucket(Table::PoolHourData, hour_id - 1);
    proof {
        crate::store::lemma_remove_bucket_wf(output@, Table::TokenDayData, (day_id - 1) as u64);
    }
    output.delete_bucket(Table::TokenDayData, day_id - 1);
    proof {
        crate::store::lemma_remove_bucket_wf(output@, Table::TokenHourData, (hour_id - 1) as u64);
    }
    output.delete_bucket(Table::TokenHourData, hour_id - 1);
    proof {
        crate::store::lemma_remove_bucket_wf(
            output@,
            Table::TokenMinuteData,
            (minute_id - 1) as u64,
        );
    }
    output.delete_bucket(Table::TokenMinuteData, minute_id - 1);
    let ghost pruned = output@;
    proof {
        assert(pruned == prune_all_windows(old(output)@, ts));
    }
    let ghost evs = events.pool_events@;
    let total = events.pool_events.len();
    let mut i: usize = 0;
    while i < total
        invariant
            0 <= i <= total,
            total == evs.len(),
            events.pool_events@ == evs,
            pool_events_wf(evs),
            store_values_wf(output@),
            store_values_wf(eth_prices_store@),
            day_id == day_of(ts) && hour_id == hour_of(ts) && minute_id == minute_of(ts),
            swaps_volume_fold(
                output@,
                pools_store@,
                tx_counts_store@,
                eth_prices_store@,
                evs,
                ts,
                i as int,
            ) == swaps_volume_fold(
                pruned,
                pools_store@,
                tx_counts_store@,
                eth_prices_store@,
                evs,
                ts,
                0,
            ),
        decreases total - i,
    {
        let ev = &events.pool_events[i];
        swaps_volume_step_exec(
            ev,
            pools_store,
            tx_counts_store,
            eth_prices_store,
            output,
            day_id,
            hour_id,
            minute_id,
            Ghost(ts),
        );
        i = i + 1;
    }
}


/// The three token window keys holding a USD price tick.
pub open spec fn token_usd_window_keys(tok: Seq<char>, ts: u64) -> Seq<KeyV> {
    seq![
        kv_window(Table::TokenDayData, day_of(ts), tok, Field::NoField),
        kv_window(Table::TokenHourData, hour_of(ts), tok, Field::NoField),
        kv_window(Table::TokenMinuteData, minute_of(ts), tok, Field::NoField),
    ]
}

/// The token window key list holding a USD price tick, executed.
fn token_usd_window_key_vec(
    tok: &String,
    day_id: u64,
    hour_id: u64,
    minute_id: u64,
    Ghost(ts): Ghost<u64>,
) -> (r: Vec<Key>)
    requires
        day_id == day_of(ts),
        hour_id == hour_of(ts),
        minute_id == minute_of(ts),
    ensures
        key_views(r@) == token_usd_window_keys(tok@, ts),
{
    let mut keys: Vec<Key> = Vec::new();
    keys.push(Key::window(Table::TokenDayData, day_id, tok.clone(), Field::NoField));
    keys.push(Key::window(Table::TokenHourData, hour_id, tok.clone(), Field::NoField));
    keys.push(Key::window(Table::TokenMinuteData, minute_id, tok.clone(), Field::NoField));
    proof {
        let kvs = key_views(keys@);
        let expect = token_usd_window_keys(tok@, ts);
        assert(kvs.len() == 3);
        assert(kvs[0] == keys@[0]@);
        assert(kvs[1] == keys@[1]@);
        assert(kvs[2] == keys@[2]@);
        assert(kvs =~= expect);
    }
    keys
}

/// The round figure stored beside an oracle-sourced bundle price.
pub open spec fn round_id_dec(oracle: Option<OraclePrice>) -> Dec {
    match oracle {
        Some(o) => if o.round_id < crate::dec::COMPONENT_BOUND as u64 {
            Dec { num: o.round_id as i128, den: 1 }
        } else {
            Dec { num: 0, den: 1 }
        },
        None => Dec { num: 0, den: 1 },
    }
}

/// One event step of [`store_eth_prices`]: every reserve snapshot of a
/// registered pool re-derives the ETH/USD bundle price (oracle first,
/// pair price as fallback) and both tokens' ETH prices; USD price ticks
/// go to the token windows except on the initialization snapshot.
pub open spec fn eth_prices_step(
    s: Seq<EntryV<Dec>>,
    pools: Seq<EntryV<Pool>>,
    prices: Seq<EntryV<Dec>>,
    wl: Seq<EntryV<Vec<String>>>,
    native: Seq<EntryV<Dec>>,
    liq: Seq<EntryV<u128>>,
    oracle: Option<OraclePrice>,
    ev: PoolSqrtPrice,
    ts: u64,
) -> Seq<EntryV<Dec>> {
    match get_last_spec(pools, kv_entity(Table::Pair, ev.pool_address@)) {
        None => s,
        Some(pool) => if pool.token0 is Some && pool.token1 is Some {
            let ord = ev.ordinal;
            let t0 = pool@.token0.unwrap().address;
            let t1 = pool@.token1.unwrap().address;
            let bundle = match oracle {
                Some(o) => o.price,
                None => crate::price::eth_usd_model(prices, ord),
            };
            let p0 = crate::price::eth_per_token_model(pools, liq, wl, native, prices, ord, t0);
            let p1 = crate::price::eth_per_token_model(pools, liq, wl, native, prices, ord, t1);
            let s1 = s.push(EntryV { key: crate::keys::kv_bundle(), ordinal: ord, value: bundle });
            let s2 = s1.push(
                EntryV {
                    key: kv_entity_field(Table::Bundle, Seq::<char>::empty(), Field::RoundId),
                    ordinal: ord,
                    value: round_id_dec(oracle),
                },
            );
            let s3 = s2.push(
                EntryV {
                    key: kv_entity_field(Table::Token, t0, Field::DerivedPriceEth),
                    ordinal: ord,
                    value: p0,
                },
            );
            let s4 = s3.push(
                EntryV {
                    key: kv_entity_field(Table::Token, t1, Field::DerivedPriceEth),
                    ordinal: ord,
                    value: p1,
                },
            );
            if ev.initialized {
                s4
            } else {
                let s5 = match p0.spec_mul(bundle) {
                    None => s4,
                    Some(usd0) => set_many_model(s4, token_usd_window_keys(t0, ts), ord, usd0),
                };
                match p1.spec_mul(bundle) {
                    None => s5,
                    Some(usd1) => set_many_model(s5, token_usd_window_keys(t1, ts), ord, usd1),
                }
            }
        } else {
            s
        },
    }
}

/// The event fold of [`store_eth_prices`], from position `i`.
pub open spec fn eth_prices_fold(
    s: Seq<EntryV<Dec>>,
    pools: Seq<EntryV<Pool>>,
    prices: Seq<EntryV<Dec>>,
    wl: Seq<EntryV<Vec<String>>>,
    native: Seq<EntryV<Dec>>,
    liq: Seq<EntryV<u128>>,
    oracle: Option<OraclePrice>,
    evs: Seq<PoolSqrtPrice>,
    ts: u64,
    i: int,
) -> Seq<EntryV<Dec>>
    decreases evs.len() - i,
{
    if i < 0 || i >= evs.len() {
        s
    } else {
        eth_prices_fold(
            eth_prices_step(s, pools, prices, wl, native, liq, oracle, evs[i], ts),
            pools,
            prices,
            wl,
            native,
            liq,
            oracle,
            evs,
            ts,
            i + 1,
        )
    }
}

/// The retention prune of the three token window tables.
pub open spec fn prune_token_windows(s: Seq<EntryV<Dec>>, ts: u64) -> Seq<EntryV<Dec>> {
    let s1 = remove_bucket_spec(s, Table::TokenDayData, (day_of(ts) - 1) as u64);
    let s2 = remove_bucket_spec(s1, Table::TokenHourData, (hour_of(ts) - 1) as u64);
    remove_bucket_spec(s2, Table::TokenMinuteData, (minute_of(ts) - 1) as u64)
}

/// Model of [`store_eth_prices`].
pub open spec fn eth_prices_model(
    s: Seq<EntryV<Dec>>,
    pools: Seq<EntryV<Pool>>,
    prices: Seq<EntryV<Dec>>,
    wl: Seq<EntryV<Vec<String>>>,
    native: Seq<EntryV<Dec>>,
    liq: Seq<EntryV<u128>>,
    oracle: Option<OraclePrice>,
    evs: Seq<PoolSqrtPrice>,
    ts: u64,
) -> Seq<EntryV<Dec>> {
    eth_prices_fold(prune_token_windows(s, ts), pools, prices, wl, native, liq, oracle, evs, ts, 0)
}

/// One event step of [`store_eth_prices`], executed.
#[verifier::rlimit(100)]
#[verifier::spinoff_prover]
fn eth_prices_step_exec(
    ev: &PoolSqrtPrice,
    pools_store: &Store<Pool>,
    prices_store: &Store<Dec>,
    wl_store: &Store<Vec<String>>,
    native_store: &Store<Dec>,
    liq_store: &Store<u128>,
    oracle: &Option<OraclePrice>,
    output: &mut Store<Dec>,
    day_id: u64,
    hour_id: u64,
    minute_id: u64,
    Ghost(ts): Ghost<u64>,
)
    requires
        store_values_wf(old(output)@),
        store_values_wf(prices_store@),
        store_values_wf(native_store@),
        (match *oracle {
            Some(o) => o.price.wf(),
            None => true,
        }),
        day_id == day_of(ts),
        hour_id == hour_of(ts),
        minute_id == minute_of(ts),
    ensures
        final(output)@ == eth_prices_step(
            old(output)@,
            pools_store@,
            prices_store@,
            wl_store@,
            native_store@,
            liq_store@,
            *oracle,
            *ev,
            ts,
        ),
        store_values_wf(final(output)@),
{
    let ord = ev.ordinal;
    let pool_key = Key::entity(Table::Pair, ev.pool_address.clone());
    let (t0_addr, t1_addr): (String, String) = match pools_store.get_last(&pool_key) {
        None => {
            return ;
        },
        Some(pool) => {
            match (&pool.token0, &pool.token1) {
                (Some(t0), Some(t1)) => (t0.address.clone(), t1.address.clone()),
                _ => {
                    return ;
                },
            }
        },
    };
    let bundle: Dec = match oracle {
        Some(o) => o.price,
        None => crate::price::get_eth_price_in_usd(prices_store, ord),
    };
    let p0 = crate::price::find_eth_per_token(
        ord,
        &t0_addr,
        pools_store,
        liq_store,
        wl_store,
        native_store,
        prices_store,
    );
    let p1 = crate::price::find_eth_per_token(
        ord,
        &t1_addr,
        pools_store,
        liq_store,
        wl_store,
        native_store,
        prices_store,
    );
    let round_dec: Dec = match oracle {
        Some(o) => {
            if o.round_id < 0x8000_0000_0000_0000u64 {
                Dec { num: o.round_id as i128, den: 1 }
            } else {
                Dec::zero()
            }
        },
        None => Dec::zero(),
    };
    output.set(Key::bundle(), ord, bundle);
    output.set(
        Key::entity_field(Table::Bundle, String::new(), Field::RoundId),
        ord,
        round_dec,
    );
    output.set(
        Key::entity_field(Table::Token, t0_addr.clone(), Field::DerivedPriceEth),
        ord,
        p0,
    );
    output.set(
        Key::entity_field(Table::Token, t1_addr.clone(), Field::DerivedPriceEth),
        ord,
        p1,
    );
    if !ev.initialized {
        match p0.mul(bundle) {
            None => {},
            Some(usd0) => {
                proof {
                    crate::dec::lemma_mul_frac(p0, bundle);
                }
                let keys = token_usd_window_key_vec(&t0_addr, day_id, hour_id, minute_id, Ghost(ts));
                output.set_many(keys, ord, usd0);
            },
        }
        match p1.mul(bundle) {
            None => {},
            Some(usd1) => {
                proof {
                    crate::dec::lemma_mul_frac(p1, bundle);
                }
                let keys = token_usd_window_key_vec(&t1_addr, day_id, hour_id, minute_id, Ghost(ts));
                output.set_many(keys, ord, usd1);
            },
        }
    }
}

/// Derives the bundle ETH/USD price and both tokens' ETH and USD prices
/// for every reserve snapshot, after pruning the previous token buckets.
/// An external oracle price, when present, overrides the pair-derived
/// bundle price.
pub fn store_eth_prices(
    timestamp_seconds: u64,
    events: &Events,
    pools_store: &Store<Pool>,
    prices_store: &Store<Dec>,
    wl_store: &Store<Vec<String>>,
    native_store: &Store<Dec>,
    liq_store: &Store<u128>,
    oracle: &Option<OraclePrice>,
    output: &mut Store<Dec>,
)
    requires
        timestamp_seconds >= 86400,
        store_values_wf(old(output)@),
        store_values_wf(prices_store@),
        store_values_wf(native_store@),
        (match *oracle {
            Some(o) => o.price.wf(),
            None => true,
        }),
    ensures
        final(output)@ == eth_prices_model(
            old(output)@,
            pools_store@,
            prices_store@,
            wl_store@,
            native_store@,
            liq_store@,
            *oracle,
            events.pool_sqrt_prices@,
            timestamp_seconds,
        ),
        store_values_wf(final(output)@),
{
    let ts = timestamp_seconds;
    let day_id = ts / 86400;
    let hour_id = ts / 3600;
    let minute_id = ts / 60;
    proof {
        assert(day_id == day_of(ts));
        assert(hour_id == hour_of(ts));
        assert(minute_id == minute_of(ts));
        crate::store::lemma_remove_bucket_wf(output@, Table::TokenDayData, (day_id - 1) as u64);
    }
    output.delete_bucket(Table::TokenDayData, day_id - 1);
    proof {
        crate::store::lemma_remove_bucket_wf(output@, Table::TokenHourData, (hour_id - 1) as u64);
    }
    output.delete_bucket(Table::TokenHourData, hour_id - 1);
    proof {
        crate::store::lemma_remove_bucket_wf(
            output@,
            Table::TokenMinuteData,
            (minute_id - 1) as u64,
        );
    }
    output.delete_bucket(Table::TokenMinuteData, minute_id - 1);
    let ghost pruned = output@;
    proof {
        assert(pruned == prune_token_windows(old(output)@, ts));
    }
    let ghost evs = events.pool_sqrt_prices@;
    let total = events.pool_sqrt_prices.len();
    let mut i: usize = 0;
    while i < total
        invariant
            0 <= i <= total,
            total == evs.len(),
            events.pool_sqrt_prices@ == evs,
            store_values_wf(output@),
            store_values_wf(prices_store@),
            store_values_wf(native_store@),
            (match *oracle {
                Some(o) => o.price.wf(),
                None => true,
            }),
            day_id == day_of(ts) && hour_id == hour_of(ts) && minute_id == minute_of(ts),
            eth_prices_fold(
                output@,
                pools_store@,
                prices_store@,
                wl_store@,
                native_store@,
                liq_store@,
                *oracle,
                evs,
                ts,
                i as int,
            ) == eth_prices_fold(
                pruned,
                pools_store@,
                prices_store@,
                wl_store@,
                native_store@,
                liq_store@,
                *oracle,
                evs,
                ts,
                0,
            ),
        decreases total - i,
    {
        let ev = &events.pool_sqrt_prices[i];
        eth_prices_step_exec(
            ev,
            pools_store,
            prices_store,
            wl_store,
            native_store,
            liq_store,
            oracle,
            output,
            day_id,
            hour_id,
            minute_id,
            Ghost(ts),
        );
        i = i + 1;
    }
}


/// The four keys carrying a token's TVL in USD.
pub open spec fn token_tvl_usd_keys(tok: Seq<char>, ts: u64) -> Seq<KeyV> {
    seq![
        kv_entity_field(Table::Token, tok, Field::TotalValueLockedUsd),
        kv_window(Table::TokenDayData, day_of(ts), tok, Field::TotalValueLockedUsd),
        kv_window(Table::TokenHourData, hour_of(ts), tok, Field::TotalValueLockedUsd),
        kv_window(Table::TokenMinuteData, minute_of(ts), tok, Field::TotalValueLockedUsd),
    ]
}

/// The three keys carrying a pool's TVL in USD.
pub open spec fn pool_tvl_usd_keys(pool: Seq<char>, ts: u64) -> Seq<KeyV> {
    seq![
        kv_entity_field(Table::Pool, pool, Field::TotalValueLockedUsd),
        kv_window(Table::PoolDayData, day_of(ts), pool, Field::TotalValueLockedUsd),
        kv_window(Table::PoolHourData, hour_of(ts), pool, Field::TotalValueLockedUsd),
    ]
}

/// The token TVL key list, executed.
fn token_tvl_usd_key_vec(
    tok: &String,
    day_id: u64,
    hour_id: u64,
    minute_id: u64,
    Ghost(ts): Ghost<u64>,
) -> (r: Vec<Key>)
    requires
        day_id == day_of(ts),
        hour_id == hour_of(ts),
        minute_id == minute_of(ts),
    ensures
        key_views(r@) == token_tvl_usd_keys(tok@, ts),
{
    let mut keys: Vec<Key> = Vec::new();
    keys.push(Key::entity_field(Table::Token, tok.clone(), Field::TotalValueLockedUsd));
    keys.push(Key::window(Table::TokenDayData, day_id, tok.clone(), Field::TotalValueLockedUsd));
    keys.push(Key::window(Table::TokenHourData, hour_id, tok.clone(), Field::TotalValueLockedUsd));
    keys.push(
        Key::window(Table::TokenMinuteData, minute_id, tok.clone(), Field::TotalValueLockedUsd),
    );
    proof {
        let kvs = key_views(keys@);
        let expect = token_tvl_usd_keys(tok@, ts);
        assert(kvs.len() == 4);
        assert(kvs[0] == keys@[0]@);
        assert(kvs[1] == keys@[1]@);
        assert(kvs[2] == keys@[2]@);
        assert(kvs[3] == keys@[3]@);
        assert(kvs =~= expect);
    }
    keys
}

/// The pool TVL key list, executed.
fn pool_tvl_usd_key_vec(pool: &String, day_id: u64, hour_id: u64, Ghost(ts): Ghost<u64>) -> (r:
    Vec<Key>)
    requires
        day_id == day_of(ts),
        hour_id == hour_of(ts),
    ensures
        key_views(r@) == pool_tvl_usd_keys(pool@, ts),
{
    let mut keys: Vec<Key> = Vec::new();
    keys.push(Key::entity_field(Table::Pool, pool.clone(), Field::TotalValueLockedUsd));
    keys.push(Key::window(Table::PoolDayData, day_id, pool.clone(), Field::TotalValueLockedUsd));
    keys.push(Key::window(Table::PoolHourData, hour_id, pool.clone(), Field::TotalValueLockedUsd));
    proof {
        let kvs = key_views(keys@);
        let expect = pool_tvl_usd_keys(pool@, ts);
        assert(kvs.len() == 3);
        assert(kvs[0] == keys@[0]@);
        assert(kvs[1] == keys@[1]@);
        assert(kvs[2] == keys@[2]@);
        assert(kvs =~= expect);
    }
    keys
}

/// The derived figures of one TVL re-valuation: both tokens' USD TVL.
pub open spec fn derived_tvl_figures(
    tvl0: Dec,
    tvl1: Dec,
    d0: Dec,
    d1: Dec,
    eth_usd: Dec,
) -> Option<(Dec, Dec)> {
    match d0.spec_mul(eth_usd) {
        None => None,
        Some(u0) => match tvl0.spec_mul(u0) {
            None => None,
            Some(derived0) => match d1.spec_mul(eth_usd) {
                None => None,
                Some(u1) => match tvl1.spec_mul(u1) {
                    None => None,
                    Some(derived1) => Some((derived0, derived1)),
                },
            },
        },
    }
}

/// One delta step of [`store_derived_tvl`]: a reserve change re-values
/// both tokens' and the pool's TVL in ETH and USD, writing entity keys
/// and window snapshots. Any missing input or unrepresentable figure
/// skips the event.
pub open spec fn derived_tvl_step(
    s: Seq<EntryV<Dec>>,
    pools: Seq<EntryV<Pool>>,
    token_tvl: Seq<EntryV<Dec>>,
    eth_prices: Seq<EntryV<Dec>>,
    reserves: Seq<EntryV<Dec>>,
    d: Delta,
    ts: u64,
) -> Seq<EntryV<Dec>> {
    let k = d.key@;
    if !(k.table == Table::Pool && k.field == Field::Native && k.addr2.len() > 0) {
        s
    } else {
        let ord = d.ordinal;
        match get_at_spec(eth_prices, crate::keys::kv_bundle(), ord) {
            None => s,
            Some(eth_usd) => match get_last_spec(pools, kv_entity(Table::Pair, k.addr)) {
                None => s,
                Some(pool) => if !(pool.token0 is Some && pool.token1 is Some) {
                    s
                } else {
                    let t0 = pool@.token0.unwrap().address;
                    let t1 = pool@.token1.unwrap().address;
                    let d0 = match get_at_spec(
                        eth_prices,
                        kv_entity_field(Table::Token, t0, Field::DerivedPriceEth),
                        ord,
                    ) {
                        Some(v) => v,
                        None => Dec { num: 0, den: 1 },
                    };
                    let d1 = match get_at_spec(
                        eth_prices,
                        kv_entity_field(Table::Token, t1, Field::DerivedPriceEth),
                        ord,
                    ) {
                        Some(v) => v,
                        None => Dec { num: 0, den: 1 },
                    };
                    match get_at_spec(
                        reserves,
                        kv_two_addr(Table::Pool, k.addr, t0, Field::Native),
                        ord,
                    ) {
                        None => s,
                        Some(reserve0) => match get_at_spec(
                            reserves,
                            kv_two_addr(Table::Pool, k.addr, t1, Field::Native),
                            ord,
                        ) {
                            None => s,
                            Some(reserve1) => {
                                let tvl0 = match get_at_spec(
                                    token_tvl,
                                    kv_entity(Table::Token, t0),
                                    ord,
                                ) {
                                    Some(v) => v,
                                    None => Dec { num: 0, den: 1 },
                                };
                                let tvl1 = match get_at_spec(
                                    token_tvl,
                                    kv_entity(Table::Token, t1),
                                    ord,
                                ) {
                                    Some(v) => v,
                                    None => Dec { num: 0, den: 1 },
                                };
                                match adjusted_amounts_spec(reserve0, reserve1, d0, d1, eth_usd) {
                                    None => s,
                                    Some(amounts) => match derived_tvl_figures(
                                        tvl0,
                                        tvl1,
                                        d0,
                                        d1,
                                        eth_usd,
                                    ) {
                                        None => s,
                                        Some(figures) => {
                                            let s1 = set_many_model(
                                                s,
                                                token_tvl_usd_keys(t0, ts),
                                                ord,
                                                figures.0,
                                            );
                                            let s2 = set_many_model(
                                                s1,
                                                token_tvl_usd_keys(t1, ts),
                                                ord,
                                                figures.1,
                                            );
                                            let s3 = s2.push(
                                                EntryV {
                                                    key: kv_entity_field(
                                                        Table::Pool,
                                                        k.addr,
                                                        Field::TotalValueLockedEth,
                                                    ),
                                                    ordinal: ord,
                                                    value: amounts.delta_tvl_eth,
                                                },
                                            );
                                            let s4 = set_many_model(
                                                s3,
                                                pool_tvl_usd_keys(k.addr, ts),
                                                ord,
                                                amounts.delta_tvl_usd,
                                            );
                                            let s5 = s4.push(
                                                EntryV {
                                                    key: kv_entity_field(
                                                        Table::Pool,
                                                        k.addr,
                                                        Field::TotalValueLockedEthUntracked,
                                                    ),
                                                    ordinal: ord,
                                                    value: amounts.stable_eth_untracked,
                                                },
                                            );
                                            s5.push(
                                                EntryV {
                                                    key: kv_entity_field(
                                                        Table::Pool,
                                                        k.addr,
                                                        Field::TotalValueLockedUsdUntracked,
                                                    ),
                                                    ordinal: ord,
                                                    value: amounts.stable_usd_untracked,
                                                },
                                            )
                                        },
                                    },
                                }
                            },
                        },
                    }
                },
            },
        }
    }
}

/// The delta fold of [`store_derived_tvl`], from position `i`.
pub open spec fn derived_tvl_fold(
    s: Seq<EntryV<Dec>>,
    pools: Seq<EntryV<Pool>>,
    token_tvl: Seq<EntryV<Dec>>,
    eth_prices: Seq<EntryV<Dec>>,
    reserves: Seq<EntryV<Dec>>,
    ds: Seq<Delta>,
    ts: u64,
    i: int,
) -> Seq<EntryV<Dec>>
    decreases ds.len() - i,
{
    if i < 0 || i >= ds.len() {
        s
    } else {
        derived_tvl_fold(
            derived_tvl_step(s, pools, token_tvl, eth_prices, reserves, ds[i], ts),
            pools,
            token_tvl,
            eth_prices,
            reserves,
            ds,
            ts,
            i + 1,
        )
    }
}

/// Model of [`store_derived_tvl`].
pub open spec fn derived_tvl_model(
    s: Seq<EntryV<Dec>>,
    pools: Seq<EntryV<Pool>>,
    token_tvl: Seq<EntryV<Dec>>,
    eth_prices: Seq<EntryV<Dec>>,
    reserves: Seq<EntryV<Dec>>,
    ds: Seq<Delta>,
    ts: u64,
) -> Seq<EntryV<Dec>> {
    derived_tvl_fold(
        prune_all_price_windows(s, ts),
        pools,
        token_tvl,
        eth_prices,
        reserves,
        ds,
        ts,
        0,
    )
}

/// One delta step of [`store_derived_tvl`], executed.
#[verifier::rlimit(100)]
#[verifier::spinoff_prover]
fn derived_tvl_step_exec(
    d: &Delta,
    pools_store: &Store<Pool>,
    token_tvl_store: &Store<Dec>,
    eth_prices_store: &Store<Dec>,
    reserves_store: &Store<Dec>,
    output: &mut Store<Dec>,
    day_id: u64,
    hour_id: u64,
    minute_id: u64,
    Ghost(ts): Ghost<u64>,
)
    requires
        store_values_wf(old(output)@),
        store_values_wf(token_tvl_store@),
        store_values_wf(eth_prices_store@),
        store_values_wf(reserves_store@),
        day_id == day_of(ts),
        hour_id == hour_of(ts),
        minute_id == minute_of(ts),
    ensures
        final(output)@ == derived_tvl_step(
            old(output)@,
            pools_store@,
            token_tvl_store@,
            eth_prices_store@,
            reserves_store@,
            *d,
            ts,
        ),
        store_values_wf(final(output)@),
{
    let is_native = match d.key.table {
        Table::Pool => d.key.field == Field::Native,
        _ => false,
    };
    if !is_native {
        return ;
    }
    if d.key.addr2.as_str().unicode_len() == 0 {
        return ;
    }
    let ord = d.ordinal;
    let bundle_key = Key::bundle();
    let eth_usd: Dec = match eth_prices_store.get_at(&bundle_key, ord) {
        None => {
            return ;
        },
        Some(v) => {
            proof {
                crate::store::lemma_get_at_wf(eth_prices_store@, bundle_key@, ord);
            }
            *v
        },
    };
    let pool_key = Key::entity(Table::Pair, d.key.addr.clone());
    let (t0_addr, t1_addr): (String, String) = match pools_store.get_last(&pool_key) {
        None => {
            return ;
        },
        Some(pool) => {
            match (&pool.token0, &pool.token1) {
                (Some(t0), Some(t1)) => (t0.address.clone(), t1.address.clone()),
                _ => {
                    return ;
                },
            }
        },
    };
    let d0 = get_derived_eth_price(ord, &t0_addr, eth_prices_store);
    let d1 = get_derived_eth_price(ord, &t1_addr, eth_prices_store);
    let r0_key = Key::two_addr(Table::Pool, d.key.addr.clone(), t0_addr.clone(), Field::Native);
    let reserve0: Dec = match reserves_store.get_at(&r0_key, ord) {
        None => {
            return ;
        },
        Some(v) => {
            proof {
                crate::store::lemma_get_at_wf(reserves_store@, r0_key@, ord);
            }
            *v
        },
    };
    let r1_key = Key::two_addr(Table::Pool, d.key.addr.clone(), t1_addr.clone(), Field::Native);
    let reserve1: Dec = match reserves_store.get_at(&r1_key, ord) {
        None => {
            return ;
        },
        Some(v) => {
            proof {
                crate::store::lemma_get_at_wf(reserves_store@, r1_key@, ord);
            }
            *v
        },
    };
    let tvl0 = get_token_tvl(ord, &t0_addr, token_tvl_store);
    let tvl1 = get_token_tvl(ord, &t1_addr, token_tvl_store);
    let amounts = match get_adjusted_amounts(reserve0, reserve1, d0, d1, eth_usd) {
        None => {
            return ;
        },
        Some(v) => v,
    };
    let u0 = match d0.mul(eth_usd) {
        None => {
            return ;
        },
        Some(v) => {
            proof {
                crate::dec::lemma_mul_frac(d0, eth_usd);
            }
            v
        },
    };
    let derived0 = match tvl0.mul(u0) {
        None => {
            return ;
        },
        Some(v) => {
            proof {
                crate::dec::lemma_mul_frac(tvl0, u0);
            }
            v
        },
    };
    let u1 = match d1.mul(eth_usd) {
        None => {
            return ;
        },
        Some(v) => {
            proof {
                crate::dec::lemma_mul_frac(d1, eth_usd);
            }
            v
        },
    };
    let derived1 = match tvl1.mul(u1) {
        None => {
            return ;
        },
        Some(v) => {
            proof {
                crate::dec::lemma_mul_frac(tvl1, u1);
            }
            v
        },
    };
    let keys0 = token_tvl_usd_key_vec(&t0_addr, day_id, hour_id, minute_id, Ghost(ts));
    output.set_many(keys0, ord, derived0);
    let keys1 = token_tvl_usd_key_vec(&t1_addr, day_id, hour_id, minute_id, Ghost(ts));
    output.set_many(keys1, ord, derived1);
    output.set(
        Key::entity_field(Table::Pool, d.key.addr.clone(), Field::TotalValueLockedEth),
        ord,
        amounts.delta_tvl_eth,
    );
    let pkeys = pool_tvl_usd_key_vec(&d.key.addr, day_id, hour_id, Ghost(ts));
    output.set_many(pkeys, ord, amounts.delta_tvl_usd);
    output.set(
        Key::entity_field(Table::Pool, d.key.addr.clone(), Field::TotalValueLockedEthUntracked),
        ord,
        amounts.stable_eth_untracked,
    );
    output.set(
        Key::entity_field(Table::Pool, d.key.addr.clone(), Field::TotalValueLockedUsdUntracked),
        ord,
        amounts.stable_usd_untracked,
    );
}

/// Re-values token and pool TVL in ETH and USD for every reserve change,
/// after pruning the previous buckets.
pub fn store_derived_tvl(
    timestamp_seconds: u64,
    reserve_deltas: &Vec<Delta>,
    token_tvl_store: &Store<Dec>,
    pools_store: &Store<Pool>,
    eth_prices_store: &Store<Dec>,
    reserves_store: &Store<Dec>,
    output: &mut Store<Dec>,
)
    requires
        timestamp_seconds >= 86400,
        store_values_wf(old(output)@),
        store_values_wf(token_tvl_store@),
        store_values_wf(eth_prices_store@),
        store_values_wf(reserves_store@),
    ensures
        final(output)@ == derived_tvl_model(
            old(output)@,
            pools_store@,
            token_tvl_store@,
            eth_prices_store@,
            reserves_store@,
            reserve_deltas@,
            timestamp_seconds,
        ),
        store_values_wf(final(output)@),
{
    let ts = timestamp_seconds;
    let day_id = ts / 86400;
    let hour_id = ts / 3600;
    let minute_id = ts / 60;
    proof {
        assert(day_id == day_of(ts));
        assert(hour_id == hour_of(ts));
        assert(minute_id == minute_of(ts));
        crate::store::lemma_remove_bucket_wf(output@, Table::PoolDayData, (day_id - 1) as u64);
    }
    output.delete_bucket(Table::PoolDayData, day_id - 1);
    proof {
        crate::store::lemma_remove_bucket_wf(output@, Table::PoolHourData, (hour_id - 1) as u64);
    }
    output.delete_bucket(Table::PoolHourData, hour_id - 1);
    proof {
        crate::store::lemma_remove_bucket_wf(output@, Table::TokenDayData, (day_id - 1) as u64);
    }
    output.delete_bucket(Table::TokenDayData, day_id - 1);
    proof {
        crate::store::lemma_remove_bucket_wf(output@, Table::TokenHourData, (hour_id - 1) as u64);
    }
    output.delete_bucket(Table::TokenHourData, hour_id - 1);
    proof {
        crate::store::lemma_remove_bucket_wf(
            output@,
            Table::TokenMinuteData,
            (minute_id - 1) as u64,
        );
    }
    output.delete_bucket(Table::TokenMinuteData, minute_id - 1);
    let ghost pruned = output@;
    proof {
        assert(pruned == prune_all_price_windows(old(output)@, ts));
    }
    let ghost ds = reserve_deltas@;
    let total = reserve_deltas.len();
    let mut i: usize = 0;
    while i < total
        invariant
            0 <= i <= total,
            total == ds.len(),
            reserve_deltas@ == ds,
            store_values_wf(output@),
            store_values_wf(token_tvl_store@),
            store_values_wf(eth_prices_store@),
            store_values_wf(reserves_store@),
            day_id == day_of(ts) && hour_id == hour_of(ts) && minute_id == minute_of(ts),
            derived_tvl_fold(
                output@,
                pools_store@,
                token_tvl_store@,
                eth_prices_store@,
                reserves_store@,
                ds,
                ts,
                i as int,
            ) == derived_tvl_fold(
                pruned,
                pools_store@,
                token_tvl_store@,
                eth_prices_store@,
                reserves_store@,
                ds,
                ts,
                0,
            ),
        decreases total - i,
    {
        let d = &reserve_deltas[i];
        derived_tvl_step_exec(
            d,
            pools_store,
            token_tvl_store,
            eth_prices_store,
            reserves_store,
            output,
            day_id,
            hour_id,
            minute_id,
            Ghost(ts),
        );
        i = i + 1;
    }
}


/// The protocol-fee liquidity mint of one (transaction, pool) pair.
pub struct FeeMint {
    pub fee_to: String,
    pub fee_liquidity: Dec,
}

/// One zero-origin LP transfer considered by the fee-mint detector.
pub struct FeeTransfer {
    pub log_index: u64,
    pub to: String,
    pub value: u128,
}

/// The log indices of a transfer list.
pub open spec fn fee_log_indices(ts: Seq<FeeTransfer>) -> Seq<u64> {
    ts.map_values(|t: FeeTransfer| t.log_index)
}

/// The first position of the unclaimed transfer with the largest log
/// index at or before `mint_log_index`, or -1 (the same tie-break as the
/// mint correlation, with independent bookkeeping). The selection reads
/// only the transfers' log indices.
pub open spec fn best_claim_index(idxs: Seq<u64>, used: Seq<bool>, mint_log_index: u64) -> int
    decreases idxs.len(),
{
    if idxs.len() == 0 || idxs.len() != used.len() {
        -1
    } else {
        let prev = best_claim_index(idxs.drop_last(), used.drop_last(), mint_log_index);
        let i = idxs.len() - 1;
        if !used[i as int] && idxs[i as int] <= mint_log_index && (prev == -1 || idxs[i as int]
            > idxs[prev]) {
            i as int
        } else {
            prev
        }
    }
}

/// The claim flags after the mints from position `mi` have greedily taken
/// their matches.
pub open spec fn claim_fold(idxs: Seq<u64>, used: Seq<bool>, mints: Seq<u64>, mi: int) -> Seq<bool>
    decreases mints.len() - mi,
{
    if mi < 0 || mi >= mints.len() || idxs.len() != used.len() {
        used
    } else {
        let b = best_claim_index(idxs, used, mints[mi]);
        let used2 = if b >= 0 {
            used.update(b, true)
        } else {
            used
        };
        claim_fold(idxs, used2, mints, mi + 1)
    }
}

/// The first position of the unclaimed transfer with the largest log
/// index, or -1.
pub open spec fn best_unclaimed_index(idxs: Seq<u64>, used: Seq<bool>) -> int
    decreases idxs.len(),
{
    if idxs.len() == 0 || idxs.len() != used.len() {
        -1
    } else {
        let prev = best_unclaimed_index(idxs.drop_last(), used.drop_last());
        let i = idxs.len() - 1;
        if !used[i as int] && (prev == -1 || idxs[i as int] > idxs[prev]) {
            i as int
        } else {
            prev
        }
    }
}

/// Model of [`detect_fee_mint`]: after every mint (in list order) has
/// greedily claimed its closest preceding unclaimed transfer, the
/// unclaimed transfer with the largest log index is the fee mint.
pub open spec fn detect_fee_mint_spec(idxs: Seq<u64>, mints: Seq<u64>) -> int {
    let all_false = Seq::<bool>::new(idxs.len(), |i: int| false);
    best_unclaimed_index(idxs, claim_fold(idxs, all_false, mints, 0))
}

/// Finds the protocol-fee mint among a transaction's zero-origin LP
/// transfers for one pool: each Mint event (in the given order) claims
/// its closest preceding unclaimed transfer; the latest transfer still
/// unclaimed afterwards is the fee mint. Returns its position, or `None`
/// when every transfer was claimed.
pub fn detect_fee_mint(transfers: &Vec<FeeTransfer>, mint_log_indices: &Vec<u64>) -> (r: Option<
    usize,
>)
    ensures
        match r {
            Some(idx) => idx < transfers@.len() && detect_fee_mint_spec(
                fee_log_indices(transfers@),
                mint_log_indices@,
            ) == idx as int,
            None => detect_fee_mint_spec(fee_log_indices(transfers@), mint_log_indices@) == -1,
        },
{
    let ghost idxs = fee_log_indices(transfers@);
    let n = transfers.len();
    let mut used: Vec<bool> = Vec::new();
    let mut z: usize = 0;
    while z < n
        invariant
            0 <= z <= n,
            n == transfers@.len(),
            used@.len() == z,
            forall|j: int| 0 <= j < z ==> !(#[trigger] used@[j]),
        decreases n - z,
    {
        used.push(false);
        z = z + 1;
    }
    proof {
        assert(used@ =~= Seq::<bool>::new(idxs.len(), |i: int| false));
        assert(idxs.len() == transfers@.len());
    }
    let m = mint_log_indices.len();
    let mut mi: usize = 0;
    let ghost all_false = Seq::<bool>::new(idxs.len(), |i: int| false);
    while mi < m
        invariant
            0 <= mi <= m,
            m == mint_log_indices@.len(),
            n == transfers@.len(),
            idxs == fee_log_indices(transfers@),
            idxs.len() == n,
            used@.len() == n,
            claim_fold(idxs, used@, mint_log_indices@, mi as int) == claim_fold(
                idxs,
                all_false,
                mint_log_indices@,
                0,
            ),
        decreases m - mi,
    {
        let mint_log = mint_log_indices[mi];
        // select the claim for this mint
        let mut have: bool = false;
        let mut selected: usize = 0;
        let mut i: usize = 0;
        proof {
            assert(idxs.subrange(0, 0) =~= Seq::<u64>::empty());
            assert(used@.subrange(0, 0) =~= Seq::<bool>::empty());
        }
        while i < n
            invariant
                0 <= i <= n,
                n == transfers@.len(),
                idxs == fee_log_indices(transfers@),
                idxs.len() == n,
                used@.len() == n,
                !have ==> best_claim_index(
                    idxs.subrange(0, i as int),
                    used@.subrange(0, i as int),
                    mint_log,
                ) == -1,
                have ==> selected < i && best_claim_index(
                    idxs.subrange(0, i as int),
                    used@.subrange(0, i as int),
                    mint_log,
                ) == selected,
            decreases n - i,
        {
            let ghost tprefix = idxs.subrange(0, i as int);
            let ghost uprefix = used@.subrange(0, i as int);
            let is_candidate = !used[i] && transfers[i].log_index <= mint_log;
            let better = if !have {
                true
            } else {
                transfers[i].log_index > transfers[selected].log_index
            };
            proof {
                assert(idxs[i as int] == transfers@[i as int].log_index);
                if have {
                    assert(idxs[selected as int] == transfers@[selected as int].log_index);
                }
                assert(idxs.subrange(0, i + 1).drop_last() =~= tprefix);
                assert(used@.subrange(0, i + 1).drop_last() =~= uprefix);
                assert(idxs.subrange(0, i + 1).last() == idxs[i as int]);
                assert(used@.subrange(0, i + 1).last() == used@[i as int]);
                assert(idxs.subrange(0, i + 1).len() == used@.subrange(0, i + 1).len());
            }
            if is_candidate && better {
                selected = i;
                have = true;
            }
            i = i + 1;
        }
        proof {
            assert(idxs.subrange(0, n as int) =~= idxs);
            assert(used@.subrange(0, n as int) =~= used@);
        }
        let ghost used_before = used@;
        if have {
            used[selected] = true;
        }
        proof {
            let b = best_claim_index(idxs, used_before, mint_log);
            if have {
                assert(used@ =~= used_before.update(b, true));
            }
        }
        mi = mi + 1;
    }
    proof {
        assert(claim_fold(idxs, used@, mint_log_indices@, m as int) == used@);
    }
    // the latest unclaimed transfer is the fee mint
    let mut have: bool = false;
    let mut selected: usize = 0;
    let mut i: usize = 0;
    proof {
        assert(idxs.subrange(0, 0) =~= Seq::<u64>::empty());
        assert(used@.subrange(0, 0) =~= Seq::<bool>::empty());
    }
    while i < n
        invariant
            0 <= i <= n,
            n == transfers@.len(),
            idxs == fee_log_indices(transfers@),
            idxs.len() == n,
            used@.len() == n,
            used@ == claim_fold(idxs, all_false, mint_log_indices@, 0),
            !have ==> best_unclaimed_index(
                idxs.subrange(0, i as int),
                used@.subrange(0, i as int),
            ) == -1,
            have ==> selected < i && best_unclaimed_index(
                idxs.subrange(0, i as int),
                used@.subrange(0, i as int),
            ) == selected,
        decreases n - i,
    {
        let ghost tprefix = idxs.subrange(0, i as int);
        let ghost uprefix = used@.subrange(0, i as int);
        let is_candidate = !used[i];
        let better = if !have {
            true
        } else {
            transfers[i].log_index > transfers[selected].log_index
        };
        proof {
            assert(idxs[i as int] == transfers@[i as int].log_index);
            if have {
                assert(idxs[selected as int] == transfers@[selected as int].log_index);
            }
            assert(idxs.subrange(0, i + 1).drop_last() =~= tprefix);
            assert(used@.subrange(0, i + 1).drop_last() =~= uprefix);
            assert(idxs.subrange(0, i + 1).last() == idxs[i as int]);
            assert(used@.subrange(0, i + 1).last() == used@[i as int]);
            assert(idxs.subrange(0, i + 1).len() == used@.subrange(0, i + 1).len());
        }
        if is_candidate && better {
            selected = i;
            have = true;
        }
        i = i + 1;
    }
    proof {
        assert(idxs.subrange(0, n as int) =~= idxs);
        assert(used@.subrange(0, n as int) =~= used@);
    }
    if have {
        Some(selected)
    } else {
        None
    }
}

/// One detected protocol-fee mint, keyed by transaction and pool.
pub struct FeeMintRecord {
    pub transaction_id: String,
    pub pool_address: String,
    pub fee_to: String,
    pub fee_liquidity: Dec,
}

/// Whether the list holds a string with these characters.
fn contains_str(v: &Vec<String>, s: &str) -> (r: bool)
    ensures
        r == exists|j: int| 0 <= j < v@.len() && (#[trigger] v@[j])@ == s@,
{
    let n = v.len();
    let mut i: usize = 0;
    while i < n
        invariant
            0 <= i <= n,
            n == v@.len(),
            forall|j: int| 0 <= j < i ==> (#[trigger] v@[j])@ != s@,
        decreases n - i,
    {
        if crate::text::str_eq(v[i].as_str(), s) {
            return true;
        }
        i = i + 1;
    }
    false
}

/// The log is an LP transfer of a registered pool in which `a` appears
/// as the normalized sender or recipient.
pub open spec fn log_names_user(pools: Seq<EntryV<Pool>>, log: LogData, a: Seq<char>) -> bool {
    &&& get_last_spec(pools, kv_entity(Table::Pair, log.address@)) is Some
    &&& match log.event {
        LogEvent::Transfer { ref from, ref to, .. } => normalized(from@) == a || normalized(to@)
            == a,
        _ => false,
    }
}

/// Some log among the transaction's first `lbound` names `a`.
pub open spec fn tx_prefix_names_user(
    pools: Seq<EntryV<Pool>>,
    tx: TransactionData,
    lbound: int,
    a: Seq<char>,
) -> bool {
    exists|l: int|
        0 <= l < lbound && l < tx.logs@.len() && log_names_user(pools, #[trigger] tx.logs@[l], a)
}

/// Some log among the first `tbound` transactions names `a`.
pub open spec fn block_prefix_names_user(
    pools: Seq<EntryV<Pool>>,
    txs: Seq<TransactionData>,
    tbound: int,
    a: Seq<char>,
) -> bool {
    exists|t: int|
        0 <= t < tbound && t < txs.len() && tx_prefix_names_user(
            pools,
            #[trigger] txs[t],
            txs[t].logs@.len() as int,
            a,
        )
}

/// Some LP transfer of a registered pool in the block names `a`.
pub open spec fn block_names_user(pools: Seq<EntryV<Pool>>, block: BlockData, a: Seq<char>) -> bool {
    block_prefix_names_user(pools, block.transactions@, block.transactions@.len() as int, a)
}

/// The address appears in the list.
pub open spec fn user_listed(users: Seq<String>, a: Seq<char>) -> bool {
    exists|j: int| 0 <= j < users.len() && (#[trigger] users[j])@ == a
}

/// The distinct non-zero addresses that sent or received LP tokens of a
/// registered pool in this block, in first-appearance order: an address
/// is listed exactly when some such transfer names it and it is neither
/// the zero address nor empty.
#[verifier::loop_isolation(false)]
#[verifier::rlimit(100)]
#[verifier::spinoff_prover]
pub fn collect_transfer_users(block: &BlockData, pools_store: &Store<Pool>) -> (r: Vec<String>)
    ensures
        forall|j: int|
            0 <= j < r@.len() ==> (#[trigger] r@[j])@ != crate::filtering::zero_addr_spec()
                && r@[j]@.len() > 0 && block_names_user(pools_store@, *block, r@[j]@),
        forall|i: int, j: int|
            0 <= i < j < r@.len() ==> (#[trigger] r@[i])@ != (#[trigger] r@[j])@,
        forall|a: Seq<char>|
            #[trigger] block_names_user(pools_store@, *block, a) && a
                != crate::filtering::zero_addr_spec() && a.len() > 0 ==> user_listed(r@, a),
{
    let ghost pv = pools_store@;
    let ghost txs = block.transactions@;
    let mut users: Vec<String> = Vec::new();
    let zero = normalize_address(crate::constants::ZERO_ADDRESS);
    let tn = block.transactions.len();
    let mut t: usize = 0;
    while t < tn
        invariant
            0 <= t <= tn,
            forall|j: int|
                0 <= j < users@.len() ==> (#[trigger] users@[j])@
                    != crate::filtering::zero_addr_spec() && users@[j]@.len() > 0
                    && block_names_user(pv, *block, users@[j]@),
            forall|i: int, j: int|
                0 <= i < j < users@.len() ==> (#[trigger] users@[i])@ != (#[trigger] users@[j])@,
            forall|a: Seq<char>|
                #[trigger] block_prefix_names_user(pv, txs, t as int, a) && a
                    != crate::filtering::zero_addr_spec() && a.len() > 0 ==> user_listed(
                    users@,
                    a,
                ),
        decreases tn - t,
    {
        let tx = &block.transactions[t];
        let ln = tx.logs.len();
        let mut l: usize = 0;
        while l < ln
            invariant
                0 <= l <= ln,
                forall|j: int|
                    0 <= j < users@.len() ==> (#[trigger] users@[j])@
                        != crate::filtering::zero_addr_spec() && users@[j]@.len() > 0
                        && block_names_user(pv, *block, users@[j]@),
                forall|i: int, j: int|
                    0 <= i < j < users@.len() ==> (#[trigger] users@[i])@ != (
                    #[trigger] users@[j])@,
                forall|a: Seq<char>|
                    #[trigger] block_prefix_names_user(pv, txs, t as int, a) && a
                        != crate::filtering::zero_addr_spec() && a.len() > 0 ==> user_listed(
                        users@,
                        a,
                    ),
                forall|a: Seq<char>|
                    #[trigger] tx_prefix_names_user(pv, txs[t as int], l as int, a) && a
                        != crate::filtering::zero_addr_spec() && a.len() > 0 ==> user_listed(
                        users@,
                        a,
                    ),
            decreases ln - l,
        {
            let ghost users0 = users@;
            let ghost named_from: Seq<char> = Seq::<char>::empty();
            let ghost named_to: Seq<char> = Seq::<char>::empty();
            let ghost is_transfer_of_pool: bool = false;
            let log = &tx.logs[l];
            let pool_key = Key::entity(Table::Pair, log.address.clone());
            if pools_store.get_last(&pool_key).is_some() {
                match &log.event {
                    LogEvent::Transfer { from, to, value } => {
                        proof {
                            named_from = normalized(from@);
                            named_to = normalized(to@);
                            is_transfer_of_pool = true;
                        }
                        let nf = normalize_address(from.as_str());
                        let nt = normalize_address(to.as_str());
                        let ghost nfv = nf@;
                        let ghost ntv = nt@;
                        let nf_ok = nf.as_str().unicode_len() > 0 && !(nf == zero);
                        let nf_absent = !contains_str(&users, nf.as_str());
                        if nf_ok && nf_absent {
                            proof {
                                assert(log_names_user(pv, tx.logs@[l as int], nf@));
                                assert(tx_prefix_names_user(pv, txs[t as int], ln as int, nf@));
                                assert(block_names_user(pv, *block, nf@));
                            }
                            users.push(nf);
                        }
                        let ghost u1 = users@;
                        proof {
                            if nf_ok {
                                assert(user_listed(u1, nfv)) by {
                                    if nf_absent {
                                        assert(u1[u1.len() - 1]@ == nfv);
                                    } else {
                                        let j = choose|j: int|
                                            0 <= j < users0.len() && (#[trigger] users0[j])@
                                                == nfv;
                                        assert(u1[j]@ == nfv);
                                    }
                                }
                            }
                        }
                        let nt_ok = nt.as_str().unicode_len() > 0 && !(nt == zero);
                        let nt_absent = !contains_str(&users, nt.as_str());
                        if nt_ok && nt_absent {
                            proof {
                                assert(log_names_user(pv, tx.logs@[l as int], nt@));
                                assert(tx_prefix_names_user(pv, txs[t as int], ln as int, nt@));
                                assert(block_names_user(pv, *block, nt@));
                            }
                            users.push(nt);
                        }
                        proof {
                            if nt_ok {
                                assert(user_listed(users@, ntv)) by {
                                    if nt_absent {
                                        assert(users@[users@.len() - 1]@ == ntv);
                                    } else {
                                        let j = choose|j: int|
                                            0 <= j < u1.len() && (#[trigger] u1[j])@ == ntv;
                                        assert(users@[j]@ == ntv);
                                    }
                                }
                            }
                            if nf_ok {
                                assert(user_listed(users@, nfv)) by {
                                    let j = choose|j: int|
                                        0 <= j < u1.len() && (#[trigger] u1[j])@ == nfv;
                                    assert(users@[j]@ == nfv);
                                }
                            }
                        }
                    },
                    _ => {},
                }
            }
            proof {
                // listing is monotone: everything listed stays listed
                assert forall|a: Seq<char>| user_listed(users0, a) implies user_listed(
                    users@,
                    a,
                ) by {
                    let j = choose|j: int| 0 <= j < users0.len() && (#[trigger] users0[j])@ == a;
                    assert(users@[j]@ == a);
                }
                // the new prefix bound covers the log just processed
                assert forall|a: Seq<char>|
                    #[trigger] tx_prefix_names_user(pv, txs[t as int], l + 1, a) && a
                        != crate::filtering::zero_addr_spec() && a.len() > 0 implies user_listed(
                    users@,
                    a,
                ) by {
                    let l2 = choose|l2: int|
                        0 <= l2 < l + 1 && l2 < txs[t as int].logs@.len() && log_names_user(
                            pv,
                            #[trigger] txs[t as int].logs@[l2],
                            a,
                        );
                    if l2 < l {
                        assert(tx_prefix_names_user(pv, txs[t as int], l as int, a));
                        assert(user_listed(users0, a));
                    } else {
                        assert(is_transfer_of_pool);
                        assert(a == named_from || a == named_to);
                    }
                }
            }
            l = l + 1;
        }
        proof {
            assert forall|a: Seq<char>|
                #[trigger] block_prefix_names_user(pv, txs, t + 1, a) && a
                    != crate::filtering::zero_addr_spec() && a.len() > 0 implies user_listed(
                users@,
                a,
            ) by {
                let t2 = choose|t2: int|
                    0 <= t2 < t + 1 && t2 < txs.len() && tx_prefix_names_user(
                        pv,
                        #[trigger] txs[t2],
                        txs[t2].logs@.len() as int,
                        a,
                    );
                if t2 < t {
                    assert(block_prefix_names_user(pv, txs, t as int, a));
                } else {
                    assert(tx_prefix_names_user(pv, txs[t as int], ln as int, a));
                }
            }
        }
        t = t + 1;
    }
    users
}

/// The mathematical form of a considered transfer.
pub struct FeeTransferV {
    pub log_index: u64,
    pub to: Seq<char>,
    pub value: u128,
}

impl View for FeeTransfer {
    type V = FeeTransferV;

    open spec fn view(&self) -> FeeTransferV {
        FeeTransferV { log_index: self.log_index, to: self.to@, value: self.value }
    }
}

/// The mathematical form of a fee-mint record.
pub struct FeeRecV {
    pub transaction_id: Seq<char>,
    pub pool_address: Seq<char>,
    pub fee_to: Seq<char>,
    pub fee_liquidity: Dec,
}

impl View for FeeMintRecord {
    type V = FeeRecV;

    open spec fn view(&self) -> FeeRecV {
        FeeRecV {
            transaction_id: self.transaction_id@,
            pool_address: self.pool_address@,
            fee_to: self.fee_to@,
            fee_liquidity: self.fee_liquidity,
        }
    }
}

/// The distinct addresses of registered pools with Transfer logs in this
/// transaction, appended to `acc` in first-appearance order, from
/// position `li`.
pub open spec fn fee_pool_list(
    pools: Seq<EntryV<Pool>>,
    logs: Seq<LogData>,
    li: int,
    acc: Seq<Seq<char>>,
) -> Seq<Seq<char>>
    decreases logs.len() - li,
{
    if li < 0 || li >= logs.len() {
        acc
    } else {
        let log = logs[li];
        let acc2 = match log.event {
            LogEvent::Transfer { .. } => if get_last_spec(
                pools,
                kv_entity(Table::Pair, log.address@),
            ) is Some && !acc.contains(log.address@) {
                acc.push(log.address@)
            } else {
                acc
            },
            _ => acc,
        };
        fee_pool_list(pools, logs, li + 1, acc2)
    }
}

/// The zero-origin LP transfers of the pool in this transaction, in log
/// order, from position `li`.
pub open spec fn fee_transfers_of(logs: Seq<LogData>, pool: Seq<char>, li: int) -> Seq<FeeTransferV>
    decreases logs.len() - li,
{
    if li < 0 || li >= logs.len() {
        Seq::<FeeTransferV>::empty()
    } else {
        let rest = fee_transfers_of(logs, pool, li + 1);
        let log = logs[li];
        match log.event {
            LogEvent::Transfer { ref from, ref to, value } => if log.address@ == pool
                && normalized(from@) == crate::filtering::zero_addr_spec() && normalized(to@)
                != crate::filtering::zero_addr_spec() {
                seq![FeeTransferV { log_index: log.block_index, to: to@, value }] + rest
            } else {
                rest
            },
            _ => rest,
        }
    }
}

/// The Mint log indices of the extracted events for this transaction and
/// pool, in their order of appearance, from position `ei`.
pub open spec fn fee_mint_indices_of(
    evs: Seq<PoolEvent>,
    hash: Seq<char>,
    pool: Seq<char>,
    ei: int,
) -> Seq<u64>
    decreases evs.len() - ei,
{
    if ei < 0 || ei >= evs.len() {
        Seq::<u64>::empty()
    } else {
        let rest = fee_mint_indices_of(evs, hash, pool, ei + 1);
        let ev = evs[ei];
        match ev.kind {
            PoolEventType::Mint { .. } => if ev.transaction_id@ == hash && ev.pool_address@
                == pool {
                seq![ev.log_index] + rest
            } else {
                rest
            },
            _ => rest,
        }
    }
}

/// The log indices of view-level transfers.
pub open spec fn fee_v_indices(fts: Seq<FeeTransferV>) -> Seq<u64> {
    fts.map_values(|t: FeeTransferV| t.log_index)
}

/// The fee-mint records of one (transaction, pool) pair: empty, or the
/// one record carrying the unclaimed transfer's normalized recipient and
/// its value at the standard eighteen LP decimals.
pub open spec fn fee_record_of(tx: TransactionData, evs: Seq<PoolEvent>, pool: Seq<char>) -> Seq<
    FeeRecV,
> {
    let fts = fee_transfers_of(tx.logs@, pool, 0);
    let mints = fee_mint_indices_of(evs, tx.hash@, pool, 0);
    let b = detect_fee_mint_spec(fee_v_indices(fts), mints);
    if 0 <= b < fts.len() {
        match Dec::spec_from_raw_u(fts[b].value, 18) {
            Some(d) => seq![
                FeeRecV {
                    transaction_id: tx.hash@,
                    pool_address: pool,
                    fee_to: normalized(fts[b].to),
                    fee_liquidity: d,
                },
            ],
            None => Seq::<FeeRecV>::empty(),
        }
    } else {
        Seq::<FeeRecV>::empty()
    }
}

/// The records of one transaction, over its pool list from position `pi`.
pub open spec fn fee_tx_fold(
    tx: TransactionData,
    evs: Seq<PoolEvent>,
    plist: Seq<Seq<char>>,
    pi: int,
) -> Seq<FeeRecV>
    decreases plist.len() - pi,
{
    if pi < 0 || pi >= plist.len() {
        Seq::<FeeRecV>::empty()
    } else {
        fee_record_of(tx, evs, plist[pi]) + fee_tx_fold(tx, evs, plist, pi + 1)
    }
}

/// Model of [`collect_fee_mints`], from transaction `ti`.
pub open spec fn fee_records_model(
    pools: Seq<EntryV<Pool>>,
    txs: Seq<TransactionData>,
    evs: Seq<PoolEvent>,
    ti: int,
) -> Seq<FeeRecV>
    decreases txs.len() - ti,
{
    if ti < 0 || ti >= txs.len() {
        Seq::<FeeRecV>::empty()
    } else {
        fee_tx_fold(txs[ti], evs, fee_pool_list(pools, txs[ti].logs@, 0, Seq::<Seq<char>>::empty()), 0)
            + fee_records_model(pools, txs, evs, ti + 1)
    }
}

/// A pool with no zero-origin transfers in the transaction yields no
/// fee-mint record.
pub proof fn lemma_fee_no_transfers_no_record(tx: TransactionData, evs: Seq<PoolEvent>, pool: Seq<char>)
    requires
        fee_transfers_of(tx.logs@, pool, 0).len() == 0,
    ensures
        fee_record_of(tx, evs, pool) == Seq::<FeeRecV>::empty(),
{
    let fts = fee_transfers_of(tx.logs@, pool, 0);
    let mints = fee_mint_indices_of(evs, tx.hash@, pool, 0);
    assert(fee_v_indices(fts).len() == 0);
    lemma_claim_fold_on_empty(fee_v_indices(fts), mints, 0);
    assert(detect_fee_mint_spec(fee_v_indices(fts), mints) == -1);
    assert(fee_record_of(tx, evs, pool) =~= Seq::<FeeRecV>::empty());
}

/// Claiming over an empty transfer list changes nothing, and nothing is
/// selectable.
proof fn lemma_claim_fold_on_empty(idxs: Seq<u64>, mints: Seq<u64>, mi: int)
    requires
        idxs.len() == 0,
    ensures
        claim_fold(idxs, Seq::<bool>::new(0, |i: int| false), mints, mi).len() == 0,
        best_unclaimed_index(idxs, claim_fold(idxs, Seq::<bool>::new(0, |i: int| false), mints, mi))
            == -1,
    decreases mints.len() - mi,
{
    let used = Seq::<bool>::new(0, |i: int| false);
    if 0 <= mi < mints.len() {
        assert(best_claim_index(idxs, used, mints[mi]) == -1);
        lemma_claim_fold_on_empty(idxs, mints, mi + 1);
    }
}

/// The pool list holds no duplicates (and keeps the accumulator's).
proof fn lemma_fee_pool_list_distinct(
    pools: Seq<EntryV<Pool>>,
    logs: Seq<LogData>,
    li: int,
    acc: Seq<Seq<char>>,
)
    requires
        forall|i: int, j: int| 0 <= i < j < acc.len() ==> (#[trigger] acc[i]) != (#[trigger] acc[j]),
    ensures
        forall|i: int, j: int|
            0 <= i < j < fee_pool_list(pools, logs, li, acc).len() ==> (#[trigger] fee_pool_list(
                pools,
                logs,
                li,
                acc,
            )[i]) != (#[trigger] fee_pool_list(pools, logs, li, acc)[j]),
    decreases logs.len() - li,
{
    let whole = fee_pool_list(pools, logs, li, acc);
    if li < 0 || li >= logs.len() {
        assert(whole == acc);
        assert forall|i: int, j: int| 0 <= i < j < whole.len() implies (#[trigger] whole[i]) != (
        #[trigger] whole[j]) by {
            assert(acc[i] != acc[j]);
        }
    } else {
        let log = logs[li];
        let acc2 = match log.event {
            LogEvent::Transfer { .. } => if get_last_spec(
                pools,
                kv_entity(Table::Pair, log.address@),
            ) is Some && !acc.contains(log.address@) {
                acc.push(log.address@)
            } else {
                acc
            },
            _ => acc,
        };
        assert forall|i: int, j: int| 0 <= i < j < acc2.len() implies (#[trigger] acc2[i]) != (
        #[trigger] acc2[j]) by {
            if acc2.len() == acc.len() + 1 && j == acc.len() {
                assert(acc2[j] == log.address@);
                assert(!acc.contains(log.address@));
                assert(acc2[i] == acc[i]);
            } else {
                assert(acc2[i] == acc[i] && acc2[j] == acc[j]);
                assert(acc[i] != acc[j]);
            }
        }
        lemma_fee_pool_list_distinct(pools, logs, li + 1, acc2);
        assert(whole == fee_pool_list(pools, logs, li + 1, acc2));
        let rest = fee_pool_list(pools, logs, li + 1, acc2);
        assert forall|i: int, j: int| 0 <= i < j < whole.len() implies (#[trigger] whole[i]) != (
        #[trigger] whole[j]) by {
            assert(rest[i] != rest[j]);
        }
    }
}

/// Every record of one transaction's fold carries that transaction's
/// hash and a pool from the remaining list, and no two records share a
/// pool when the list is duplicate-free.
proof fn lemma_fee_tx_fold_props(
    tx: TransactionData,
    evs: Seq<PoolEvent>,
    plist: Seq<Seq<char>>,
    pi: int,
)
    requires
        forall|i: int, j: int| 0 <= i < j < plist.len() ==> (#[trigger] plist[i]) != (#[trigger] plist[j]),
    ensures
        forall|k: int|
            0 <= k < fee_tx_fold(tx, evs, plist, pi).len() ==> (#[trigger] fee_tx_fold(
                tx,
                evs,
                plist,
                pi,
            )[k]).transaction_id == tx.hash@,
        forall|k: int|
            0 <= k < fee_tx_fold(tx, evs, plist, pi).len() ==> plist.subrange(
                if pi < 0 {
                    0
                } else {
                    pi
                },
                plist.len() as int,
            ).contains((#[trigger] fee_tx_fold(tx, evs, plist, pi)[k]).pool_address),
        forall|k1: int, k2: int|
            0 <= k1 < k2 < fee_tx_fold(tx, evs, plist, pi).len() ==> (#[trigger] fee_tx_fold(
                tx,
                evs,
                plist,
                pi,
            )[k1]).pool_address != (#[trigger] fee_tx_fold(tx, evs, plist, pi)[k2]).pool_address,
    decreases plist.len() - pi,
{
    if pi < 0 || pi >= plist.len() {
    } else {
        lemma_fee_tx_fold_props(tx, evs, plist, pi + 1);
        let head = fee_record_of(tx, evs, plist[pi]);
        let tail = fee_tx_fold(tx, evs, plist, pi + 1);
        let whole = fee_tx_fold(tx, evs, plist, pi);
        assert(head.len() <= 1);
        assert(head.len() == 1 ==> head[0].pool_address == plist[pi] && head[0].transaction_id
            == tx.hash@);
        let lo: int = if pi < 0 {
            0
        } else {
            pi
        };
        let lo2: int = if pi + 1 < 0 {
            0
        } else {
            pi + 1
        };
        assert forall|k: int|
            0 <= k < whole.len() implies plist.subrange(lo, plist.len() as int).contains(
            (#[trigger] whole[k]).pool_address) by {
            if k < head.len() {
                assert(whole[k] == head[0]);
                assert(plist.subrange(lo, plist.len() as int)[0] == plist[pi]);
            } else {
                assert(whole[k] == tail[k - head.len()]);
                let m = choose|m: int|
                    0 <= m < plist.subrange(lo2, plist.len() as int).len() && plist.subrange(
                        lo2,
                        plist.len() as int,
                    )[m] == tail[k - head.len()].pool_address;
                assert(plist.subrange(lo, plist.len() as int)[m + 1] == plist.subrange(
                    lo2,
                    plist.len() as int,
                )[m]);
            }
        }
        assert forall|k1: int, k2: int|
            0 <= k1 < k2 < whole.len() implies (#[trigger] whole[k1]).pool_address != (
        #[trigger] whole[k2]).pool_address by {
            if k1 < head.len() {
                assert(whole[k1] == head[0]);
                assert(whole[k2] == tail[k2 - head.len()]);
                let m = choose|m: int|
                    0 <= m < plist.subrange(lo2, plist.len() as int).len() && plist.subrange(
                        lo2,
                        plist.len() as int,
                    )[m] == tail[k2 - head.len()].pool_address;
                assert(plist.subrange(lo2, plist.len() as int)[m] == plist[pi + 1 + m]);
                assert(plist[pi] != plist[pi + 1 + m]);
            } else {
                assert(whole[k1] == tail[k1 - head.len()]);
                assert(whole[k2] == tail[k2 - head.len()]);
            }
        }
    }
}

/// At most one fee mint per (transaction, pool): when the block's
/// transaction hashes are pairwise distinct, no two records of
/// [`fee_records_model`] agree on both the transaction id and the pool
/// address.
pub proof fn lemma_fee_records_unique(
    pools: Seq<EntryV<Pool>>,
    txs: Seq<TransactionData>,
    evs: Seq<PoolEvent>,
    ti: int,
)
    requires
        forall|i: int, j: int|
            0 <= i < j < txs.len() ==> (#[trigger] txs[i]).hash@ != (#[trigger] txs[j]).hash@,
    ensures
        forall|k: int|
            0 <= k < fee_records_model(pools, txs, evs, ti).len() ==> exists|t2: int|
                (if ti < 0 {
                    0
                } else {
                    ti
                }) <= t2 < txs.len() && (#[trigger] fee_records_model(
                    pools,
                    txs,
                    evs,
                    ti,
                )[k]).transaction_id == txs[t2].hash@,
        forall|k1: int, k2: int|
            0 <= k1 < k2 < fee_records_model(pools, txs, evs, ti).len() ==> !((#[trigger] fee_records_model(
                pools,
                txs,
                evs,
                ti,
            )[k1]).transaction_id == (#[trigger] fee_records_model(
                pools,
                txs,
                evs,
                ti,
            )[k2]).transaction_id && fee_records_model(pools, txs, evs, ti)[k1].pool_address
                == fee_records_model(pools, txs, evs, ti)[k2].pool_address),
    decreases txs.len() - ti,
{
    if ti < 0 || ti >= txs.len() {
    } else {
        lemma_fee_records_unique(pools, txs, evs, ti + 1);
        let plist = fee_pool_list(pools, txs[ti].logs@, 0, Seq::<Seq<char>>::empty());
        lemma_fee_pool_list_distinct(pools, txs[ti].logs@, 0, Seq::<Seq<char>>::empty());
        lemma_fee_tx_fold_props(txs[ti], evs, plist, 0);
        let head = fee_tx_fold(txs[ti], evs, plist, 0);
        let tail = fee_records_model(pools, txs, evs, ti + 1);
        let whole = fee_records_model(pools, txs, evs, ti);
        let lo2: int = if ti + 1 < 0 {
            0
        } else {
            ti + 1
        };
        assert forall|k: int|
            0 <= k < whole.len() implies exists|t2: int|
            ti <= t2 < txs.len() && (#[trigger] whole[k]).transaction_id == txs[t2].hash@ by {
            if k < head.len() {
                assert(whole[k] == head[k]);
                assert(whole[k].transaction_id == txs[ti].hash@);
            } else {
                assert(whole[k] == tail[k - head.len()]);
                let t2 = choose|t2: int|
                    lo2 <= t2 < txs.len() && (#[trigger] tail[k - head.len()]).transaction_id
                        == txs[t2].hash@;
                assert(ti <= t2 < txs.len() && whole[k].transaction_id == txs[t2].hash@);
            }
        }
        assert forall|k1: int, k2: int|
            0 <= k1 < k2 < whole.len() implies !((#[trigger] whole[k1]).transaction_id == (
        #[trigger] whole[k2]).transaction_id && whole[k1].pool_address
            == whole[k2].pool_address) by {
            if k2 < head.len() {
                assert(whole[k1] == head[k1] && whole[k2] == head[k2]);
            } else if k1 >= head.len() {
                assert(whole[k1] == tail[k1 - head.len()] && whole[k2] == tail[k2 - head.len()]);
            } else {
                assert(whole[k1] == head[k1]);
                assert(whole[k2] == tail[k2 - head.len()]);
                assert(whole[k1].transaction_id == txs[ti].hash@);
                let t2 = choose|t2: int|
                    lo2 <= t2 < txs.len() && (#[trigger] tail[k2 - head.len()]).transaction_id
                        == txs[t2].hash@;
                assert(txs[ti].hash@ != txs[t2].hash@);
            }
        }
    }
}

/// The protocol-fee mints of one block: per transaction, each registered
/// pool with zero-origin LP transfers is matched greedily against the
/// pool's Mint events (in their order of appearance); the latest
/// unclaimed transfer, scaled by the standard eighteen LP decimals, is
/// the fee mint of that (transaction, pool) pair. Transfers enter in log
/// order, so the matching sees them ordered by log index.
#[verifier::loop_isolation(false)]
#[verifier::rlimit(100)]
#[verifier::spinoff_prover]
pub fn collect_fee_mints(
    block: &BlockData,
    pools_store: &Store<Pool>,
    events: &Events,
) -> (r: Vec<FeeMintRecord>)
    ensures
        r@.map_values(|x: FeeMintRecord| x@) == fee_records_model(
            pools_store@,
            block.transactions@,
            events.pool_events@,
            0,
        ),
        forall|j: int| 0 <= j < r@.len() ==> (#[trigger] r@[j]).fee_liquidity.wf(),
{
    let ghost pv = pools_store@;
    let ghost txs = block.transactions@;
    let ghost evs = events.pool_events@;
    let mut records: Vec<FeeMintRecord> = Vec::new();
    let zero = normalize_address(crate::constants::ZERO_ADDRESS);
    let tn = block.transactions.len();
    let mut t: usize = 0;
    proof {
        assert(records@.map_values(|x: FeeMintRecord| x@) =~= Seq::<FeeRecV>::empty());
    }
    while t < tn
        invariant
            0 <= t <= tn,
            records@.map_values(|x: FeeMintRecord| x@) + fee_records_model(pv, txs, evs, t as int)
                == fee_records_model(pv, txs, evs, 0),
            forall|j: int| 0 <= j < records@.len() ==> (#[trigger] records@[j]).fee_liquidity.wf(),
        decreases tn - t,
    {
        let ghost recs_before_tx = records@.map_values(|x: FeeMintRecord| x@);
        let tx = &block.transactions[t];
        // the pools with transfer logs in this transaction
        let mut pool_list: Vec<String> = Vec::new();
        let ln = tx.logs.len();
        let mut l: usize = 0;
        proof {
            assert(pool_list@.map_values(|x: String| x@) =~= Seq::<Seq<char>>::empty());
        }
        while l < ln
            invariant
                0 <= l <= ln,
                fee_pool_list(pv, tx.logs@, l as int, pool_list@.map_values(|x: String| x@))
                    == fee_pool_list(pv, tx.logs@, 0, Seq::<Seq<char>>::empty()),
            decreases ln - l,
        {
            let ghost plv = pool_list@.map_values(|x: String| x@);
            let log = &tx.logs[l];
            match &log.event {
                LogEvent::Transfer { .. } => {
                    let pool_key = Key::entity(Table::Pair, log.address.clone());
                    if pools_store.get_last(&pool_key).is_some() {
                        if !contains_str(&pool_list, log.address.as_str()) {
                            proof {
                                assert(!plv.contains(log.address@)) by {
                                    if plv.contains(log.address@) {
                                        let j = choose|j: int|
                                            0 <= j < plv.len() && plv[j] == log.address@;
                                        assert(pool_list@[j]@ == log.address@);
                                    }
                                }
                            }
                            pool_list.push(log.address.clone());
                            proof {
                                assert(pool_list@.map_values(|x: String| x@) =~= plv.push(
                                    log.address@,
                                ));
                            }
                        } else {
                            proof {
                                let j = choose|j: int|
                                    0 <= j < pool_list@.len() && (#[trigger] pool_list@[j])@
                                        == log.address@;
                                assert(plv[j] == log.address@);
                                assert(plv.contains(log.address@));
                            }
                        }
                    }
                },
                _ => {},
            }
            l = l + 1;
        }
        let ghost plist = pool_list@.map_values(|x: String| x@);
        proof {
            assert(fee_pool_list(pv, tx.logs@, ln as int, plist) == plist);
            assert(plist == fee_pool_list(pv, tx.logs@, 0, Seq::<Seq<char>>::empty()));
        }
        // per pool: match the transfers against the mint events
        let pn = pool_list.len();
        let mut p: usize = 0;
        while p < pn
            invariant
                0 <= p <= pn,
                records@.map_values(|x: FeeMintRecord| x@) + fee_tx_fold(
                    txs[t as int],
                    evs,
                    plist,
                    p as int,
                ) + fee_records_model(pv, txs, evs, t + 1) == fee_records_model(pv, txs, evs, 0),
                forall|j: int|
                    0 <= j < records@.len() ==> (#[trigger] records@[j]).fee_liquidity.wf(),
            decreases pn - p,
        {
            let ghost recs0 = records@.map_values(|x: FeeMintRecord| x@);
            let pool_address = &pool_list[p];
            proof {
                assert(pool_address@ == plist[p as int]);
            }
            let mut transfers: Vec<FeeTransfer> = Vec::new();
            let mut l2: usize = 0;
            proof {
                assert(transfers@.map_values(|x: FeeTransfer| x@) =~= Seq::<
                    FeeTransferV,
                >::empty());
            }
            while l2 < ln
                invariant
                    0 <= l2 <= ln,
                    transfers@.map_values(|x: FeeTransfer| x@) + fee_transfers_of(
                        tx.logs@,
                        plist[p as int],
                        l2 as int,
                    ) == fee_transfers_of(tx.logs@, plist[p as int], 0),
                decreases ln - l2,
            {
                let ghost fv0 = transfers@.map_values(|x: FeeTransfer| x@);
                let log = &tx.logs[l2];
                match &log.event {
                    LogEvent::Transfer { from, to, value } => {
                        if crate::text::str_eq(log.address.as_str(), pool_address.as_str()) {
                            let nf = normalize_address(from.as_str());
                            let nt = normalize_address(to.as_str());
                            if nf == zero && !(nt == zero) {
                                transfers.push(
                                    FeeTransfer {
                                        log_index: log.block_index,
                                        to: to.clone(),
                                        value: *value,
                                    },
                                );
                                proof {
                                    assert(transfers@.map_values(|x: FeeTransfer| x@) =~= fv0.push(
                                        FeeTransferV {
                                            log_index: tx.logs@[l2 as int].block_index,
                                            to: to@,
                                            value: *value,
                                        },
                                    ));
                                }
                            }
                        }
                    },
                    _ => {},
                }
                proof {
                    assert(transfers@.map_values(|x: FeeTransfer| x@) + fee_transfers_of(
                        tx.logs@,
                        plist[p as int],
                        l2 + 1,
                    ) =~= fv0 + fee_transfers_of(tx.logs@, plist[p as int], l2 as int));
                }
                l2 = l2 + 1;
            }
            let ghost fts = fee_transfers_of(tx.logs@, plist[p as int], 0);
            proof {
                assert(fee_transfers_of(tx.logs@, plist[p as int], ln as int) =~= Seq::<
                    FeeTransferV,
                >::empty());
                assert(transfers@.map_values(|x: FeeTransfer| x@) =~= fts);
            }
            let mut mint_logs: Vec<u64> = Vec::new();
            let en = events.pool_events.len();
            let mut e: usize = 0;
            proof {
                assert(mint_logs@ =~= Seq::<u64>::empty());
            }
            while e < en
                invariant
                    0 <= e <= en,
                    mint_logs@ + fee_mint_indices_of(evs, tx.hash@, plist[p as int], e as int)
                        == fee_mint_indices_of(evs, tx.hash@, plist[p as int], 0),
                decreases en - e,
            {
                let ghost ml0 = mint_logs@;
                let ev = &events.pool_events[e];
                let is_mint = match &ev.kind {
                    PoolEventType::Mint { .. } => true,
                    _ => false,
                };
                if is_mint && crate::text::str_eq(
                    ev.transaction_id.as_str(),
                    tx.hash.as_str(),
                ) && crate::text::str_eq(ev.pool_address.as_str(), pool_address.as_str()) {
                    mint_logs.push(ev.log_index);
                }
                proof {
                    assert(mint_logs@ + fee_mint_indices_of(
                        evs,
                        tx.hash@,
                        plist[p as int],
                        e + 1,
                    ) =~= ml0 + fee_mint_indices_of(evs, tx.hash@, plist[p as int], e as int));
                }
                e = e + 1;
            }
            proof {
                assert(fee_mint_indices_of(evs, tx.hash@, plist[p as int], en as int) =~= Seq::<
                    u64,
                >::empty());
                assert(mint_logs@ =~= fee_mint_indices_of(evs, tx.hash@, plist[p as int], 0));
                assert(fee_v_indices(fts) =~= fee_log_indices(transfers@));
            }
            match detect_fee_mint(&transfers, &mint_logs) {
                None => {
                    proof {
                        assert(fee_record_of(txs[t as int], evs, plist[p as int]) =~= Seq::<
                            FeeRecV,
                        >::empty());
                    }
                },
                Some(idx) => {
                    match Dec::from_raw(transfers[idx].value, 18) {
                        None => {
                            proof {
                                assert(fts[idx as int].value == transfers@[idx as int].value);
                                assert(fee_record_of(txs[t as int], evs, plist[p as int]) =~= Seq::<
                                    FeeRecV,
                                >::empty());
                            }
                        },
                        Some(fee_liquidity) => {
                            proof {
                                crate::dec::lemma_from_raw_wf(
                                    transfers@[idx as int].value as int,
                                    18,
                                );
                            }
                            records.push(
                                FeeMintRecord {
                                    transaction_id: tx.hash.clone(),
                                    pool_address: pool_address.clone(),
                                    fee_to: normalize_address(transfers[idx].to.as_str()),
                                    fee_liquidity,
                                },
                            );
                            proof {
                                assert(fts[idx as int] == transfers@[idx as int]@);
                                assert(records@.map_values(|x: FeeMintRecord| x@) =~= recs0.push(
                                    FeeRecV {
                                        transaction_id: txs[t as int].hash@,
                                        pool_address: plist[p as int],
                                        fee_to: normalized(fts[idx as int].to),
                                        fee_liquidity,
                                    },
                                ));
                                assert(fee_record_of(txs[t as int], evs, plist[p as int]) =~= seq![
                                    FeeRecV {
                                        transaction_id: txs[t as int].hash@,
                                        pool_address: plist[p as int],
                                        fee_to: normalized(fts[idx as int].to),
                                        fee_liquidity,
                                    },
                                ]);
                            }
                        },
                    }
                },
            }
            proof {
                assert(fee_tx_fold(txs[t as int], evs, plist, p as int) == fee_record_of(
                    txs[t as int],
                    evs,
                    plist[p as int],
                ) + fee_tx_fold(txs[t as int], evs, plist, p + 1));
                assert(records@.map_values(|x: FeeMintRecord| x@) + fee_tx_fold(
                    txs[t as int],
                    evs,
                    plist,
                    p + 1,
                ) =~= recs0 + fee_tx_fold(txs[t as int], evs, plist, p as int));
                assert(records@.map_values(|x: FeeMintRecord| x@) + fee_tx_fold(
                    txs[t as int],
                    evs,
                    plist,
                    p + 1,
                ) + fee_records_model(pv, txs, evs, t + 1) =~= recs0 + fee_tx_fold(
                    txs[t as int],
                    evs,
                    plist,
                    p as int,
                ) + fee_records_model(pv, txs, evs, t + 1));
            }
            p = p + 1;
        }
        proof {
            assert(fee_tx_fold(txs[t as int], evs, plist, pn as int) =~= Seq::<FeeRecV>::empty());
            assert(records@.map_values(|x: FeeMintRecord| x@) + fee_records_model(
                pv,
                txs,
                evs,
                t + 1,
            ) =~= records@.map_values(|x: FeeMintRecord| x@) + fee_tx_fold(
                txs[t as int],
                evs,
                plist,
                pn as int,
            ) + fee_records_model(pv, txs, evs, t + 1));
        }
        t = t + 1;
    }
    proof {
        assert(fee_records_model(pv, txs, evs, tn as int) =~= Seq::<FeeRecV>::empty());
        assert(records@.map_values(|x: FeeMintRecord| x@) =~= records@.map_values(
            |x: FeeMintRecord| x@,
        ) + fee_records_model(pv, txs, evs, tn as int));
    }
    records
}

/// The pools registered by one transaction's logs, from position `li`:
/// one per PairCreated log whose token metadata was resolved, in log
/// order, carrying the log's pair address, ordinal and transaction hash.
pub open spec fn created_pools_of_logs(
    tx: TransactionData,
    li: int,
    number: u64,
    ts: u64,
) -> Seq<crate::pb::PoolV>
    decreases tx.logs@.len() - li,
{
    if li < 0 || li >= tx.logs@.len() {
        Seq::<crate::pb::PoolV>::empty()
    } else {
        let rest = created_pools_of_logs(tx, li + 1, number, ts);
        let log = tx.logs@[li];
        match log.event {
            LogEvent::PairCreated { ref token0, ref token1, ref pair } => match (token0, token1) {
                (Some(t0), Some(t1)) => seq![
                    crate::pb::PoolV {
                        address: pair@,
                        transaction_id: tx.hash@,
                        created_at_block_number: number,
                        created_at_timestamp: ts,
                        fee_tier: 3000,
                        log_ordinal: log.ordinal,
                        ignore_pool: false,
                        token0: Some(t0@),
                        token1: Some(t1@),
                    },
                ] + rest,
                _ => rest,
            },
            _ => rest,
        }
    }
}

/// The pools registered by the whole block, from transaction `ti`.
pub open spec fn created_pools_of_block(
    txs: Seq<TransactionData>,
    ti: int,
    number: u64,
    ts: u64,
) -> Seq<crate::pb::PoolV>
    decreases txs.len() - ti,
{
    if ti < 0 || ti >= txs.len() {
        Seq::<crate::pb::PoolV>::empty()
    } else {
        created_pools_of_logs(txs[ti], 0, number, ts) + created_pools_of_block(
            txs,
            ti + 1,
            number,
            ts,
        )
    }
}

/// Builds the block's pool registrations: one pool per PairCreated log
/// whose token metadata was resolved, in log order; a pair with
/// unresolved metadata is skipped.
#[verifier::loop_isolation(false)]
pub fn map_pools_created(block: &BlockData) -> (r: Pools)
    ensures
        r.pools@.map_values(|p: Pool| p@) == created_pools_of_block(
            block.transactions@,
            0,
            block.number,
            block.timestamp_seconds,
        ),
        forall|j: int|
            0 <= j < r.pools@.len() ==> {
                &&& (#[trigger] r.pools@[j]).has_tokens()
                &&& !r.pools@[j].ignore_pool
                &&& r.pools@[j].fee_tier == 3000
                &&& r.pools@[j].created_at_block_number == block.number
                &&& r.pools@[j].created_at_timestamp == block.timestamp_seconds
            },
{
    let ghost txs = block.transactions@;
    let ghost number = block.number;
    let ghost ts = block.timestamp_seconds;
    let mut pools: Vec<Pool> = Vec::new();
    let tn = block.transactions.len();
    let mut t: usize = 0;
    proof {
        assert(pools@.map_values(|p: Pool| p@) =~= Seq::<crate::pb::PoolV>::empty());
    }
    while t < tn
        invariant
            0 <= t <= tn,
            pools@.map_values(|p: Pool| p@) + created_pools_of_block(txs, t as int, number, ts)
                == created_pools_of_block(txs, 0, number, ts),
            forall|j: int|
                0 <= j < pools@.len() ==> {
                    &&& (#[trigger] pools@[j]).has_tokens()
                    &&& !pools@[j].ignore_pool
                    &&& pools@[j].fee_tier == 3000
                    &&& pools@[j].created_at_block_number == block.number
                    &&& pools@[j].created_at_timestamp == block.timestamp_seconds
                },
        decreases tn - t,
    {
        let tx = &block.transactions[t];
        let ln = tx.logs.len();
        let mut l: usize = 0;
        while l < ln
            invariant
                0 <= l <= ln,
                pools@.map_values(|p: Pool| p@) + created_pools_of_logs(
                    txs[t as int],
                    l as int,
                    number,
                    ts,
                ) + created_pools_of_block(txs, t + 1, number, ts) == created_pools_of_block(
                    txs,
                    0,
                    number,
                    ts,
                ),
                forall|j: int|
                    0 <= j < pools@.len() ==> {
                        &&& (#[trigger] pools@[j]).has_tokens()
                        &&& !pools@[j].ignore_pool
                        &&& pools@[j].fee_tier == 3000
                        &&& pools@[j].created_at_block_number == block.number
                        &&& pools@[j].created_at_timestamp == block.timestamp_seconds
                    },
            decreases ln - l,
        {
            let ghost pv0 = pools@.map_values(|p: Pool| p@);
            let log = &tx.logs[l];
            match &log.event {
                LogEvent::PairCreated { token0, token1, pair } => {
                    match (token0, token1) {
                        (Some(t0), Some(t1)) => {
                            pools.push(
                                Pool {
                                    address: pair.clone(),
                                    transaction_id: tx.hash.clone(),
                                    created_at_block_number: block.number,
                                    created_at_timestamp: block.timestamp_seconds,
                                    fee_tier: 3000,
                                    log_ordinal: log.ordinal,
                                    ignore_pool: false,
                                    token0: Some(t0.clone()),
                                    token1: Some(t1.clone()),
                                },
                            );
                            proof {
                                assert(pools@.map_values(|p: Pool| p@) =~= pv0.push(
                                    crate::pb::PoolV {
                                        address: pair@,
                                        transaction_id: txs[t as int].hash@,
                                        created_at_block_number: number,
                                        created_at_timestamp: ts,
                                        fee_tier: 3000,
                                        log_ordinal: tx.logs@[l as int].ordinal,
                                        ignore_pool: false,
                                        token0: Some(t0@),
                                        token1: Some(t1@),
                                    },
                                ));
                            }
                        },
                        _ => {},
                    }
                },
                _ => {},
            }
            proof {
                assert(pools@.map_values(|p: Pool| p@) + created_pools_of_logs(
                    txs[t as int],
                    l + 1,
                    number,
                    ts,
                ) =~= pv0 + created_pools_of_logs(txs[t as int], l as int, number, ts));
                assert(pools@.map_values(|p: Pool| p@) + created_pools_of_logs(
                    txs[t as int],
                    l + 1,
                    number,
                    ts,
                ) + created_pools_of_block(txs, t + 1, number, ts) =~= pv0 + created_pools_of_logs(
                    txs[t as int],
                    l as int,
                    number,
                    ts,
                ) + created_pools_of_block(txs, t + 1, number, ts));
            }
            l = l + 1;
        }
        proof {
            assert(created_pools_of_logs(txs[t as int], ln as int, number, ts) =~= Seq::<
                crate::pb::PoolV,
            >::empty());
            assert(pools@.map_values(|p: Pool| p@) + created_pools_of_block(txs, t + 1, number, ts)
                =~= pools@.map_values(|p: Pool| p@) + created_pools_of_logs(
                txs[t as int],
                ln as int,
                number,
                ts,
            ) + created_pools_of_block(txs, t + 1, number, ts));
        }
        t = t + 1;
    }
    proof {
        assert(created_pools_of_block(txs, tn as int, number, ts) =~= Seq::<
            crate::pb::PoolV,
        >::empty());
        assert(pools@.map_values(|p: Pool| p@) =~= pools@.map_values(|p: Pool| p@)
            + created_pools_of_block(txs, tn as int, number, ts));
    }
    Pools { pools }
}

/// Extracts the block's events: a first pass records each known pool's LP
/// transfers per transaction, a second pass builds the amount-annotated
/// pool events, reserve snapshots and transaction records. The per-event
/// semantics are those of [`crate::filtering::extract_pool_events`],
/// [`crate::filtering::extract_pool_sqrt_prices`] and
/// [`crate::filtering::extract_transactions`].
/// A pool event with its correlation-derived parts cleared: the owner
/// and LP amount a Mint claims from the transfer context, and the LP
/// amount a Burn claims. Everything else — envelope, parties, scaled
/// amounts — is kept.
pub open spec fn event_skeleton(e: crate::pb::PoolEventV) -> crate::pb::PoolEventV {
    crate::pb::PoolEventV {
        kind: match e.kind {
            crate::pb::PoolEventTypeV::Swap { .. } => e.kind,
            crate::pb::PoolEventTypeV::Mint { owner, sender, origin, amount, amount_0, amount_1 } =>
                crate::pb::PoolEventTypeV::Mint {
                owner: Seq::<char>::empty(),
                sender,
                origin,
                amount: 0,
                amount_0,
                amount_1,
            },
            crate::pb::PoolEventTypeV::Burn { owner, origin, amount, amount_0, amount_1 } =>
                crate::pb::PoolEventTypeV::Burn {
                owner,
                origin,
                amount: 0,
                amount_0,
                amount_1,
            },
        },
        ..e
    }
}

/// The event skeletons of one transaction's logs, from position `li`: one
/// per Swap, Mint or Burn log of a known pool whose scaled amounts are
/// representable, in log order.
pub open spec fn event_skeletons_of_logs(
    pools: Seq<EntryV<Pool>>,
    tx: TransactionData,
    li: int,
    ts: u64,
    bn: u64,
) -> Seq<crate::pb::PoolEventV>
    decreases tx.logs@.len() - li,
{
    if li < 0 || li >= tx.logs@.len() {
        Seq::<crate::pb::PoolEventV>::empty()
    } else {
        let rest = event_skeletons_of_logs(pools, tx, li + 1, ts, bn);
        let log = tx.logs@[li];
        if !known_pool(pools, log.address@) {
            rest
        } else {
            let pool = get_last_spec(pools, kv_entity(Table::Pair, log.address@)).unwrap();
            let t0 = pool@.token0.unwrap();
            let t1 = pool@.token1.unwrap();
            let kind_opt: Option<crate::pb::PoolEventTypeV> = match log.event {
                LogEvent::Swap {
                    ref sender,
                    ref to,
                    amount0_in,
                    amount0_out,
                    amount1_in,
                    amount1_out,
                } => {
                    match crate::filtering::swap_net_spec(amount0_out, amount0_in, t0.decimals) {
                        None => None,
                        Some(n0) => match crate::filtering::swap_net_spec(
                            amount1_out,
                            amount1_in,
                            t1.decimals,
                        ) {
                            None => None,
                            Some(n1) => Some(
                                crate::pb::PoolEventTypeV::Swap {
                                    sender: sender@,
                                    recipient: to@,
                                    origin: tx.from@,
                                    amount_0: n0,
                                    amount_1: n1,
                                },
                            ),
                        },
                    }
                },
                LogEvent::Mint { ref sender, amount0, amount1 } => {
                    match Dec::spec_from_raw_u(amount0, t0.decimals as nat) {
                        None => None,
                        Some(a0) => match Dec::spec_from_raw_u(amount1, t1.decimals as nat) {
                            None => None,
                            Some(a1) => Some(
                                crate::pb::PoolEventTypeV::Mint {
                                    owner: Seq::<char>::empty(),
                                    sender: sender@,
                                    origin: tx.from@,
                                    amount: 0,
                                    amount_0: a0,
                                    amount_1: a1,
                                },
                            ),
                        },
                    }
                },
                LogEvent::Burn { ref sender, amount0, amount1 } => {
                    match Dec::spec_from_raw_u(amount0, t0.decimals as nat) {
                        None => None,
                        Some(a0) => match Dec::spec_from_raw_u(amount1, t1.decimals as nat) {
                            None => None,
                            Some(a1) => Some(
                                crate::pb::PoolEventTypeV::Burn {
                                    owner: sender@,
                                    origin: tx.from@,
                                    amount: 0,
                                    amount_0: a0,
                                    amount_1: a1,
                                },
                            ),
                        },
                    }
                },
                _ => None,
            };
            match kind_opt {
                None => rest,
                Some(kind) => seq![
                    crate::pb::PoolEventV {
                        log_ordinal: log.ordinal,
                        log_index: log.block_index,
                        pool_address: pool.address@,
                        token0: t0.address,
                        token1: t1.address,
                        fee: pool.fee_tier,
                        transaction_id: tx.hash@,
                        timestamp: ts,
                        created_at_block_number: bn,
                        kind,
                    },
                ] + rest,
            }
        }
    }
}

/// The event skeletons of the whole block, from transaction `ti`.
pub open spec fn event_skeletons_of_block(
    pools: Seq<EntryV<Pool>>,
    txs: Seq<TransactionData>,
    ti: int,
    ts: u64,
    bn: u64,
) -> Seq<crate::pb::PoolEventV>
    decreases txs.len() - ti,
{
    if ti < 0 || ti >= txs.len() {
        Seq::<crate::pb::PoolEventV>::empty()
    } else {
        event_skeletons_of_logs(pools, txs[ti], 0, ts, bn) + event_skeletons_of_block(
            pools,
            txs,
            ti + 1,
            ts,
            bn,
        )
    }
}

/// Whether the address is a registered pool with both token legs.
pub open spec fn known_pool(pools: Seq<EntryV<Pool>>, addr: Seq<char>) -> bool {
    match get_last_spec(pools, kv_entity(Table::Pair, addr)) {
        Some(p) => p.token0 is Some && p.token1 is Some,
        None => false,
    }
}

/// The reserve snapshots of one transaction's logs, from position `li`:
/// one per Sync log of a known pool, in log order.
pub open spec fn snapshots_of_logs(
    pools: Seq<EntryV<Pool>>,
    logs: Seq<LogData>,
    li: int,
) -> Seq<crate::pb::PoolSqrtPriceV>
    decreases logs.len() - li,
{
    if li < 0 || li >= logs.len() {
        Seq::<crate::pb::PoolSqrtPriceV>::empty()
    } else {
        let rest = snapshots_of_logs(pools, logs, li + 1);
        let log = logs[li];
        if known_pool(pools, log.address@) {
            match log.event {
                LogEvent::Sync { reserve0, reserve1 } => seq![
                    crate::pb::PoolSqrtPriceV {
                        pool_address: log.address@,
                        ordinal: log.ordinal,
                        sqrt_price: reserve0,
                        tick: reserve1,
                        initialized: false,
                    },
                ] + rest,
                _ => rest,
            }
        } else {
            rest
        }
    }
}

/// The reserve snapshots of the whole block, from transaction `ti`.
pub open spec fn snapshots_of_block(
    pools: Seq<EntryV<Pool>>,
    txs: Seq<TransactionData>,
    ti: int,
) -> Seq<crate::pb::PoolSqrtPriceV>
    decreases txs.len() - ti,
{
    if ti < 0 || ti >= txs.len() {
        Seq::<crate::pb::PoolSqrtPriceV>::empty()
    } else {
        snapshots_of_logs(pools, txs[ti].logs@, 0) + snapshots_of_block(pools, txs, ti + 1)
    }
}

/// The transaction records of one transaction's logs, from position `li`:
/// one per Swap, Mint or Burn log of a known pool.
pub open spec fn tx_records_of_logs(
    pools: Seq<EntryV<Pool>>,
    logs: Seq<LogData>,
    li: int,
    hash: Seq<char>,
    ts: u64,
    bn: u64,
) -> Seq<crate::pb::TransactionV>
    decreases logs.len() - li,
{
    if li < 0 || li >= logs.len() {
        Seq::<crate::pb::TransactionV>::empty()
    } else {
        let rest = tx_records_of_logs(pools, logs, li + 1, hash, ts, bn);
        let log = logs[li];
        if known_pool(pools, log.address@) {
            match log.event {
                LogEvent::Swap { .. } | LogEvent::Mint { .. } | LogEvent::Burn { .. } => seq![
                    crate::pb::TransactionV {
                        id: hash,
                        block_number: bn,
                        timestamp: ts,
                        log_ordinal: log.ordinal,
                    },
                ] + rest,
                _ => rest,
            }
        } else {
            rest
        }
    }
}

/// The transaction records of the whole block, from transaction `ti`.
pub open spec fn tx_records_of_block(
    pools: Seq<EntryV<Pool>>,
    txs: Seq<TransactionData>,
    ti: int,
    ts: u64,
    bn: u64,
) -> Seq<crate::pb::TransactionV>
    decreases txs.len() - ti,
{
    if ti < 0 || ti >= txs.len() {
        Seq::<crate::pb::TransactionV>::empty()
    } else {
        tx_records_of_logs(pools, txs[ti].logs@, 0, txs[ti].hash@, ts, bn)
            + tx_records_of_block(pools, txs, ti + 1, ts, bn)
    }
}

#[verifier::loop_isolation(false)]
#[verifier::rlimit(100)]
#[verifier::spinoff_prover]
pub fn map_extract_data_types(block: &BlockData, pools_store: &Store<Pool>) -> (r: Events)
    ensures
        r.pool_liquidities@.len() == 0,
        r.pool_sqrt_prices@.map_values(|x: PoolSqrtPrice| x@) == snapshots_of_block(
            pools_store@,
            block.transactions@,
            0,
        ),
        r.transactions@.map_values(|x: crate::pb::Transaction| x@) == tx_records_of_block(
            pools_store@,
            block.transactions@,
            0,
            block.timestamp_seconds,
            block.number,
        ),
        r.pool_events@.map_values(|x: PoolEvent| event_skeleton(x@)) == event_skeletons_of_block(
            pools_store@,
            block.transactions@,
            0,
            block.timestamp_seconds,
            block.number,
        ),
{
    let mut events = Events::new_empty();
    let timestamp = block.timestamp_seconds;
    let ghost pv = pools_store@;
    let ghost txs = block.transactions@;
    let tn = block.transactions.len();
    let mut t: usize = 0;
    proof {
        assert(events.pool_sqrt_prices@.map_values(|x: PoolSqrtPrice| x@) =~= Seq::<
            crate::pb::PoolSqrtPriceV,
        >::empty());
        assert(events.transactions@.map_values(|x: crate::pb::Transaction| x@) =~= Seq::<
            crate::pb::TransactionV,
        >::empty());
        assert(events.pool_events@.map_values(|x: PoolEvent| event_skeleton(x@)) =~= Seq::<
            crate::pb::PoolEventV,
        >::empty());
    }
    while t < tn
        invariant
            0 <= t <= tn,
            events.pool_liquidities@.len() == 0,
            events.pool_sqrt_prices@.map_values(|x: PoolSqrtPrice| x@) + snapshots_of_block(
                pv,
                txs,
                t as int,
            ) == snapshots_of_block(pv, txs, 0),
            events.transactions@.map_values(|x: crate::pb::Transaction| x@) + tx_records_of_block(
                pv,
                txs,
                t as int,
                timestamp,
                block.number,
            ) == tx_records_of_block(pv, txs, 0, timestamp, block.number),
            events.pool_events@.map_values(|x: PoolEvent| event_skeleton(x@))
                + event_skeletons_of_block(pv, txs, t as int, timestamp, block.number)
                == event_skeletons_of_block(pv, txs, 0, timestamp, block.number),
        decreases tn - t,
    {
        let tx = &block.transactions[t];
        let mut transfer_ctx = crate::filtering::TransferContext::new_context();
        let ln = tx.logs.len();
        let mut l: usize = 0;
        while l < ln
            invariant
                0 <= l <= ln,
            decreases ln - l,
        {
            let log = &tx.logs[l];
            let pool_key = Key::entity(Table::Pair, log.address.clone());
            if pools_store.get_last(&pool_key).is_some() {
                match &log.event {
                    LogEvent::Transfer { from, to, value } => {
                        transfer_ctx.record_transfer(
                            log.address.as_str(),
                            log.block_index,
                            from.as_str(),
                            to.as_str(),
                            *value,
                        );
                    },
                    _ => {},
                }
            }
            l = l + 1;
        }
        let mut l2: usize = 0;
        while l2 < ln
            invariant
                0 <= l2 <= ln,
                events.pool_liquidities@.len() == 0,
                events.pool_sqrt_prices@.map_values(|x: PoolSqrtPrice| x@) + snapshots_of_logs(
                    pv,
                    tx.logs@,
                    l2 as int,
                ) + snapshots_of_block(pv, txs, t + 1) == snapshots_of_block(pv, txs, 0),
                events.transactions@.map_values(|x: crate::pb::Transaction| x@)
                    + tx_records_of_logs(pv, tx.logs@, l2 as int, tx.hash@, timestamp, block.number)
                    + tx_records_of_block(pv, txs, t + 1, timestamp, block.number)
                    == tx_records_of_block(pv, txs, 0, timestamp, block.number),
                events.pool_events@.map_values(|x: PoolEvent| event_skeleton(x@))
                    + event_skeletons_of_logs(pv, txs[t as int], l2 as int, timestamp, block.number)
                    + event_skeletons_of_block(pv, txs, t + 1, timestamp, block.number)
                    == event_skeletons_of_block(pv, txs, 0, timestamp, block.number),
            decreases ln - l2,
        {
            let ghost sq0 = events.pool_sqrt_prices@.map_values(|x: PoolSqrtPrice| x@);
            let ghost tr0 = events.transactions@.map_values(|x: crate::pb::Transaction| x@);
            let ghost ev0 = events.pool_events@.map_values(|x: PoolEvent| event_skeleton(x@));
            let log = &tx.logs[l2];
            let pool_key = Key::entity(Table::Pair, log.address.clone());
            match pools_store.get_last(&pool_key) {
                None => {},
                Some(pool) => {
                    if pool.token0.is_some() && pool.token1.is_some() {
                        crate::filtering::extract_pool_sqrt_prices(
                            &mut events.pool_sqrt_prices,
                            log,
                            log.address.as_str(),
                        );
                        crate::filtering::extract_pool_liquidities(
                            &mut events.pool_liquidities,
                            log,
                            pool,
                        );
                        crate::filtering::extract_pool_events(
                            &mut events.pool_events,
                            tx.hash.as_str(),
                            tx.from.as_str(),
                            log,
                            pool,
                            timestamp,
                            block.number,
                            &mut transfer_ctx,
                        );
                        crate::filtering::extract_transactions(
                            &mut events.transactions,
                            log,
                            tx,
                            timestamp,
                            block.number,
                        );
                    }
                },
            }
            proof {
                let sq1 = events.pool_sqrt_prices@.map_values(|x: PoolSqrtPrice| x@);
                let tr1 = events.transactions@.map_values(|x: crate::pb::Transaction| x@);
                let ev1 = events.pool_events@.map_values(|x: PoolEvent| event_skeleton(x@));
                let ehere = event_skeletons_of_logs(pv, txs[t as int], l2 as int, timestamp, block.number);
                let enext = event_skeletons_of_logs(pv, txs[t as int], l2 + 1, timestamp, block.number);
                assert(ev1 + enext =~~= ev0 + ehere);
                assert(ev1 + enext + event_skeletons_of_block(pv, txs, t + 1, timestamp, block.number)
                    =~~= ev0 + ehere + event_skeletons_of_block(pv, txs, t + 1, timestamp, block.number));
                let here = snapshots_of_logs(pv, tx.logs@, l2 as int);
                let next = snapshots_of_logs(pv, tx.logs@, l2 + 1);
                let there = tx_records_of_logs(
                    pv,
                    tx.logs@,
                    l2 as int,
                    tx.hash@,
                    timestamp,
                    block.number,
                );
                let tnext = tx_records_of_logs(
                    pv,
                    tx.logs@,
                    l2 + 1,
                    tx.hash@,
                    timestamp,
                    block.number,
                );
                assert(sq1 + next =~= sq0 + here);
                assert(tr1 + tnext =~= tr0 + there);
                assert(sq1 + next + snapshots_of_block(pv, txs, t + 1) =~= sq0 + here
                    + snapshots_of_block(pv, txs, t + 1));
                assert(tr1 + tnext + tx_records_of_block(pv, txs, t + 1, timestamp, block.number)
                    =~= tr0 + there + tx_records_of_block(
                    pv,
                    txs,
                    t + 1,
                    timestamp,
                    block.number,
                ));
            }
            l2 = l2 + 1;
        }
        proof {
            assert(event_skeletons_of_logs(pv, txs[t as int], ln as int, timestamp, block.number)
                =~= Seq::<crate::pb::PoolEventV>::empty());
            assert(events.pool_events@.map_values(|x: PoolEvent| event_skeleton(x@))
                + event_skeletons_of_block(pv, txs, t + 1, timestamp, block.number)
                =~= events.pool_events@.map_values(|x: PoolEvent| event_skeleton(x@))
                + event_skeletons_of_logs(pv, txs[t as int], ln as int, timestamp, block.number)
                + event_skeletons_of_block(pv, txs, t + 1, timestamp, block.number));
            assert(snapshots_of_logs(pv, tx.logs@, ln as int) =~= Seq::<
                crate::pb::PoolSqrtPriceV,
            >::empty());
            assert(tx_records_of_logs(pv, tx.logs@, ln as int, tx.hash@, timestamp, block.number)
                =~= Seq::<crate::pb::TransactionV>::empty());
            assert(events.pool_sqrt_prices@.map_values(|x: PoolSqrtPrice| x@)
                + snapshots_of_block(pv, txs, t + 1) =~= events.pool_sqrt_prices@.map_values(
                |x: PoolSqrtPrice| x@,
            ) + snapshots_of_logs(pv, tx.logs@, ln as int) + snapshots_of_block(pv, txs, t + 1));
            assert(events.transactions@.map_values(|x: crate::pb::Transaction| x@)
                + tx_records_of_block(pv, txs, t + 1, timestamp, block.number)
                =~= events.transactions@.map_values(|x: crate::pb::Transaction| x@)
                + tx_records_of_logs(pv, tx.logs@, ln as int, tx.hash@, timestamp, block.number)
                + tx_records_of_block(pv, txs, t + 1, timestamp, block.number));
        }
        t = t + 1;
    }
    proof {
        assert(event_skeletons_of_block(pv, txs, tn as int, timestamp, block.number) =~= Seq::<
            crate::pb::PoolEventV,
        >::empty());
        assert(events.pool_events@.map_values(|x: PoolEvent| event_skeleton(x@))
            =~= events.pool_events@.map_values(|x: PoolEvent| event_skeleton(x@))
            + event_skeletons_of_block(pv, txs, tn as int, timestamp, block.number));
        assert(snapshots_of_block(pv, txs, tn as int) =~= Seq::<
            crate::pb::PoolSqrtPriceV,
        >::empty());
        assert(tx_records_of_block(pv, txs, tn as int, timestamp, block.number) =~= Seq::<
            crate::pb::TransactionV,
        >::empty());
        assert(events.pool_sqrt_prices@.map_values(|x: PoolSqrtPrice| x@)
            =~= events.pool_sqrt_prices@.map_values(|x: PoolSqrtPrice| x@) + snapshots_of_block(
            pv,
            txs,
            tn as int,
        ));
        assert(events.transactions@.map_values(|x: crate::pb::Transaction| x@)
            =~= events.transactions@.map_values(|x: crate::pb::Transaction| x@)
            + tx_records_of_block(pv, txs, tn as int, timestamp, block.number));
    }
    events
}


/// A token with one more whitelisted pool.
pub open spec fn token_with_pool(t: TokenV, pool_addr: Seq<char>) -> TokenV {
    TokenV {
        address: t.address,
        name: t.name,
        symbol: t.symbol,
        decimals: t.decimals,
        total_supply: t.total_supply,
        whitelist_pools: t.whitelist_pools.push(pool_addr),
    }
}

/// Model of [`map_tokens_whitelist_pools`], from position `i`: for each
/// pool, a whitelisted token0 adds the pool to token1 (and vice versa).
pub open spec fn wl_tokens_model(ps: Seq<Pool>, i: int) -> Seq<TokenV>
    decreases ps.len() - i,
{
    if i < 0 || i >= ps.len() {
        Seq::<TokenV>::empty()
    } else {
        let p = ps[i];
        let first: Seq<TokenV> = if crate::constants::is_whitelisted_spec(
            p@.token0.unwrap().address,
        ) {
            seq![token_with_pool(p@.token1.unwrap(), p.address@)]
        } else {
            Seq::<TokenV>::empty()
        };
        let second: Seq<TokenV> = if crate::constants::is_whitelisted_spec(
            p@.token1.unwrap().address,
        ) {
            seq![token_with_pool(p@.token0.unwrap(), p.address@)]
        } else {
            Seq::<TokenV>::empty()
        };
        first + second + wl_tokens_model(ps, i + 1)
    }
}

/// For each created pool whose token0 (token1) is whitelisted, emits the
/// counterpart token1 (token0) with the pool appended to its whitelisted
/// pool list.
pub fn map_tokens_whitelist_pools(pools: &Pools) -> (r: Erc20Tokens)
    requires
        forall|i: int| 0 <= i < pools.pools@.len() ==> (#[trigger] pools.pools@[i]).has_tokens(),
    ensures
        r.tokens@.map_values(|t: Erc20Token| t@) == wl_tokens_model(pools.pools@, 0),
{
    let ghost ps = pools.pools@;
    let mut tokens: Vec<Erc20Token> = Vec::new();
    let total = pools.pools.len();
    let mut i: usize = 0;
    proof {
        assert(tokens@.map_values(|t: Erc20Token| t@) + wl_tokens_model(ps, 0) =~= wl_tokens_model(
            ps,
            0,
        ));
    }
    while i < total
        invariant
            0 <= i <= total,
            total == ps.len(),
            pools.pools@ == ps,
            forall|j: int| 0 <= j < ps.len() ==> (#[trigger] ps[j]).has_tokens(),
            tokens@.map_values(|t: Erc20Token| t@) + wl_tokens_model(ps, i as int)
                == wl_tokens_model(ps, 0),
        decreases total - i,
    {
        let ghost before = tokens@.map_values(|t: Erc20Token| t@);
        let pool = &pools.pools[i];
        let t0 = pool.token0_ref();
        let t1 = pool.token1_ref();
        let t0_whitelisted = crate::constants::is_whitelisted_token(t0.address.as_str());
        let t1_whitelisted = crate::constants::is_whitelisted_token(t1.address.as_str());
        if t0_whitelisted {
            let mut tok = pool.token1();
            tok.whitelist_pools.push(pool.address.clone());
            proof {
                assert(tok@.whitelist_pools =~= token_with_pool(
                    ps[i as int]@.token1.unwrap(),
                    ps[i as int].address@,
                ).whitelist_pools);
                assert(tok@ == token_with_pool(
                    ps[i as int]@.token1.unwrap(),
                    ps[i as int].address@,
                ));
            }
            tokens.push(tok);
        }
        if t1_whitelisted {
            let mut tok = pool.token0();
            tok.whitelist_pools.push(pool.address.clone());
            proof {
                assert(tok@.whitelist_pools =~= token_with_pool(
                    ps[i as int]@.token0.unwrap(),
                    ps[i as int].address@,
                ).whitelist_pools);
                assert(tok@ == token_with_pool(
                    ps[i as int]@.token0.unwrap(),
                    ps[i as int].address@,
                ));
            }
            tokens.push(tok);
        }
        proof {
            let p = ps[i as int];
            let first: Seq<TokenV> = if crate::constants::is_whitelisted_spec(
                p@.token0.unwrap().address,
            ) {
                seq![token_with_pool(p@.token1.unwrap(), p.address@)]
            } else {
                Seq::<TokenV>::empty()
            };
            let second: Seq<TokenV> = if crate::constants::is_whitelisted_spec(
                p@.token1.unwrap().address,
            ) {
                seq![token_with_pool(p@.token0.unwrap(), p.address@)]
            } else {
                Seq::<TokenV>::empty()
            };
            assert(tokens@.map_values(|t: Erc20Token| t@) =~= before + first + second);
            assert(wl_tokens_model(ps, i as int) == first + second + wl_tokens_model(ps, i + 1));
            assert((before + first + second) + wl_tokens_model(ps, i + 1) =~= before + (first
                + second + wl_tokens_model(ps, i + 1)));
        }
        i = i + 1;
    }
    proof {
        assert(wl_tokens_model(ps, total as int) =~= Seq::<TokenV>::empty());
        assert(tokens@.map_values(|t: Erc20Token| t@) + wl_tokens_model(ps, total as int)
            =~= tokens@.map_values(|t: Erc20Token| t@));
    }
    Erc20Tokens { tokens }
}

/// The whitelist index after one token's pools have been appended under
/// its token key, from item `k`.
pub open spec fn wl_store_token_fold(
    s: Seq<crate::store::EntryV<Seq<Seq<char>>>>,
    t: TokenV,
    k: int,
) -> Seq<crate::store::EntryV<Seq<Seq<char>>>>
    decreases t.whitelist_pools.len() - k,
{
    if k < 0 || k >= t.whitelist_pools.len() {
        s
    } else {
        wl_store_token_fold(
            crate::store::wl_append_model(
                s,
                kv_entity(Table::Token, t.address),
                1,
                t.whitelist_pools[k],
            ),
            t,
            k + 1,
        )
    }
}

/// Model of [`store_tokens_whitelist_pools`], from token `i`.
pub open spec fn wl_store_fold(
    s: Seq<crate::store::EntryV<Seq<Seq<char>>>>,
    tokens: Seq<TokenV>,
    i: int,
) -> Seq<crate::store::EntryV<Seq<Seq<char>>>>
    decreases tokens.len() - i,
{
    if i < 0 || i >= tokens.len() {
        s
    } else {
        wl_store_fold(wl_store_token_fold(s, tokens[i], 0), tokens, i + 1)
    }
}

/// Appends each token's whitelisted pools to the list stored under its
/// token key, one item at a time, in order: the in-order fold of the
/// list-append model, building the index the price oracle walks.
#[verifier::loop_isolation(false)]
pub fn store_tokens_whitelist_pools(tokens: Erc20Tokens, store: &mut Store<Vec<String>>)
    ensures
        crate::store::wl_view(final(store)@) == wl_store_fold(
            crate::store::wl_view(old(store)@),
            tokens.tokens@.map_values(|t: Erc20Token| t@),
            0,
        ),
{
    let ghost tmap = tokens.tokens@.map_values(|t: Erc20Token| t@);
    let ghost target = wl_store_fold(crate::store::wl_view(old(store)@), tmap, 0);
    let total = tokens.tokens.len();
    let mut i: usize = 0;
    while i < total
        invariant
            0 <= i <= total,
            wl_store_fold(crate::store::wl_view(store@), tmap, i as int) == target,
        decreases total - i,
    {
        let token = &tokens.tokens[i];
        proof {
            assert(tmap[i as int] == token@);
        }
        let m = token.whitelist_pools.len();
        let mut k: usize = 0;
        while k < m
            invariant
                0 <= k <= m,
                wl_store_fold(
                    wl_store_token_fold(crate::store::wl_view(store@), tmap[i as int], k as int),
                    tmap,
                    i + 1,
                ) == target,
            decreases m - k,
        {
            let ghost cur = crate::store::wl_view(store@);
            let key = Key::entity(Table::Token, token.address.clone());
            proof {
                assert(key@ == kv_entity(Table::Token, tmap[i as int].address));
                assert(token.whitelist_pools@[k as int]@ == tmap[i as int].whitelist_pools[k as int]);
            }
            store.append_value(key, 1, token.whitelist_pools[k].clone());
            proof {
                assert(crate::store::wl_view(store@) == crate::store::wl_append_model(
                    cur,
                    kv_entity(Table::Token, tmap[i as int].address),
                    1,
                    tmap[i as int].whitelist_pools[k as int],
                ));
                assert(wl_store_token_fold(cur, tmap[i as int], k as int) == wl_store_token_fold(
                    crate::store::wl_view(store@),
                    tmap[i as int],
                    k + 1,
                ));
            }
            k = k + 1;
        }
        proof {
            assert(wl_store_token_fold(
                crate::store::wl_view(store@),
                tmap[i as int],
                m as int,
            ) == crate::store::wl_view(store@));
        }
        i = i + 1;
    }
}


/// The day-granularity window tables.
pub open spec fn is_day_table(t: Table) -> bool {
    ||| t == Table::UniswapDayData
    ||| t == Table::PoolDayData
    ||| t == Table::TokenDayData
}

/// Every day-table entry lies in bucket `d`.
pub open spec fn day_entries_in(s: Seq<EntryV<Dec>>, d: u64) -> bool {
    forall|j: int|
        0 <= j < s.len() && is_day_table((#[trigger] s[j]).key.table) ==> s[j].key.bucket == d
}

/// The day-table keys written by the transaction counter all carry the
/// current day bucket.
proof fn lemma_tx_count_keys_day(ev: PoolEvent, ts: u64)
    ensures
        forall|j: int|
            0 <= j < tx_count_keys(ev, ts).len() && is_day_table(
                (#[trigger] tx_count_keys(ev, ts)[j]).table,
            ) ==> tx_count_keys(ev, ts)[j].bucket == day_of(ts),
{
    let keys = tx_count_keys(ev, ts);
    assert forall|j: int|
        0 <= j < keys.len() && is_day_table((#[trigger] keys[j]).table) implies keys[j].bucket
        == day_of(ts) by {
        assert(keys.len() == 13);
        if j == 0 || j == 1 || j == 2 || j == 3 {
            assert(!is_day_table(keys[j].table));
        } else if j == 4 || j == 5 || j == 7 || j == 8 {
            assert(keys[j].bucket == day_of(ts));
        } else {
            assert(!is_day_table(keys[j].table));
        }
    }
}

/// One accumulate preserves the day-bucket bound when its key does.
proof fn lemma_add_model_day(s: Seq<EntryV<Dec>>, key: KeyV, ordinal: u64, delta: Dec, d: u64)
    requires
        day_entries_in(s, d),
        is_day_table(key.table) ==> key.bucket == d,
    ensures
        day_entries_in(add_model(s, key, ordinal, delta), d),
{
    let r = add_model(s, key, ordinal, delta);
    assert forall|j: int|
        0 <= j < r.len() && is_day_table((#[trigger] r[j]).key.table) implies r[j].key.bucket
        == d by {
        if j < s.len() {
            assert(r[j] == s[j]);
        }
    }
}

/// A multi-key accumulate preserves the day-bucket bound when every key
/// does.
proof fn lemma_add_many_day(s: Seq<EntryV<Dec>>, keys: Seq<KeyV>, ordinal: u64, delta: Dec, d: u64)
    requires
        day_entries_in(s, d),
        forall|j: int|
            0 <= j < keys.len() && is_day_table((#[trigger] keys[j]).table) ==> keys[j].bucket
                == d,
    ensures
        day_entries_in(add_many_model(s, keys, ordinal, delta), d),
    decreases keys.len(),
{
    if keys.len() > 0 {
        lemma_add_model_day(s, keys[0], ordinal, delta, d);
        let s2 = add_model(s, keys[0], ordinal, delta);
        assert forall|j: int|
            0 <= j < keys.skip(1).len() && is_day_table(
                (#[trigger] keys.skip(1)[j]).table,
            ) implies keys.skip(1)[j].bucket == d by {
            assert(keys.skip(1)[j] == keys[j + 1]);
        }
        lemma_add_many_day(s2, keys.skip(1), ordinal, delta, d);
    }
}

/// The transaction-count fold preserves the day-bucket bound.
proof fn lemma_tx_counts_fold_day(s: Seq<EntryV<Dec>>, evs: Seq<PoolEvent>, ts: u64, i: int)
    requires
        day_entries_in(s, day_of(ts)),
    ensures
        day_entries_in(tx_counts_fold(s, evs, ts, i), day_of(ts)),
    decreases evs.len() - i,
{
    if 0 <= i < evs.len() {
        lemma_tx_count_keys_day(evs[i], ts);
        lemma_add_many_day(
            s,
            tx_count_keys(evs[i], ts),
            evs[i].log_ordinal,
            Dec { num: 1, den: 1 },
            day_of(ts),
        );
        lemma_tx_counts_fold_day(
            add_many_model(s, tx_count_keys(evs[i], ts), evs[i].log_ordinal, Dec { num: 1, den: 1 }),
            evs,
            ts,
            i + 1,
        );
    }
}

/// No entry of the given table and bucket exists.
pub open spec fn no_bucket(s: Seq<EntryV<Dec>>, t: Table, b: u64) -> bool {
    forall|j: int|
        0 <= j < s.len() ==> !((#[trigger] s[j]).key.table == t && s[j].key.bucket == b)
}

/// Every day-table entry lies in bucket `d - 1` or `d`.
pub open spec fn day_range(s: Seq<EntryV<Dec>>, d: u64) -> bool {
    forall|j: int|
        0 <= j < s.len() && is_day_table((#[trigger] s[j]).key.table) ==> s[j].key.bucket == (d
            - 1) as u64 || s[j].key.bucket == d
}

/// A prune leaves no entry of the pruned bucket.
proof fn lemma_remove_gives_absent(s: Seq<EntryV<Dec>>, t: Table, b: u64)
    ensures
        no_bucket(remove_bucket_spec(s, t, b), t, b),
{
    crate::store::lemma_remove_bucket(s, t, b);
}

/// A prune preserves the absence of any other bucket.
proof fn lemma_remove_preserves_absent(s: Seq<EntryV<Dec>>, t: Table, b: u64, t2: Table, b2: u64)
    requires
        no_bucket(s, t2, b2),
    ensures
        no_bucket(remove_bucket_spec(s, t, b), t2, b2),
{
    crate::store::lemma_remove_bucket(s, t, b);
    let r = remove_bucket_spec(s, t, b);
    assert forall|j: int|
        0 <= j < r.len() implies !((#[trigger] r[j]).key.table == t2 && r[j].key.bucket == b2) by {
        let i = choose|i: int| 0 <= i < s.len() && #[trigger] r[j] == s[i];
        assert(!(s[i].key.table == t2 && s[i].key.bucket == b2));
    }
}

/// A prune preserves the two-live-bucket range of the day tables.
proof fn lemma_remove_preserves_day_range(s: Seq<EntryV<Dec>>, t: Table, b: u64, d: u64)
    requires
        day_range(s, d),
    ensures
        day_range(remove_bucket_spec(s, t, b), d),
{
    crate::store::lemma_remove_bucket(s, t, b);
    let r = remove_bucket_spec(s, t, b);
    assert forall|j: int|
        0 <= j < r.len() && is_day_table((#[trigger] r[j]).key.table) implies r[j].key.bucket == (d
        - 1) as u64 || r[j].key.bucket == d by {
        let i = choose|i: int| 0 <= i < s.len() && #[trigger] r[j] == s[i];
        assert(is_day_table(s[i].key.table));
    }
}

/// An entry outside the pruned bucket survives the prune.
proof fn lemma_remove_keeps(s: Seq<EntryV<Dec>>, t: Table, b: u64, j: int) -> (i: int)
    requires
        0 <= j < s.len(),
        !(s[j].key.table == t && s[j].key.bucket == b),
    ensures
        0 <= i < remove_bucket_spec(s, t, b).len(),
        remove_bucket_spec(s, t, b)[i] == s[j],
{
    crate::store::lemma_remove_bucket(s, t, b);
    let r = remove_bucket_spec(s, t, b);
    let i = choose|i: int| 0 <= i < r.len() && r[i] == s[j];
    i
}

/// After the full window prune, every day-table entry (given the
/// two-live-bucket range) lies in the current bucket.
proof fn lemma_prune_day_current(s: Seq<EntryV<Dec>>, ts: u64)
    requires
        day_of(ts) >= 1,
        day_range(s, day_of(ts)),
    ensures
        day_entries_in(prune_all_windows(s, ts), day_of(ts)),
{
    let d = day_of(ts);
    let b = (d - 1) as u64;
    let s1 = remove_bucket_spec(s, Table::UniswapDayData, b);
    let s2 = remove_bucket_spec(s1, Table::PoolDayData, b);
    let s3 = remove_bucket_spec(s2, Table::PoolHourData, (hour_of(ts) - 1) as u64);
    let s4 = remove_bucket_spec(s3, Table::TokenDayData, b);
    let s5 = remove_bucket_spec(s4, Table::TokenHourData, (hour_of(ts) - 1) as u64);
    let s6 = remove_bucket_spec(s5, Table::TokenMinuteData, (minute_of(ts) - 1) as u64);
    lemma_remove_preserves_day_range(s, Table::UniswapDayData, b, d);
    lemma_remove_preserves_day_range(s1, Table::PoolDayData, b, d);
    lemma_remove_preserves_day_range(s2, Table::PoolHourData, (hour_of(ts) - 1) as u64, d);
    lemma_remove_preserves_day_range(s3, Table::TokenDayData, b, d);
    lemma_remove_preserves_day_range(s4, Table::TokenHourData, (hour_of(ts) - 1) as u64, d);
    lemma_remove_preserves_day_range(s5, Table::TokenMinuteData, (minute_of(ts) - 1) as u64, d);
    lemma_remove_gives_absent(s, Table::UniswapDayData, b);
    lemma_remove_preserves_absent(s1, Table::PoolDayData, b, Table::UniswapDayData, b);
    lemma_remove_preserves_absent(
        s2,
        Table::PoolHourData,
        (hour_of(ts) - 1) as u64,
        Table::UniswapDayData,
        b,
    );
    lemma_remove_preserves_absent(s3, Table::TokenDayData, b, Table::UniswapDayData, b);
    lemma_remove_preserves_absent(
        s4,
        Table::TokenHourData,
        (hour_of(ts) - 1) as u64,
        Table::UniswapDayData,
        b,
    );
    lemma_remove_preserves_absent(
        s5,
        Table::TokenMinuteData,
        (minute_of(ts) - 1) as u64,
        Table::UniswapDayData,
        b,
    );
    lemma_remove_gives_absent(s1, Table::PoolDayData, b);
    lemma_remove_preserves_absent(
        s2,
        Table::PoolHourData,
        (hour_of(ts) - 1) as u64,
        Table::PoolDayData,
        b,
    );
    lemma_remove_preserves_absent(s3, Table::TokenDayData, b, Table::PoolDayData, b);
    lemma_remove_preserves_absent(
        s4,
        Table::TokenHourData,
        (hour_of(ts) - 1) as u64,
        Table::PoolDayData,
        b,
    );
    lemma_remove_preserves_absent(
        s5,
        Table::TokenMinuteData,
        (minute_of(ts) - 1) as u64,
        Table::PoolDayData,
        b,
    );
    lemma_remove_gives_absent(s3, Table::TokenDayData, b);
    lemma_remove_preserves_absent(
        s4,
        Table::TokenHourData,
        (hour_of(ts) - 1) as u64,
        Table::TokenDayData,
        b,
    );
    lemma_remove_preserves_absent(
        s5,
        Table::TokenMinuteData,
        (minute_of(ts) - 1) as u64,
        Table::TokenDayData,
        b,
    );
    assert forall|j: int|
        0 <= j < s6.len() && is_day_table((#[trigger] s6[j]).key.table) implies s6[j].key.bucket
        == d by {
        assert(s6[j].key.bucket == b || s6[j].key.bucket == d);
    }
}

/// Bucket retention, the day granularity: once the aggregation step at
/// `ts` has run, no day-table key of the previous day bucket remains;
/// and when the store held only the current and previous day buckets
/// beforehand (the steady state the step itself maintains), every
/// day-table key now lies in the current bucket — nothing older than one
/// day ever survives a processed day boundary.
pub proof fn lemma_day_bucket_retention(s: Seq<EntryV<Dec>>, evs: Seq<PoolEvent>, ts: u64)
    requires
        day_of(ts) >= 1,
        day_range(s, day_of(ts)),
    ensures
        day_entries_in(tx_counts_model(s, evs, ts), day_of(ts)),
        forall|j: int|
            0 <= j < tx_counts_model(s, evs, ts).len() ==> !(is_day_table(
                (#[trigger] tx_counts_model(s, evs, ts)[j]).key.table,
            ) && tx_counts_model(s, evs, ts)[j].key.bucket == (day_of(ts) - 1) as u64),
{
    lemma_prune_day_current(s, ts);
    lemma_tx_counts_fold_day(prune_all_windows(s, ts), evs, ts, 0);
}

/// The membership side of retention: an entry of the current day bucket
/// survives both the prune and the appended writes of the step.
pub proof fn lemma_current_bucket_persists(
    s: Seq<EntryV<Dec>>,
    evs: Seq<PoolEvent>,
    ts: u64,
    j0: int,
)
    requires
        day_of(ts) >= 1,
        hour_of(ts) >= 1,
        minute_of(ts) >= 1,
        0 <= j0 < s.len(),
        is_day_table(s[j0].key.table),
        s[j0].key.bucket == day_of(ts),
    ensures
        exists|j: int|
            0 <= j < tx_counts_model(s, evs, ts).len() && #[trigger] tx_counts_model(
                s,
                evs,
                ts,
            )[j] == s[j0],
{
    let d = day_of(ts);
    let b = (d - 1) as u64;
    let hb = (hour_of(ts) - 1) as u64;
    let mb = (minute_of(ts) - 1) as u64;
    let s1 = remove_bucket_spec(s, Table::UniswapDayData, b);
    let s2 = remove_bucket_spec(s1, Table::PoolDayData, b);
    let s3 = remove_bucket_spec(s2, Table::PoolHourData, hb);
    let s4 = remove_bucket_spec(s3, Table::TokenDayData, b);
    let s5 = remove_bucket_spec(s4, Table::TokenHourData, hb);
    let i1 = lemma_remove_keeps(s, Table::UniswapDayData, b, j0);
    let i2 = lemma_remove_keeps(s1, Table::PoolDayData, b, i1);
    let i3 = lemma_remove_keeps(s2, Table::PoolHourData, hb, i2);
    let i4 = lemma_remove_keeps(s3, Table::TokenDayData, b, i3);
    let i5 = lemma_remove_keeps(s4, Table::TokenHourData, hb, i4);
    let i6 = lemma_remove_keeps(s5, Table::TokenMinuteData, mb, i5);
    let s6 = remove_bucket_spec(s5, Table::TokenMinuteData, mb);
    assert(s6 == prune_all_windows(s, ts));
    assert(s6[i6] == s[j0]);
    lemma_fold_keeps_member(s6, evs, ts, 0, i6);
    let jf = choose|j: int| 0 <= j < tx_counts_fold(s6, evs, ts, 0).len() && #[trigger] tx_counts_fold(s6, evs, ts, 0)[j] == s6[i6];
    assert(tx_counts_model(s, evs, ts) == tx_counts_fold(s6, evs, ts, 0));
    assert(tx_counts_model(s, evs, ts)[jf] == s[j0]);
}

/// The transaction-count fold only appends: existing entries remain at
/// their positions.
proof fn lemma_fold_keeps_member(s: Seq<EntryV<Dec>>, evs: Seq<PoolEvent>, ts: u64, i: int, j: int)
    requires
        0 <= j < s.len(),
    ensures
        exists|j2: int|
            0 <= j2 < tx_counts_fold(s, evs, ts, i).len() && #[trigger] tx_counts_fold(
                s,
                evs,
                ts,
                i,
            )[j2] == s[j],
    decreases evs.len() - i,
{
    if i < 0 || i >= evs.len() {
        assert(tx_counts_fold(s, evs, ts, i)[j] == s[j]);
    } else {
        let s2 = add_many_model(s, tx_count_keys(evs[i], ts), evs[i].log_ordinal, Dec { num: 1, den: 1 });
        lemma_add_many_keeps_member(s, tx_count_keys(evs[i], ts), evs[i].log_ordinal, Dec { num: 1, den: 1 }, j);
        let jm = choose|j2: int| 0 <= j2 < s2.len() && #[trigger] s2[j2] == s[j];
        lemma_fold_keeps_member(s2, evs, ts, i + 1, jm);
        let fold2 = tx_counts_fold(s2, evs, ts, i + 1);
        let jr = choose|j2: int| 0 <= j2 < fold2.len() && #[trigger] fold2[j2] == s2[jm];
        assert(tx_counts_fold(s, evs, ts, i) == fold2);
        assert(tx_counts_fold(s, evs, ts, i)[jr] == s[j]);
    }
}

/// Multi-key accumulates only append: existing entries remain.
proof fn lemma_add_many_keeps_member(
    s: Seq<EntryV<Dec>>,
    keys: Seq<KeyV>,
    ordinal: u64,
    delta: Dec,
    j: int,
)
    requires
        0 <= j < s.len(),
    ensures
        exists|j2: int|
            0 <= j2 < add_many_model(s, keys, ordinal, delta).len() && #[trigger] add_many_model(
                s,
                keys,
                ordinal,
                delta,
            )[j2] == s[j],
    decreases keys.len(),
{
    if keys.len() == 0 {
        assert(add_many_model(s, keys, ordinal, delta)[j] == s[j]);
    } else {
        let s2 = add_model(s, keys[0], ordinal, delta);
        assert(s2[j] == s[j]);
        lemma_add_many_keeps_member(s2, keys.skip(1), ordinal, delta, j);
        let rest = add_many_model(s2, keys.skip(1), ordinal, delta);
        let jr = choose|j2: int| 0 <= j2 < rest.len() && #[trigger] rest[j2] == s2[j];
        assert(add_many_model(s, keys, ordinal, delta) == rest);
        assert(add_many_model(s, keys, ordinal, delta)[jr] == s[j]);
    }
}

} // verus!










